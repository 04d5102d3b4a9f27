use tabletbot::commands::{
    argument_error, check_alias, check_editable, edit_snippet, escape_newlines, handles_message,
    new_snippet, parse_colour, plan_edit, plan_embed, unescape_newlines, AliasRefusal,
    ColourError, EditRefusal, EmbedRefusal, EmbedRequest, HexError, DEFAULT_USAGE,
};
use tabletbot::embed::{error_embed, ok_embed, Embed, ERROR_COLOUR, OK_COLOUR};
use tabletbot::structures::{BotState, RepositoryDetails, Snippet};

fn request() -> EmbedRequest {
    EmbedRequest {
        title: None,
        description: None,
        color: None,
        url: None,
        image: None,
        footer: None,
        thumbnail: None,
    }
}

#[test]
fn a_colour_is_red_green_and_blue_in_hexadecimal() {
    assert_eq!(parse_colour("ff00ff"), Ok(0xff00ff));
    assert_eq!(parse_colour("000000"), Ok(0));
    assert_eq!(parse_colour("012345"), Ok(0x012345));
    assert_eq!(parse_colour("abcdef"), Ok(0xabcdef));
    assert_eq!(parse_colour("ffffff"), Ok(0xffffff));
}

#[test]
fn capital_letters_and_hash_signs_are_accepted() {
    assert_eq!(parse_colour("#FF00FF"), Ok(0xff00ff));
    assert_eq!(parse_colour("ABCDEF"), Ok(0xabcdef));
    assert_eq!(parse_colour("#ab#cd#ef#"), Ok(0xabcdef));
}

#[test]
fn bytes_after_the_third_are_not_used() {
    assert_eq!(parse_colour("11223344"), Ok(0x112233));
}

#[test]
fn an_odd_number_of_digits_is_refused() {
    assert_eq!(parse_colour("ff00f"), Err(ColourError::Hex(HexError::OddLength)));
    assert_eq!(parse_colour("f"), Err(ColourError::Hex(HexError::OddLength)));
    assert_eq!(parse_colour("#ggg"), Err(ColourError::Hex(HexError::OddLength)));
}

#[test]
fn the_first_character_that_is_no_digit_is_reported() {
    assert_eq!(
        parse_colour("gg0000"),
        Err(ColourError::Hex(HexError::InvalidHexCharacter { c: 'g', index: 0 }))
    );
    assert_eq!(
        parse_colour("00x0y0"),
        Err(ColourError::Hex(HexError::InvalidHexCharacter { c: 'x', index: 2 }))
    );
    assert_eq!(
        parse_colour("#00 0Z0"),
        Err(ColourError::Hex(HexError::InvalidHexCharacter { c: ' ', index: 2 }))
    );
    assert_eq!(
        parse_colour("0000GG"),
        Err(ColourError::Hex(HexError::InvalidHexCharacter { c: 'g', index: 4 }))
    );
}

#[test]
fn fewer_than_three_bytes_are_no_colour() {
    assert_eq!(parse_colour("ff00"), Err(ColourError::TooShort));
    assert_eq!(parse_colour("ff"), Err(ColourError::TooShort));
    assert_eq!(parse_colour(""), Err(ColourError::TooShort));
    assert_eq!(parse_colour("#"), Err(ColourError::TooShort));
}

#[test]
fn written_out_line_feeds_become_real() {
    assert_eq!(unescape_newlines("a\\nb"), "a\nb");
    assert_eq!(unescape_newlines("\\n\\n"), "\n\n");
    assert_eq!(unescape_newlines("\\\\n"), "\\\n");
    assert_eq!(unescape_newlines("ends with \\"), "ends with \\");
    assert_eq!(unescape_newlines("\\t"), "\\t");
    assert_eq!(unescape_newlines(""), "");
    assert_eq!(unescape_newlines("plain"), "plain");
}

#[test]
fn line_feeds_are_written_out() {
    assert_eq!(escape_newlines("a\nb"), "a\\nb");
    assert_eq!(escape_newlines("\n\n"), "\\n\\n");
    assert_eq!(escape_newlines(""), "");
    assert_eq!(escape_newlines("plain"), "plain");
    assert_eq!(unescape_newlines(&escape_newlines("one\ntwo\n")), "one\ntwo\n");
}

#[test]
fn an_embed_needs_something_to_show() {
    assert_eq!(plan_embed(&request()), Err(EmbedRefusal::NothingToShow));
    let mut only_colour = request();
    only_colour.color = Some("ff0000".into());
    only_colour.url = Some("https://x".into());
    assert_eq!(plan_embed(&only_colour), Err(EmbedRefusal::NothingToShow));
}

#[test]
fn a_url_needs_a_title() {
    let mut r = request();
    r.description = Some("d".into());
    r.url = Some("https://x".into());
    assert_eq!(plan_embed(&r), Err(EmbedRefusal::UrlWithoutTitle));
    r.title = Some("t".into());
    assert!(plan_embed(&r).is_ok());
}

#[test]
fn a_planned_embed_holds_what_was_asked_for() {
    let r = EmbedRequest {
        title: Some("Title".into()),
        description: Some("one\\ntwo".into()),
        color: Some("#00ff00".into()),
        url: None,
        image: Some("https://img".into()),
        footer: Some("foot".into()),
        thumbnail: Some("https://thumb".into()),
    };
    let plan = plan_embed(&r).unwrap();
    assert_eq!(plan.colour_error, None);
    let mut expected = Embed::new();
    expected.title = Some("Title".into());
    expected.description = Some("one\ntwo".into());
    expected.colour = Some(0x00ff00);
    expected.image = Some("https://img".into());
    expected.footer = Some("foot".into());
    expected.thumbnail = Some("https://thumb".into());
    assert_eq!(plan.embed, expected);
}

#[test]
fn a_bad_colour_is_reported_beside_the_embed() {
    let mut r = request();
    r.title = Some("t".into());
    r.color = Some("red".into());
    let plan = plan_embed(&r).unwrap();
    assert_eq!(plan.colour_error, Some(ColourError::Hex(HexError::OddLength)));
    assert_eq!(plan.embed.colour, None);
    assert_eq!(plan.embed.title, Some("t".to_string()));
}

#[test]
fn only_messages_of_the_embed_command_are_edited() {
    assert_eq!(check_editable(Some("embed")), Ok(()));
    assert_eq!(check_editable(Some("snippet")), Err(EditRefusal::NotAnEmbedInteraction));
    assert_eq!(check_editable(Some("")), Err(EditRefusal::NotAnEmbedInteraction));
    assert_eq!(check_editable(Some("Embed")), Err(EditRefusal::NotAnEmbedInteraction));
    assert_eq!(check_editable(None), Err(EditRefusal::NotAnInteraction));
}

#[test]
fn an_edit_replaces_removes_or_keeps_each_part() {
    let mut existing = Embed::new();
    existing.title = Some("old title".into());
    existing.description = Some("old description".into());
    existing.url = Some("https://old".into());
    existing.colour = Some(0x123456);
    existing.footer = Some("old footer".into());
    let r = EmbedRequest {
        title: Some("new title".into()),
        description: Some("_".into()),
        color: None,
        url: None,
        image: Some("https://new-image".into()),
        footer: Some("__".into()),
        thumbnail: Some("_".into()),
    };
    let plan = plan_edit(&existing, &r);
    assert_eq!(plan.colour_error, None);
    let mut expected = Embed::new();
    expected.title = Some("new title".into());
    expected.description = None;
    expected.url = Some("https://old".into());
    expected.colour = Some(0x123456);
    expected.image = Some("https://new-image".into());
    expected.footer = Some("__".into());
    expected.thumbnail = None;
    assert_eq!(plan.embed, expected);
}

#[test]
fn an_edit_of_the_colour_replaces_removes_or_reports() {
    let mut existing = Embed::new();
    existing.title = Some("t".into());
    existing.colour = Some(0x123456);
    let mut r = request();
    r.color = Some("0000ff".into());
    assert_eq!(plan_edit(&existing, &r).embed.colour, Some(0x0000ff));
    r.color = Some("_".into());
    let plan = plan_edit(&existing, &r);
    assert_eq!(plan.embed.colour, None);
    assert_eq!(plan.colour_error, None);
    r.color = Some("zz".into());
    let plan = plan_edit(&existing, &r);
    assert_eq!(plan.embed.colour, None);
    assert_eq!(
        plan.colour_error,
        Some(ColourError::Hex(HexError::InvalidHexCharacter { c: 'z', index: 0 }))
    );
    assert_eq!(plan.embed.title, Some("t".to_string()));
}

#[test]
fn notices_are_titled_and_coloured() {
    let ok = ok_embed("Done", "All good");
    assert_eq!(ok.title, Some("Done".to_string()));
    assert_eq!(ok.description, Some("All good".to_string()));
    assert_eq!(ok.colour, Some(OK_COLOUR));
    assert_eq!(OK_COLOUR, 0x2ecc71);
    let bad = error_embed("Oops", "Not good");
    assert_eq!(bad.title, Some("Oops".to_string()));
    assert_eq!(bad.colour, Some(ERROR_COLOUR));
}

#[test]
fn an_alias_key_must_end_in_lowercase_letters() {
    assert_eq!(check_alias("foo", "acme", "widgets"), Ok(()));
    assert_eq!(check_alias("a+b", "acme", "widgets"), Ok(()));
    assert_eq!(check_alias("Foo", "acme", "widgets"), Ok(()));
    assert_eq!(check_alias("FOO", "acme", "widgets"), Err(AliasRefusal::Key));
    assert_eq!(check_alias("foo1", "acme", "widgets"), Err(AliasRefusal::Key));
    assert_eq!(check_alias("", "acme", "widgets"), Err(AliasRefusal::Key));
    assert_eq!(check_alias("", "ac me", "widgets"), Err(AliasRefusal::Key));
}

#[test]
fn owner_and_name_must_be_repository_names() {
    assert_eq!(check_alias("foo", "Open-Tablet_Driver9", "a"), Ok(()));
    assert_eq!(check_alias("foo", "", ""), Ok(()));
    assert_eq!(check_alias("foo", "ac me", "widgets"), Err(AliasRefusal::Repository));
    assert_eq!(check_alias("foo", "acme", "wid/gets"), Err(AliasRefusal::Repository));
    assert_eq!(check_alias("foo", "acme", "wid.gets"), Err(AliasRefusal::Repository));
}

#[test]
fn an_accepted_alias_is_stored_under_its_lowercase_key() {
    let mut state = BotState::new();
    assert_eq!(state.add_repo("Foo", "acme", "widgets"), Ok(()));
    let expected = RepositoryDetails { owner: "acme".into(), name: "widgets".into() };
    assert_eq!(state.get_repo_details("foo"), Some(expected.clone()));
    assert_eq!(state.get_repo_details("Foo"), None);
    assert_eq!(state.add_repo("BAR", "acme", "widgets"), Err(AliasRefusal::Key));
    assert_eq!(state.add_repo("bar", "ac me", "widgets"), Err(AliasRefusal::Repository));
    assert_eq!(state.issue_prefixes.len(), 1);
    state.rm_repo("nope");
    assert_eq!(state.issue_prefixes.len(), 1);
    state.rm_repo("foo");
    assert_eq!(state.get_repo_details("foo"), None);
    assert!(state.issue_prefixes.is_empty());
}

#[test]
fn new_and_edited_snippets_take_real_line_feeds() {
    let made = new_snippet("id".into(), "Title".into(), "one\\ntwo");
    assert_eq!(
        made,
        Snippet { id: "id".into(), title: "Title".into(), content: "one\ntwo".into() }
    );
    let kept = edit_snippet(&made, None, None);
    assert_eq!(kept, made);
    let edited = edit_snippet(&made, Some("New".into()), Some("a\\nb"));
    assert_eq!(edited, Snippet { id: "id".into(), title: "New".into(), content: "a\nb".into() });
    let retitled = edit_snippet(&made, Some("Only".into()), None);
    assert_eq!(retitled.content, "one\ntwo");
    assert_eq!(retitled.title, "Only");
}

#[test]
fn an_argument_error_names_input_error_and_usage() {
    assert_eq!(
        argument_error(Some("abc"), "invalid digit", Some("usage: n")),
        "**Cannot parse `abc` as argument: invalid digit**\nusage: n"
    );
    assert_eq!(
        argument_error(None, "Too few arguments", None),
        "### Too few arguments\nPlease check the help menu for usage information"
    );
    assert_eq!(DEFAULT_USAGE, "Please check the help menu for usage information");
    assert_eq!(argument_error(Some(""), "", Some("")), "**Cannot parse `` as argument: **\n");
}

#[test]
fn only_messages_of_people_in_guilds_are_looked_at() {
    assert!(handles_message(false, true));
    assert!(!handles_message(true, true));
    assert!(!handles_message(false, false));
    assert!(!handles_message(true, false));
}
