use tabletbot::document::Embeddable;
use tabletbot::embed::ACCENT_COLOUR;
use tabletbot::structures::{Aliases, BotState, Container, RepositoryDetails, Snippet, State};

fn repo(owner: &str, name: &str) -> RepositoryDetails {
    RepositoryDetails { owner: owner.into(), name: name.into() }
}

#[test]
fn a_snippet_is_listed_by_id_and_title() {
    let snippet =
        Snippet { id: "udev".into(), title: "Udev rules".into(), content: "sudo ...".into() };
    assert_eq!(snippet.format_output(), "udev: Udev rules");
    let empty = Snippet { id: "".into(), title: "".into(), content: "".into() };
    assert_eq!(empty.format_output(), ": ");
    assert_eq!(snippet.duplicate(), snippet);
}

#[test]
fn a_snippet_embed_shows_title_and_content() {
    let snippet = Snippet { id: "a".into(), title: "T".into(), content: "C".into() };
    let embed = snippet.embed();
    assert_eq!(embed.title, Some("T".to_string()));
    assert_eq!(embed.description, Some("C".to_string()));
    assert_eq!(embed.colour, Some(ACCENT_COLOUR));
    assert!(embed.fields.is_empty());
}

#[test]
fn repository_details_give_owner_then_name() {
    let details = repo("acme", "widgets");
    let (owner, name) = details.get();
    assert_eq!(owner, "acme");
    assert_eq!(name, "widgets");
    assert_eq!(details.duplicate(), details);
}

#[test]
fn a_new_store_is_empty() {
    let aliases = Aliases::new();
    assert!(aliases.is_empty());
    assert_eq!(aliases.len(), 0);
    assert_eq!(aliases.get("foo"), None);
    assert!(aliases.entry(0).is_none());
}

#[test]
fn an_alias_is_found_by_its_exact_key() {
    let mut aliases = Aliases::new();
    aliases.insert("foo".into(), repo("acme", "widgets"));
    assert_eq!(aliases.get("foo"), Some(&repo("acme", "widgets")));
    assert_eq!(aliases.get("Foo"), None);
    assert_eq!(aliases.get("fo"), None);
    assert_eq!(aliases.get("fooo"), None);
    assert_eq!(aliases.get(""), None);
    assert_eq!(aliases.len(), 1);
    assert!(!aliases.is_empty());
}

#[test]
fn inserting_a_known_key_replaces_its_repository() {
    let mut aliases = Aliases::new();
    aliases.insert("foo".into(), repo("acme", "widgets"));
    aliases.insert("bar".into(), repo("b", "c"));
    aliases.insert("foo".into(), repo("other", "thing"));
    assert_eq!(aliases.len(), 2);
    assert_eq!(aliases.get("foo"), Some(&repo("other", "thing")));
    assert_eq!(aliases.get("bar"), Some(&repo("b", "c")));
    let first = aliases.entry(0).unwrap();
    assert_eq!(first.key, "foo");
    assert_eq!(first.details, repo("other", "thing"));
    assert_eq!(aliases.entry(1).unwrap().key, "bar");
    assert!(aliases.entry(2).is_none());
}

#[test]
fn removing_an_alias_leaves_the_others() {
    let mut aliases = Aliases::new();
    aliases.insert("a".into(), repo("1", "1"));
    aliases.insert("b".into(), repo("2", "2"));
    aliases.insert("c".into(), repo("3", "3"));
    assert_eq!(aliases.remove("b"), Some(repo("2", "2")));
    assert_eq!(aliases.remove("b"), None);
    assert_eq!(aliases.remove("zzz"), None);
    assert_eq!(aliases.len(), 2);
    assert_eq!(aliases.get("a"), Some(&repo("1", "1")));
    assert_eq!(aliases.get("b"), None);
    assert_eq!(aliases.get("c"), Some(&repo("3", "3")));
    assert_eq!(aliases.entry(1).unwrap().key, "c");
}

#[test]
fn new_states_hold_nothing() {
    let state = BotState::new();
    assert!(state.snippets.is_empty());
    assert!(state.issue_prefixes.is_empty());
    let old = State::default();
    assert!(old.snippets.is_empty());
}

#[test]
fn a_container_keeps_state_and_path() {
    let state = State {
        snippets: vec![Snippet { id: "a".into(), title: "b".into(), content: "c".into() }],
    };
    let container = Container::at(state.clone(), "/data/state.json".into());
    assert_eq!(container.state(), &state);
    assert_eq!(container.state_path(), "/data/state.json");
}
