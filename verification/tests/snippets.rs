use tabletbot::snippets::{
    autocomplete_key, autocomplete_snippet, Choice, ConfirmAction, ConfirmState, Confirmation,
};
use tabletbot::structures::{Aliases, BotState, RepositoryDetails, Snippet};

fn snippet(id: &str, title: &str) -> Snippet {
    Snippet { id: id.into(), title: title.into(), content: format!("content of {}", id) }
}

fn state() -> BotState {
    let mut state = BotState::new();
    state.snippets = vec![snippet("udev", "Udev rules"), snippet("ud", "Short"), snippet("x", "y")];
    state
}

#[test]
fn a_snippet_is_found_by_the_start_of_its_listed_name() {
    let state = state();
    assert_eq!(state.get_snippet_lazy("udev"), Some(snippet("udev", "Udev rules")));
    assert_eq!(state.get_snippet_lazy("udev: Udev rules"), Some(snippet("udev", "Udev rules")));
    assert_eq!(state.get_snippet_lazy("ud"), Some(snippet("udev", "Udev rules")));
    assert_eq!(state.get_snippet_lazy("ud:"), Some(snippet("ud", "Short")));
    assert_eq!(state.get_snippet_lazy("x: y"), Some(snippet("x", "y")));
    assert_eq!(state.get_snippet_lazy(""), Some(snippet("udev", "Udev rules")));
    assert_eq!(state.get_snippet_lazy("x: yz"), None);
    assert_eq!(state.get_snippet_lazy("nope"), None);
    assert_eq!(BotState::new().get_snippet_lazy(""), None);
}

#[test]
fn a_snippet_is_found_by_its_exact_listed_name() {
    let state = state();
    assert_eq!(state.get_snippet("ud: Short"), Some(snippet("ud", "Short")));
    assert_eq!(state.get_snippet("ud"), None);
    assert_eq!(state.get_snippet("udev: Udev rule"), None);
    assert_eq!(state.get_snippet(""), None);
}

#[test]
fn storing_a_snippet_replaces_the_one_with_its_id() {
    let mut state = state();
    state.put_snippet(snippet("ud", "New"));
    assert_eq!(
        state.snippets,
        vec![snippet("udev", "Udev rules"), snippet("x", "y"), snippet("ud", "New")]
    );
    state.put_snippet(snippet("fresh", "Fresh"));
    assert_eq!(state.snippets.len(), 4);
    assert_eq!(state.snippets[3], snippet("fresh", "Fresh"));
}

#[test]
fn removing_a_snippet_goes_by_its_id() {
    let mut state = state();
    assert_eq!(state.rm_snippet("ud"), Some(snippet("ud", "Short")));
    assert_eq!(state.snippets, vec![snippet("udev", "Udev rules"), snippet("x", "y")]);
    assert_eq!(state.rm_snippet("ud"), None);
    assert_eq!(state.rm_snippet("u"), None);
    assert_eq!(state.snippets.len(), 2);
    state.snippets.push(snippet("x", "second"));
    assert_eq!(state.rm_snippet("x"), Some(snippet("x", "y")));
    assert_eq!(state.snippets, vec![snippet("udev", "Udev rules"), snippet("x", "second")]);
}

#[test]
fn confirm_and_cancel_are_decoded_under_the_session_id() {
    assert_eq!(Choice::from_id("9delete", "9"), Some(Choice::Confirm));
    assert_eq!(Choice::from_id("9cancel", "9"), Some(Choice::Cancel));
    assert_eq!(Choice::from_id("9confirm", "9"), None);
    assert_eq!(Choice::from_id("8delete", "9"), None);
    assert_eq!(Choice::from_id("9", "9"), None);
}

#[test]
fn confirming_completes_the_session() {
    let mut question = Confirmation::new(9, 1);
    assert_eq!(question.state(), ConfirmState::Pending);
    assert_eq!(question.button_id(Choice::Confirm), "9delete");
    assert_eq!(question.button_id(Choice::Cancel), "9cancel");
    assert_eq!(question.press("9delete", 1, false), ConfirmAction::Perform);
    assert_eq!(question.state(), ConfirmState::Completed);
    assert_eq!(question.press("9delete", 1, false), ConfirmAction::Ignore);
    assert_eq!(question.press("9cancel", 1, false), ConfirmAction::Ignore);
    assert_eq!(question.time_out(), ConfirmAction::Ignore);
    assert_eq!(question.state(), ConfirmState::Completed);
}

#[test]
fn a_pending_question_offers_cancel_and_delete() {
    let mut question = Confirmation::new(9, 1);
    let buttons = question.controls();
    assert_eq!(buttons.len(), 2);
    assert_eq!(buttons[0].id, "9cancel");
    assert_eq!(buttons[0].label, Some("Cancel".to_string()));
    assert!(!buttons[0].danger);
    assert_eq!(buttons[1].id, "9delete");
    assert_eq!(buttons[1].label, Some("Delete".to_string()));
    assert!(buttons[1].danger);
    question.press("9cancel", 1, false);
    assert!(question.controls().is_empty());
    let mut silent = Confirmation::new(9, 1);
    silent.time_out();
    assert!(silent.controls().is_empty());
}

#[test]
fn waits_are_bounded() {
    assert_eq!(tabletbot::snippets::CONFIRM_TIMEOUT, 60);
    assert_eq!(tabletbot::issues::REPLY_TIMEOUT, 60);
    assert_eq!(tabletbot::pagination::PAGER_TIMEOUT, 180);
    assert_eq!(tabletbot::diagnostics::FIRST_MESSAGE_TIMEOUT, 10);
}

#[test]
fn cancelling_completes_the_session() {
    let mut question = Confirmation::new(9, 1);
    assert_eq!(question.press("9cancel", 1, false), ConfirmAction::Abort);
    assert_eq!(question.state(), ConfirmState::Completed);
    assert_eq!(question.press("9delete", 1, false), ConfirmAction::Ignore);
}

#[test]
fn only_authorized_actors_answer_a_question() {
    let mut question = Confirmation::new(9, 1);
    assert_eq!(question.press("9delete", 2, false), ConfirmAction::Deny);
    assert_eq!(question.press("9cancel", 2, false), ConfirmAction::Deny);
    assert_eq!(question.state(), ConfirmState::Pending);
    assert_eq!(question.press("9delete", 2, true), ConfirmAction::Perform);
    assert_eq!(question.state(), ConfirmState::Completed);
}

#[test]
fn other_buttons_do_not_answer_a_question() {
    let mut question = Confirmation::new(9, 1);
    assert!(question.accepts("9delete"));
    assert!(!question.accepts("8delete"));
    assert_eq!(question.press("9hide_body", 1, false), ConfirmAction::Ignore);
    assert_eq!(question.press("8delete", 1, false), ConfirmAction::Ignore);
    assert_eq!(question.press("8delete", 2, false), ConfirmAction::Ignore);
    assert_eq!(question.press("90delete", 1, false), ConfirmAction::Ignore);
    assert_eq!(question.state(), ConfirmState::Pending);
}

#[test]
fn an_unanswered_question_loses_its_controls() {
    let mut question = Confirmation::new(9, 1);
    assert_eq!(question.time_out(), ConfirmAction::RemoveControls);
    assert_eq!(question.state(), ConfirmState::TimedOut);
    assert_eq!(question.press("9delete", 1, false), ConfirmAction::Ignore);
    assert_eq!(question.time_out(), ConfirmAction::Ignore);
}

#[test]
fn snippets_are_suggested_by_what_their_listed_name_holds() {
    let state = state();
    assert_eq!(
        autocomplete_snippet(&state.snippets, "UD"),
        vec!["udev: Udev rules".to_string(), "ud: Short".to_string()]
    );
    assert_eq!(autocomplete_snippet(&state.snippets, "rules"), vec!["udev: Udev rules".to_string()]);
    assert_eq!(autocomplete_snippet(&state.snippets, ": "), vec![
        "udev: Udev rules".to_string(),
        "ud: Short".to_string(),
        "x: y".to_string()
    ]);
    assert_eq!(autocomplete_snippet(&state.snippets, "").len(), 3);
    assert!(autocomplete_snippet(&state.snippets, "nothing").is_empty());
    assert!(autocomplete_snippet(&Vec::new(), "").is_empty());
}

#[test]
fn keys_are_suggested_by_how_they_begin() {
    let mut aliases = Aliases::new();
    for n in 0..30 {
        aliases.insert(
            format!("key{}", n),
            RepositoryDetails { owner: "o".into(), name: "n".into() },
        );
    }
    assert_eq!(
        autocomplete_key(&aliases, "key2"),
        vec![
            "key2".to_string(),
            "key20".to_string(),
            "key21".to_string(),
            "key22".to_string(),
            "key23".to_string(),
            "key24".to_string()
        ]
    );
    assert_eq!(autocomplete_key(&aliases, "").len(), 25);
    assert!(autocomplete_key(&aliases, "key29").is_empty());
    assert!(autocomplete_key(&aliases, "Key").is_empty());
    assert!(autocomplete_key(&Aliases::new(), "").is_empty());
}
