use tabletbot::embed::{hide_bodies, interaction_error, Embed, ERROR_COLOUR, MISSING_PERMISSION};
use tabletbot::issues::{Kind, ReplyAction, ReplySession, SessionState};

const AUTHOR: u64 = 10;
const STRANGER: u64 = 11;

#[test]
fn delete_and_hide_body_are_decoded_under_the_session_id() {
    assert_eq!(Kind::from_id("42delete", "42"), Some(Kind::Delete));
    assert_eq!(Kind::from_id("42hide_body", "42"), Some(Kind::HideBody));
    assert_eq!(Kind::from_id("42remove", "42"), None);
    assert_eq!(Kind::from_id("42", "42"), None);
    assert_eq!(Kind::from_id("43delete", "42"), None);
    assert_eq!(Kind::from_id("delete42", "42"), None);
    assert_eq!(Kind::from_id("421delete", "42"), None);
}

#[test]
fn a_session_starts_active_with_bodies_shown() {
    let session = ReplySession::new(42, AUTHOR);
    assert_eq!(session.state(), SessionState::Active { body_hidden: false });
    assert!(!session.is_over());
    assert_eq!(session.button_id(Kind::Delete), "42delete");
    assert_eq!(session.button_id(Kind::HideBody), "42hide_body");
    let buttons = session.controls();
    assert_eq!(buttons.len(), 2);
    assert_eq!(buttons[0].id, "42delete");
    assert_eq!(buttons[0].label, Some("delete".to_string()));
    assert!(buttons[0].danger);
    assert_eq!(buttons[1].id, "42hide_body");
    assert_eq!(buttons[1].label, Some("hide body".to_string()));
    assert!(!buttons[1].danger);
}

#[test]
fn the_author_may_delete() {
    let mut session = ReplySession::new(42, AUTHOR);
    assert_eq!(session.press("42delete", AUTHOR, false), ReplyAction::DeleteReply);
    assert_eq!(session.state(), SessionState::Completed);
    assert!(session.is_over());
    assert!(session.controls().is_empty());
}

#[test]
fn a_moderator_may_delete() {
    let mut session = ReplySession::new(42, AUTHOR);
    assert_eq!(session.press("42delete", STRANGER, true), ReplyAction::DeleteReply);
    assert_eq!(session.state(), SessionState::Completed);
}

#[test]
fn nothing_is_processed_after_deletion() {
    let mut session = ReplySession::new(42, AUTHOR);
    session.press("42delete", AUTHOR, false);
    assert_eq!(session.press("42hide_body", AUTHOR, false), ReplyAction::Ignore);
    assert_eq!(session.press("42delete", AUTHOR, false), ReplyAction::Ignore);
    assert_eq!(session.press("42delete", STRANGER, false), ReplyAction::Ignore);
    assert_eq!(session.time_out(), ReplyAction::Ignore);
    assert_eq!(session.state(), SessionState::Completed);
}

#[test]
fn hide_body_is_idempotent() {
    let mut session = ReplySession::new(42, AUTHOR);
    assert_eq!(session.press("42hide_body", AUTHOR, false), ReplyAction::HideBodies);
    let once = session.state();
    assert_eq!(once, SessionState::Active { body_hidden: true });
    assert_eq!(session.press("42hide_body", AUTHOR, false), ReplyAction::Ignore);
    assert_eq!(session.state(), once);
    let buttons = session.controls();
    assert_eq!(buttons.len(), 1);
    assert_eq!(buttons[0].id, "42delete");
}

#[test]
fn delete_still_works_after_hide_body() {
    let mut session = ReplySession::new(42, AUTHOR);
    session.press("42hide_body", AUTHOR, false);
    assert_eq!(session.press("42delete", AUTHOR, false), ReplyAction::DeleteReply);
}

#[test]
fn unauthorized_actors_change_nothing() {
    let mut session = ReplySession::new(42, AUTHOR);
    assert_eq!(session.press("42delete", STRANGER, false), ReplyAction::Deny);
    assert_eq!(session.state(), SessionState::Active { body_hidden: false });
    assert_eq!(session.press("42hide_body", STRANGER, false), ReplyAction::Deny);
    assert_eq!(session.state(), SessionState::Active { body_hidden: false });
    assert_eq!(session.press("42whatever", STRANGER, false), ReplyAction::Deny);
    assert_eq!(session.state(), SessionState::Active { body_hidden: false });
    assert_eq!(session.controls().len(), 2);
}

#[test]
fn unknown_buttons_of_the_session_are_ignored() {
    let mut session = ReplySession::new(42, AUTHOR);
    assert_eq!(session.press("42next", AUTHOR, false), ReplyAction::Ignore);
    assert_eq!(session.press("42", AUTHOR, true), ReplyAction::Ignore);
    assert_eq!(session.state(), SessionState::Active { body_hidden: false });
}

#[test]
fn buttons_of_other_sessions_are_not_let_through() {
    let mut session = ReplySession::new(42, AUTHOR);
    assert!(session.accepts("42delete"));
    assert!(session.accepts("420delete"));
    assert!(!session.accepts("43delete"));
    assert!(!session.accepts("4"));
    assert_eq!(session.press("43delete", AUTHOR, false), ReplyAction::Ignore);
    assert_eq!(session.press("43delete", STRANGER, false), ReplyAction::Ignore);
    assert_eq!(session.press("420delete", AUTHOR, false), ReplyAction::Ignore);
    assert_eq!(session.state(), SessionState::Active { body_hidden: false });
}

#[test]
fn timeout_strips_the_controls() {
    let mut session = ReplySession::new(42, AUTHOR);
    assert_eq!(session.time_out(), ReplyAction::RemoveControls);
    assert_eq!(session.state(), SessionState::TimedOut);
    assert!(session.is_over());
    assert!(session.controls().is_empty());
    assert_eq!(session.press("42delete", AUTHOR, false), ReplyAction::Ignore);
    assert_eq!(session.time_out(), ReplyAction::Ignore);
    assert_eq!(session.state(), SessionState::TimedOut);
}

#[test]
fn hiding_bodies_clears_descriptions_and_nothing_else() {
    let mut first = Embed::new();
    first.title = Some("one".into());
    first.description = Some("body".into());
    first.colour = Some(7);
    let mut second = Embed::new();
    second.title = Some("two".into());
    let hidden = hide_bodies(vec![first.clone(), second.clone()]);
    let mut expected = first.clone();
    expected.description = None;
    assert_eq!(hidden, vec![expected, second]);
    assert_eq!(hide_bodies(hidden.clone()), hidden);
    assert!(hide_bodies(Vec::new()).is_empty());
}

#[test]
fn refusals_are_titled_error_notices() {
    let embed = interaction_error(MISSING_PERMISSION);
    assert_eq!(embed.title, Some("Unable to execute interaction".to_string()));
    assert_eq!(
        embed.description,
        Some("Unable to use interaction because you are missing `MANAGE_MESSAGES`.".to_string())
    );
    assert_eq!(embed.colour, Some(ERROR_COLOUR));
    assert_eq!(ERROR_COLOUR, 0xe74c3c);
}
