//! Replies to issue and pull-request references: the buttons attached to
//! such a reply and the session that handles them.

use vstd::prelude::*;
use vstd::string::StringExecFns;
use crate::embed::{button_views, Button, ButtonView};
use crate::text::{
    all_digits, begins_with, chars_of, decimal, decimal_string, has_prefix, lemma_concat_cancel,
    lemma_concat_has_prefix, lemma_decimal_round_trip, lemma_digits_then_rest, same_chars,
    strip_prefix_chars,
};

verus! {

/// What a button of an issue reply asks for.
#[derive(Clone, Copy, Debug, PartialEq, Eq, Structural)]
pub enum Kind {
    Delete,
    HideBody,
}

impl Kind {
    /// The text that follows the session id in this button's id.
    pub open spec fn suffix(self) -> Seq<char> {
        match self {
            Kind::Delete => seq!['d', 'e', 'l', 'e', 't', 'e'],
            Kind::HideBody => seq!['h', 'i', 'd', 'e', '_', 'b', 'o', 'd', 'y'],
        }
    }

    /// The id of this button in the session `ctx_id`.
    pub open spec fn id_in(self, ctx_id: Seq<char>) -> Seq<char> {
        ctx_id + self.suffix()
    }

    /// The button that `id` names in the session `ctx_id`, if any.
    pub open spec fn decode(id: Seq<char>, ctx_id: Seq<char>) -> Option<Kind> {
        if id == Kind::Delete.id_in(ctx_id) {
            Some(Kind::Delete)
        } else if id == Kind::HideBody.id_in(ctx_id) {
            Some(Kind::HideBody)
        } else {
            None
        }
    }

    /// Decodes a pressed button's id. An id that does not carry the session
    /// id as its prefix, or carries an unknown suffix, names no button.
    pub fn from_id(id: &str, ctx_id: &str) -> (kind: Option<Kind>)
        ensures
            kind == Kind::decode(id@, ctx_id@),
    {
        let id_chars = chars_of(id);
        let ctx_chars = chars_of(ctx_id);
        match strip_prefix_chars(&id_chars, &ctx_chars) {
            None => {
                proof {
                    lemma_concat_has_prefix(ctx_id@, Kind::Delete.suffix());
                    lemma_concat_has_prefix(ctx_id@, Kind::HideBody.suffix());
                }
                None
            },
            Some(rest) => {
                proof {
                    lemma_concat_cancel(ctx_id@, rest@, Kind::Delete.suffix());
                    lemma_concat_cancel(ctx_id@, rest@, Kind::HideBody.suffix());
                }
                let delete = vec!['d', 'e', 'l', 'e', 't', 'e'];
                let hide_body = vec!['h', 'i', 'd', 'e', '_', 'b', 'o', 'd', 'y'];
                if same_chars(&rest, &delete) {
                    Some(Kind::Delete)
                } else if same_chars(&rest, &hide_body) {
                    Some(Kind::HideBody)
                } else {
                    None
                }
            },
        }
    }
}

/// How long a reply waits for the next button press, in seconds.
pub const REPLY_TIMEOUT: u64 = 60;

/// Where the session of a reply stands.
#[derive(Clone, Copy, Debug, PartialEq, Eq, Structural)]
pub enum SessionState {
    /// The reply is up and its buttons are live.
    Active { body_hidden: bool },
    /// The reply was deleted on request.
    Completed,
    /// Nobody pressed a button in time.
    TimedOut,
}

/// What the caller does after handing an event to a [`ReplySession`].
#[derive(Clone, Copy, Debug, PartialEq, Eq, Structural)]
pub enum ReplyAction {
    /// Nothing.
    Ignore,
    /// Tell the actor, and nobody else, that they may not do this.
    Deny,
    /// Acknowledge the press and delete the reply.
    DeleteReply,
    /// Show the reply again with every description cleared and the delete
    /// button as its only control.
    HideBodies,
    /// Edit the reply to carry no controls.
    RemoveControls,
}

/// Whether `actor` may act on a reply to a message written by `author`: the
/// author may, and so may anyone who can manage messages in the channel.
pub open spec fn authorized(actor: u64, author: u64, can_manage_messages: bool) -> bool {
    actor == author || can_manage_messages
}

/// The state that follows `state` and the action to take when the button
/// `id` is pressed by `actor` on the reply of session `session`.
///
/// A press is looked at only while the session is active and only if the id
/// carries the session id. Then the actor must be authorized; an actor who
/// is not is denied and nothing changes. Of the authorized presses, delete
/// completes the session, the first hide-body hides the bodies, and all
/// others change nothing.
pub open spec fn after_press(
    state: SessionState,
    session: Seq<char>,
    author: u64,
    id: Seq<char>,
    actor: u64,
    can_manage_messages: bool,
) -> (SessionState, ReplyAction) {
    if !(state is Active) || !has_prefix(id, session) {
        (state, ReplyAction::Ignore)
    } else if !authorized(actor, author, can_manage_messages) {
        (state, ReplyAction::Deny)
    } else {
        match Kind::decode(id, session) {
            Some(Kind::Delete) => (SessionState::Completed, ReplyAction::DeleteReply),
            Some(Kind::HideBody) => {
                if state->body_hidden {
                    (state, ReplyAction::Ignore)
                } else {
                    (SessionState::Active { body_hidden: true }, ReplyAction::HideBodies)
                }
            },
            None => (state, ReplyAction::Ignore),
        }
    }
}

/// The state that follows `state` and the action to take when the wait for
/// a press times out.
pub open spec fn after_timeout(state: SessionState) -> (SessionState, ReplyAction) {
    if state is Active {
        (SessionState::TimedOut, ReplyAction::RemoveControls)
    } else {
        (state, ReplyAction::Ignore)
    }
}

/// The buttons under a reply in the given state: delete and hide-body while
/// the bodies show, delete alone once they are hidden, none after the end.
pub open spec fn controls_in(state: SessionState, session: Seq<char>) -> Seq<ButtonView> {
    let delete = ButtonView {
        id: Kind::Delete.id_in(session),
        label: Some("delete"@),
        emoji: None,
        danger: true,
    };
    let hide_body = ButtonView {
        id: Kind::HideBody.id_in(session),
        label: Some("hide body"@),
        emoji: None,
        danger: false,
    };
    match state {
        SessionState::Active { body_hidden: false } => seq![delete, hide_body],
        SessionState::Active { body_hidden: true } => seq![delete],
        _ => Seq::empty(),
    }
}

/// The interactive session of one reply to issue references.
pub struct ReplySession {
    ctx_id: String,
    author: u64,
    state: SessionState,
}

impl ReplySession {
    /// The session id that prefixes the ids of this reply's buttons.
    pub closed spec fn session(self) -> Seq<char> {
        self.ctx_id@
    }

    /// The author of the message that the reply answers.
    pub closed spec fn owner(self) -> u64 {
        self.author
    }

    /// Where the session stands.
    pub closed spec fn current(self) -> SessionState {
        self.state
    }

    /// Starts the session of a reply to message `message_id` written by
    /// `author`: active, with bodies shown. The session id is the decimal
    /// form of the message id.
    pub fn new(message_id: u64, author: u64) -> (session: ReplySession)
        ensures
            session.session() == decimal(message_id as nat),
            all_digits(session.session()),
            session.owner() == author,
            session.current() == (SessionState::Active { body_hidden: false }),
    {
        proof {
            lemma_decimal_round_trip(message_id as nat);
        }
        ReplySession {
            ctx_id: decimal_string(message_id),
            author,
            state: SessionState::Active { body_hidden: false },
        }
    }

    /// Where the session stands.
    pub fn state(&self) -> (state: SessionState)
        ensures
            state == self.current(),
    {
        self.state
    }

    /// Whether the session has ended, by deletion or by timeout.
    pub fn is_over(&self) -> (over: bool)
        ensures
            over == !(self.current() is Active),
    {
        match self.state {
            SessionState::Active { .. } => false,
            _ => true,
        }
    }

    /// The id of the button `kind` on this reply.
    pub fn button_id(&self, kind: Kind) -> (id: String)
        ensures
            id@ == kind.id_in(self.session()),
            has_prefix(id@, self.session()),
            Kind::decode(id@, self.session()) == Some(kind),
    {
        let mut id = self.ctx_id.clone();
        match kind {
            Kind::Delete => {
                proof {
                    reveal_strlit("delete");
                }
                id.append("delete");
            },
            Kind::HideBody => {
                proof {
                    reveal_strlit("hide_body");
                }
                id.append("hide_body");
            },
        }
        proof {
            assert(id@ =~= kind.id_in(self.session()));
            lemma_concat_has_prefix(self.session(), kind.suffix());
        }
        id
    }

    /// The buttons that the reply carries now: see [`controls_in`].
    pub fn controls(&self) -> (buttons: Vec<Button>)
        ensures
            button_views(buttons@) == controls_in(self.current(), self.session()),
    {
        let mut buttons: Vec<Button> = Vec::new();
        match self.state {
            SessionState::Active { body_hidden } => {
                buttons.push(
                    Button {
                        id: self.button_id(Kind::Delete),
                        label: Some("delete".to_owned()),
                        emoji: None,
                        danger: true,
                    },
                );
                if !body_hidden {
                    buttons.push(
                        Button {
                            id: self.button_id(Kind::HideBody),
                            label: Some("hide body".to_owned()),
                            emoji: None,
                            danger: false,
                        },
                    );
                }
            },
            _ => {},
        }
        buttons
    }

    /// Whether an event with this button id is let through to the session:
    /// the id carries the session id as its prefix.
    pub fn accepts(&self, custom_id: &str) -> (accepted: bool)
        ensures
            accepted == has_prefix(custom_id@, self.session()),
    {
        let id_chars = chars_of(custom_id);
        let ctx_chars = chars_of(self.ctx_id.as_str());
        begins_with(&id_chars, &ctx_chars)
    }

    /// Handles a pressed button: see [`after_press`].
    pub fn press(&mut self, custom_id: &str, actor: u64, can_manage_messages: bool) -> (action:
        ReplyAction)
        ensures
            final(self).session() == old(self).session(),
            final(self).owner() == old(self).owner(),
            (final(self).current(), action) == after_press(
                old(self).current(),
                old(self).session(),
                old(self).owner(),
                custom_id@,
                actor,
                can_manage_messages,
            ),
    {
        let hidden = match self.state {
            SessionState::Active { body_hidden } => body_hidden,
            _ => {
                return ReplyAction::Ignore;
            },
        };
        if !self.accepts(custom_id) {
            return ReplyAction::Ignore;
        }
        if !(actor == self.author || can_manage_messages) {
            return ReplyAction::Deny;
        }
        match Kind::from_id(custom_id, self.ctx_id.as_str()) {
            Some(Kind::Delete) => {
                self.state = SessionState::Completed;
                ReplyAction::DeleteReply
            },
            Some(Kind::HideBody) => {
                if hidden {
                    ReplyAction::Ignore
                } else {
                    self.state = SessionState::Active { body_hidden: true };
                    ReplyAction::HideBodies
                }
            },
            None => ReplyAction::Ignore,
        }
    }

    /// Ends the session after the wait for a press has timed out: see
    /// [`after_timeout`].
    pub fn time_out(&mut self) -> (action: ReplyAction)
        ensures
            final(self).session() == old(self).session(),
            final(self).owner() == old(self).owner(),
            (final(self).current(), action) == after_timeout(old(self).current()),
    {
        match self.state {
            SessionState::Active { .. } => {
                self.state = SessionState::TimedOut;
                ReplyAction::RemoveControls
            },
            _ => ReplyAction::Ignore,
        }
    }
}

/// Hiding the body is idempotent: a second press of hide-body leaves the
/// session exactly where the first one put it and asks for nothing.
pub proof fn lemma_hide_body_idempotent(
    state: SessionState,
    session: Seq<char>,
    author: u64,
    actor: u64,
    can_manage_messages: bool,
)
    ensures
        ({
            let id = Kind::HideBody.id_in(session);
            let once = after_press(state, session, author, id, actor, can_manage_messages).0;
            let twice = after_press(once, session, author, id, actor, can_manage_messages);
            &&& twice.0 == once
            &&& twice.1 != ReplyAction::HideBodies
            &&& twice.1 != ReplyAction::DeleteReply
        }),
{
}

/// An actor who is not authorized never changes the state of a session,
/// whatever they press: at most they are told so.
pub proof fn lemma_unauthorized_changes_nothing(
    state: SessionState,
    session: Seq<char>,
    author: u64,
    id: Seq<char>,
    actor: u64,
    can_manage_messages: bool,
)
    requires
        !authorized(actor, author, can_manage_messages),
    ensures
        after_press(state, session, author, id, actor, can_manage_messages).0 == state,
        after_press(state, session, author, id, actor, can_manage_messages).1
            == if state is Active && has_prefix(id, session) {
            ReplyAction::Deny
        } else {
            ReplyAction::Ignore
        },
{
}

/// Sessions do not answer each other's buttons: with session ids written
/// in digits, a button id of one session names a button in another session
/// only if the two sessions are the same, and then it names itself.
pub proof fn lemma_buttons_belong_to_one_session(kind: Kind, own: Seq<char>, other: Seq<char>)
    requires
        all_digits(own),
        all_digits(other),
    ensures
        Kind::decode(kind.id_in(own), own) == Some(kind),
        Kind::decode(kind.id_in(own), other) is Some ==> own == other,
{
    lemma_concat_cancel(own, Kind::Delete.suffix(), Kind::HideBody.suffix());
    if Kind::decode(kind.id_in(own), other) is Some {
        let named = Kind::decode(kind.id_in(own), other)->0;
        lemma_digits_then_rest(own, kind.suffix(), other, named.suffix());
    }
}

/// A session that has ended stays as it is: no press and no timeout moves it
/// or asks for anything.
pub proof fn lemma_ended_session_is_final(
    state: SessionState,
    session: Seq<char>,
    author: u64,
    id: Seq<char>,
    actor: u64,
    can_manage_messages: bool,
)
    requires
        !(state is Active),
    ensures
        after_press(state, session, author, id, actor, can_manage_messages) == (
            state,
            ReplyAction::Ignore,
        ),
        after_timeout(state) == (state, ReplyAction::Ignore),
{
}

} // verus!
