//! Snippets: finding, storing and removing them, and the confirmation asked
//! before one is removed.

use vstd::prelude::*;
use vstd::string::StringExecFns;
use crate::embed::{button_views, Button, ButtonView};
use crate::issues::authorized;
use crate::structures::{
    snippet_views, Aliases, BotState, RepositoryDetailsView, Snippet, SnippetView,
};
use crate::text::{
    all_digits, begins_with, chars_of, contains_text, decimal, decimal_string, has_prefix,
    lemma_concat_cancel, lemma_concat_has_prefix, lemma_decimal_round_trip, lemma_digits_then_rest,
    lowercase, occurs_in, same_chars, string_views, strip_prefix_chars, to_lowercase,
};

verus! {

/// Whether the snippet at `index` is the first whose listed name begins with
/// `id`.
pub open spec fn is_first_named(snippets: Seq<SnippetView>, id: Seq<char>, index: int) -> bool {
    &&& 0 <= index < snippets.len()
    &&& has_prefix(snippets[index].listed_name(), id)
    &&& forall|j: int| 0 <= j < index ==> !has_prefix((#[trigger] snippets[j]).listed_name(), id)
}

/// Whether the snippet at `index` is the first whose id is `id`.
pub open spec fn is_first_with_id(snippets: Seq<SnippetView>, id: Seq<char>, index: int) -> bool {
    &&& 0 <= index < snippets.len()
    &&& snippets[index].id == id
    &&& forall|j: int| 0 <= j < index ==> (#[trigger] snippets[j]).id != id
}

/// Whether no snippet has the id `id`.
pub open spec fn has_no_id(snippets: Seq<SnippetView>, id: Seq<char>) -> bool {
    forall|j: int| 0 <= j < snippets.len() ==> (#[trigger] snippets[j]).id != id
}

fn position_of_id(snippets: &Vec<Snippet>, id: &str) -> (found: Option<usize>)
    ensures
        match found {
            Some(i) => is_first_with_id(snippet_views(snippets@), id@, i as int),
            None => has_no_id(snippet_views(snippets@), id@),
        },
{
    let wanted = id.to_owned();
    let mut i: usize = 0;
    while i < snippets.len()
        invariant
            i <= snippets.len(),
            wanted@ == id@,
            forall|j: int| 0 <= j < i ==> (#[trigger] snippet_views(snippets@)[j]).id != id@,
        decreases snippets.len() - i,
    {
        if snippets[i].id == wanted {
            return Some(i);
        }
        i += 1;
    }
    None
}

impl BotState {
    /// The first snippet whose listed name begins with `id`, so that both
    /// the id alone and the full listed name find a snippet.
    pub fn get_snippet_lazy(&self, id: &str) -> (found: Option<Snippet>)
        ensures
            match found {
                Some(s) => exists|i: int|
                    is_first_named(snippet_views(self.snippets@), id@, i) && s@
                        == #[trigger] snippet_views(self.snippets@)[i],
                None => forall|i: int|
                    0 <= i < self.snippets.len() ==> !has_prefix(
                        (#[trigger] snippet_views(self.snippets@)[i]).listed_name(),
                        id@,
                    ),
            },
    {
        let wanted = chars_of(id);
        let mut i: usize = 0;
        while i < self.snippets.len()
            invariant
                i <= self.snippets.len(),
                wanted@ == id@,
                forall|j: int|
                    0 <= j < i ==> !has_prefix(
                        (#[trigger] snippet_views(self.snippets@)[j]).listed_name(),
                        id@,
                    ),
            decreases self.snippets.len() - i,
        {
            let name = self.snippets[i].format_output();
            let name_chars = chars_of(name.as_str());
            if begins_with(&name_chars, &wanted) {
                let found = self.snippets[i].duplicate();
                assert(is_first_named(snippet_views(self.snippets@), id@, i as int));
                return Some(found);
            }
            i += 1;
        }
        None
    }

    /// The first snippet whose listed name is exactly `name`.
    pub fn get_snippet(&self, name: &str) -> (found: Option<Snippet>)
        ensures
            match found {
                Some(s) => exists|i: int|
                    0 <= i < self.snippets.len() && s@ == #[trigger] snippet_views(
                        self.snippets@,
                    )[i] && s@.listed_name() == name@ && forall|j: int|
                        0 <= j < i ==> (#[trigger] snippet_views(self.snippets@)[j]).listed_name()
                            != name@,
                None => forall|i: int|
                    0 <= i < self.snippets.len() ==> (#[trigger] snippet_views(
                        self.snippets@,
                    )[i]).listed_name() != name@,
            },
    {
        let wanted = name.to_owned();
        let mut i: usize = 0;
        while i < self.snippets.len()
            invariant
                i <= self.snippets.len(),
                wanted@ == name@,
                forall|j: int|
                    0 <= j < i ==> (#[trigger] snippet_views(self.snippets@)[j]).listed_name()
                        != name@,
            decreases self.snippets.len() - i,
        {
            let listed = self.snippets[i].format_output();
            if listed == wanted {
                let found = self.snippets[i].duplicate();
                assert(snippet_views(self.snippets@)[i as int] == found@);
                return Some(found);
            }
            i += 1;
        }
        None
    }

    /// Stores a snippet in place of the first one with the same id, if there
    /// is one: the old one leaves and the new one is added at the end.
    pub fn put_snippet(&mut self, snippet: Snippet)
        ensures
            final(self).issue_prefixes == old(self).issue_prefixes,
            match old(self).snippet_position(snippet.id@) {
                Some(i) => snippet_views(final(self).snippets@) == snippet_views(
                    old(self).snippets@,
                ).remove(i).push(snippet@),
                None => snippet_views(final(self).snippets@) == snippet_views(
                    old(self).snippets@,
                ).push(snippet@),
            },
    {
        match position_of_id(&self.snippets, snippet.id.as_str()) {
            Some(i) => {
                let _ = self.snippets.remove(i);
            },
            None => {
            },
        }
        self.snippets.push(snippet);
    }

    /// Removes the first snippet with the id `id` and returns it, if there is
    /// one. All others stay, in their order.
    pub fn rm_snippet(&mut self, id: &str) -> (removed: Option<Snippet>)
        ensures
            final(self).issue_prefixes == old(self).issue_prefixes,
            match old(self).snippet_position(id@) {
                Some(i) => {
                    &&& removed matches Some(s)
                    &&& s@ == snippet_views(old(self).snippets@)[i]
                    &&& snippet_views(final(self).snippets@) == snippet_views(
                        old(self).snippets@,
                    ).remove(i)
                },
                None => removed is None && final(self).snippets@ == old(self).snippets@,
            },
    {
        match position_of_id(&self.snippets, id) {
            Some(i) => {
                let removed = self.snippets.remove(i);
                Some(removed)
            },
            None => {
                None
            },
        }
    }

    /// Where the first snippet with the id `id` stands, if there is one.
    pub open spec fn snippet_position(self, id: Seq<char>) -> Option<int> {
        first_with_id(snippet_views(self.snippets@), id)
    }
}

/// Where the first snippet with the id `id` stands, if there is one.
pub open spec fn first_with_id(snippets: Seq<SnippetView>, id: Seq<char>) -> Option<int> {
    if exists|i: int| is_first_with_id(snippets, id, i) {
        Some(choose|i: int| is_first_with_id(snippets, id, i))
    } else {
        None
    }
}

/// Whether a snippet is suggested for what a user has typed: its listed
/// name must hold the typed text, capitals and small letters counting as the
/// same.
pub open spec fn is_suggested(snippet: SnippetView, partial: Seq<char>) -> bool {
    occurs_in(lowercase(partial), lowercase(snippet.listed_name()))
}

/// The listed names of the snippets that are suggested for `partial`, in
/// the order of the snippets.
pub open spec fn suggestions(snippets: Seq<SnippetView>, partial: Seq<char>) -> Seq<Seq<char>>
    decreases snippets.len(),
{
    if snippets.len() == 0 {
        Seq::empty()
    } else {
        let before = suggestions(snippets.drop_last(), partial);
        if is_suggested(snippets.last(), partial) {
            before.push(snippets.last().listed_name())
        } else {
            before
        }
    }
}

/// The snippets to suggest for what a user has typed: see [`suggestions`].
pub fn autocomplete_snippet(snippets: &Vec<Snippet>, partial: &str) -> (names: Vec<String>)
    ensures
        string_views(names@) == suggestions(snippet_views(snippets@), partial@),
{
    let ghost all = snippet_views(snippets@);
    let wanted = to_lowercase(partial);
    let mut names: Vec<String> = Vec::new();
    let mut i: usize = 0;
    while i < snippets.len()
        invariant
            i <= snippets.len(),
            all == snippet_views(snippets@),
            wanted@ == lowercase(partial@),
            string_views(names@) == suggestions(all.take(i as int), partial@),
        decreases snippets.len() - i,
    {
        proof {
            let upto = all.take(i + 1);
            assert(upto.drop_last() == all.take(i as int));
        }
        let name = snippets[i].format_output();
        let lowered = to_lowercase(name.as_str());
        if contains_text(lowered.as_str(), wanted.as_str()) {
            names.push(name);
        }
        i += 1;
    }
    proof {
        assert(all.take(i as int) == all);
    }
    names
}

/// Number of aliases that are looked at for suggestions.
pub const SUGGESTION_WINDOW: usize = 25;

/// The keys among the first `window` aliases that begin with `partial`, in
/// the order of the listing.
pub open spec fn key_suggestions(
    listing: Seq<Seq<char>>,
    window: nat,
    partial: Seq<char>,
) -> Seq<Seq<char>>
    decreases listing.len(),
{
    if listing.len() == 0 {
        Seq::empty()
    } else {
        let before = key_suggestions(listing.drop_last(), window, partial);
        if listing.len() <= window && has_prefix(listing.last(), partial) {
            before.push(listing.last())
        } else {
            before
        }
    }
}

/// The keys of an alias store in the order of its listing.
pub open spec fn listed_keys(aliases: Aliases) -> Seq<Seq<char>> {
    aliases.listing().map_values(|entry: (Seq<char>, RepositoryDetailsView)| entry.0)
}

/// The alias keys to suggest for what a user has typed: see
/// [`key_suggestions`].
pub fn autocomplete_key(aliases: &Aliases, partial: &str) -> (keys: Vec<String>)
    ensures
        string_views(keys@) == key_suggestions(
            listed_keys(*aliases),
            SUGGESTION_WINDOW as nat,
            partial@,
        ),
{
    let ghost all = listed_keys(*aliases);
    let wanted = chars_of(partial);
    let mut keys: Vec<String> = Vec::new();
    let mut i: usize = 0;
    while i < aliases.len()
        invariant
            i <= aliases.listing().len(),
            all == listed_keys(*aliases),
            wanted@ == partial@,
            string_views(keys@) == key_suggestions(
                all.take(i as int),
                SUGGESTION_WINDOW as nat,
                partial@,
            ),
        decreases aliases.listing().len() - i,
    {
        proof {
            let upto = all.take(i + 1);
            assert(upto.drop_last() == all.take(i as int));
        }
        match aliases.entry(i) {
            Some(entry) => {
                let key_chars = chars_of(entry.key.as_str());
                if i < SUGGESTION_WINDOW && begins_with(&key_chars, &wanted) {
                    let key = entry.key.clone();
                    keys.push(key);
                }
            },
            None => {},
        }
        i += 1;
    }
    proof {
        assert(all.take(i as int) == all);
    }
    keys
}

/// How long a confirmation waits for an answer, in seconds.
pub const CONFIRM_TIMEOUT: u64 = 60;

/// What a button of a confirmation asks for.
#[derive(Clone, Copy, Debug, PartialEq, Eq, Structural)]
pub enum Choice {
    Confirm,
    Cancel,
}

impl Choice {
    /// The text that follows the session id in this button's id.
    pub open spec fn suffix(self) -> Seq<char> {
        match self {
            Choice::Confirm => seq!['d', 'e', 'l', 'e', 't', 'e'],
            Choice::Cancel => seq!['c', 'a', 'n', 'c', 'e', 'l'],
        }
    }

    /// The id of this button in the session `ctx_id`.
    pub open spec fn id_in(self, ctx_id: Seq<char>) -> Seq<char> {
        ctx_id + self.suffix()
    }

    /// The button that `id` names in the session `ctx_id`, if any.
    pub open spec fn decode(id: Seq<char>, ctx_id: Seq<char>) -> Option<Choice> {
        if id == Choice::Confirm.id_in(ctx_id) {
            Some(Choice::Confirm)
        } else if id == Choice::Cancel.id_in(ctx_id) {
            Some(Choice::Cancel)
        } else {
            None
        }
    }

    /// Decodes a pressed button's id. An id that does not carry the session
    /// id as its prefix, or carries an unknown suffix, names no button.
    pub fn from_id(id: &str, ctx_id: &str) -> (choice: Option<Choice>)
        ensures
            choice == Choice::decode(id@, ctx_id@),
    {
        let id_chars = chars_of(id);
        let ctx_chars = chars_of(ctx_id);
        match strip_prefix_chars(&id_chars, &ctx_chars) {
            None => {
                proof {
                    lemma_concat_has_prefix(ctx_id@, Choice::Confirm.suffix());
                    lemma_concat_has_prefix(ctx_id@, Choice::Cancel.suffix());
                }
                None
            },
            Some(rest) => {
                proof {
                    lemma_concat_cancel(ctx_id@, rest@, Choice::Confirm.suffix());
                    lemma_concat_cancel(ctx_id@, rest@, Choice::Cancel.suffix());
                }
                let confirm = vec!['d', 'e', 'l', 'e', 't', 'e'];
                let cancel = vec!['c', 'a', 'n', 'c', 'e', 'l'];
                if same_chars(&rest, &confirm) {
                    Some(Choice::Confirm)
                } else if same_chars(&rest, &cancel) {
                    Some(Choice::Cancel)
                } else {
                    None
                }
            },
        }
    }
}

/// Where a confirmation stands.
#[derive(Clone, Copy, Debug, PartialEq, Eq, Structural)]
pub enum ConfirmState {
    /// The question is up and its buttons are live.
    Pending,
    /// The question was answered, either way.
    Completed,
    /// Nobody answered in time.
    TimedOut,
}

/// What the caller does after handing an event to a [`Confirmation`].
#[derive(Clone, Copy, Debug, PartialEq, Eq, Structural)]
pub enum ConfirmAction {
    /// Nothing.
    Ignore,
    /// Tell the actor, and nobody else, that they may not do this.
    Deny,
    /// Carry out what was asked about, and replace the question by the
    /// word that it is done, without controls.
    Perform,
    /// Replace the question by the word that it was called off, without
    /// controls.
    Abort,
    /// Edit the question to carry no controls.
    RemoveControls,
}

/// The state that follows `state` and the action to take when the button
/// `id` is pressed by `actor` on the question of session `session`.
///
/// A press is looked at only while the question is pending and only if the
/// id carries the session id. Then the actor must be authorized; an actor
/// who is not is denied and nothing changes. Either answer of an authorized
/// actor completes the session; an unknown button changes nothing.
pub open spec fn after_choice(
    state: ConfirmState,
    session: Seq<char>,
    author: u64,
    id: Seq<char>,
    actor: u64,
    can_manage_messages: bool,
) -> (ConfirmState, ConfirmAction) {
    if state != ConfirmState::Pending || !has_prefix(id, session) {
        (state, ConfirmAction::Ignore)
    } else if !authorized(actor, author, can_manage_messages) {
        (state, ConfirmAction::Deny)
    } else {
        match Choice::decode(id, session) {
            Some(Choice::Confirm) => (ConfirmState::Completed, ConfirmAction::Perform),
            Some(Choice::Cancel) => (ConfirmState::Completed, ConfirmAction::Abort),
            None => (state, ConfirmAction::Ignore),
        }
    }
}

/// The state that follows `state` and the action to take when the wait for
/// an answer times out.
pub open spec fn after_silence(state: ConfirmState) -> (ConfirmState, ConfirmAction) {
    if state == ConfirmState::Pending {
        (ConfirmState::TimedOut, ConfirmAction::RemoveControls)
    } else {
        (state, ConfirmAction::Ignore)
    }
}

/// The buttons under a question in the given state: cancel and delete while
/// it is pending, none once it is settled.
pub open spec fn choices_in(state: ConfirmState, session: Seq<char>) -> Seq<ButtonView> {
    if state == ConfirmState::Pending {
        seq![
            ButtonView {
                id: Choice::Cancel.id_in(session),
                label: Some("Cancel"@),
                emoji: None,
                danger: false,
            },
            ButtonView {
                id: Choice::Confirm.id_in(session),
                label: Some("Delete"@),
                emoji: None,
                danger: true,
            },
        ]
    } else {
        Seq::empty()
    }
}

/// The interactive session of one question asked before something is
/// destroyed.
pub struct Confirmation {
    ctx_id: String,
    author: u64,
    state: ConfirmState,
}

impl Confirmation {
    /// The session id that prefixes the ids of the question's buttons.
    pub closed spec fn session(self) -> Seq<char> {
        self.ctx_id@
    }

    /// Who asked for the destruction.
    pub closed spec fn owner(self) -> u64 {
        self.author
    }

    /// Where the confirmation stands.
    pub closed spec fn current(self) -> ConfirmState {
        self.state
    }

    /// Starts the session of a question put to `author` in the invocation
    /// `ctx_id`, whose decimal form is the session id.
    pub fn new(ctx_id: u64, author: u64) -> (confirmation: Confirmation)
        ensures
            confirmation.session() == decimal(ctx_id as nat),
            all_digits(confirmation.session()),
            confirmation.owner() == author,
            confirmation.current() == ConfirmState::Pending,
    {
        proof {
            lemma_decimal_round_trip(ctx_id as nat);
        }
        Confirmation { ctx_id: decimal_string(ctx_id), author, state: ConfirmState::Pending }
    }

    /// Where the confirmation stands.
    pub fn state(&self) -> (state: ConfirmState)
        ensures
            state == self.current(),
    {
        self.state
    }

    /// The id of the button `choice` on the question.
    pub fn button_id(&self, choice: Choice) -> (id: String)
        ensures
            id@ == choice.id_in(self.session()),
            has_prefix(id@, self.session()),
            Choice::decode(id@, self.session()) == Some(choice),
    {
        let mut id = self.ctx_id.clone();
        match choice {
            Choice::Confirm => {
                proof {
                    reveal_strlit("delete");
                }
                id.append("delete");
            },
            Choice::Cancel => {
                proof {
                    reveal_strlit("cancel");
                }
                id.append("cancel");
            },
        }
        proof {
            assert(id@ =~= choice.id_in(self.session()));
            lemma_concat_has_prefix(self.session(), choice.suffix());
            lemma_concat_cancel(self.session(), Choice::Confirm.suffix(), Choice::Cancel.suffix());
        }
        id
    }

    /// The buttons that the question carries now: see [`choices_in`].
    pub fn controls(&self) -> (buttons: Vec<Button>)
        ensures
            button_views(buttons@) == choices_in(self.current(), self.session()),
    {
        let mut buttons: Vec<Button> = Vec::new();
        match self.state {
            ConfirmState::Pending => {
                buttons.push(
                    Button {
                        id: self.button_id(Choice::Cancel),
                        label: Some("Cancel".to_owned()),
                        emoji: None,
                        danger: false,
                    },
                );
                buttons.push(
                    Button {
                        id: self.button_id(Choice::Confirm),
                        label: Some("Delete".to_owned()),
                        emoji: None,
                        danger: true,
                    },
                );
            },
            _ => {},
        }
        buttons
    }

    /// Whether an event with this button id is let through to the session:
    /// the id carries the session id as its prefix.
    pub fn accepts(&self, custom_id: &str) -> (accepted: bool)
        ensures
            accepted == has_prefix(custom_id@, self.session()),
    {
        let id_chars = chars_of(custom_id);
        let ctx_chars = chars_of(self.ctx_id.as_str());
        begins_with(&id_chars, &ctx_chars)
    }

    /// Handles a pressed button: see [`after_choice`].
    pub fn press(&mut self, custom_id: &str, actor: u64, can_manage_messages: bool) -> (action:
        ConfirmAction)
        ensures
            final(self).session() == old(self).session(),
            final(self).owner() == old(self).owner(),
            (final(self).current(), action) == after_choice(
                old(self).current(),
                old(self).session(),
                old(self).owner(),
                custom_id@,
                actor,
                can_manage_messages,
            ),
    {
        match self.state {
            ConfirmState::Pending => {},
            _ => {
                return ConfirmAction::Ignore;
            },
        }
        if !self.accepts(custom_id) {
            return ConfirmAction::Ignore;
        }
        if !(actor == self.author || can_manage_messages) {
            return ConfirmAction::Deny;
        }
        match Choice::from_id(custom_id, self.ctx_id.as_str()) {
            Some(Choice::Confirm) => {
                self.state = ConfirmState::Completed;
                ConfirmAction::Perform
            },
            Some(Choice::Cancel) => {
                self.state = ConfirmState::Completed;
                ConfirmAction::Abort
            },
            None => ConfirmAction::Ignore,
        }
    }

    /// Ends the session after the wait for an answer has timed out: see
    /// [`after_silence`].
    pub fn time_out(&mut self) -> (action: ConfirmAction)
        ensures
            final(self).session() == old(self).session(),
            final(self).owner() == old(self).owner(),
            (final(self).current(), action) == after_silence(old(self).current()),
    {
        match self.state {
            ConfirmState::Pending => {
                self.state = ConfirmState::TimedOut;
                ConfirmAction::RemoveControls
            },
            _ => ConfirmAction::Ignore,
        }
    }
}

/// Questions do not answer each other's buttons: with session ids written
/// in digits, a button id of one question names a button of another
/// question only if the two are the same, and then it names itself.
pub proof fn lemma_choices_belong_to_one_question(choice: Choice, own: Seq<char>, other: Seq<char>)
    requires
        all_digits(own),
        all_digits(other),
    ensures
        Choice::decode(choice.id_in(own), own) == Some(choice),
        Choice::decode(choice.id_in(own), other) is Some ==> own == other,
{
    lemma_concat_cancel(own, Choice::Confirm.suffix(), Choice::Cancel.suffix());
    if Choice::decode(choice.id_in(own), other) is Some {
        let named = Choice::decode(choice.id_in(own), other)->0;
        lemma_digits_then_rest(own, choice.suffix(), other, named.suffix());
    }
}

/// An actor who is not authorized never confirms or calls off anything:
/// the session stays where it was, and at most they are told so.
pub proof fn lemma_unauthorized_confirms_nothing(
    state: ConfirmState,
    session: Seq<char>,
    author: u64,
    id: Seq<char>,
    actor: u64,
    can_manage_messages: bool,
)
    requires
        !authorized(actor, author, can_manage_messages),
    ensures
        after_choice(state, session, author, id, actor, can_manage_messages).0 == state,
        after_choice(state, session, author, id, actor, can_manage_messages).1
            == if state == ConfirmState::Pending && has_prefix(id, session) {
            ConfirmAction::Deny
        } else {
            ConfirmAction::Ignore
        },
{
}

/// A question is answered once: after an answer or a timeout, nothing moves
/// the session or asks for anything.
pub proof fn lemma_answered_once(
    state: ConfirmState,
    session: Seq<char>,
    author: u64,
    id: Seq<char>,
    actor: u64,
    can_manage_messages: bool,
)
    requires
        state != ConfirmState::Pending,
    ensures
        after_choice(state, session, author, id, actor, can_manage_messages) == (
            state,
            ConfirmAction::Ignore,
        ),
        after_silence(state) == (state, ConfirmAction::Ignore),
{
}

} // verus!
