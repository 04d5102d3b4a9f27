//! The bot's stored data: snippets and repository aliases.

use vstd::prelude::*;
use vstd::string::StringExecFns;
use crate::document::Embeddable;
use crate::embed::{Embed, EmbedView, ACCENT_COLOUR};

verus! {

/// A short text that users can call up by its id.
#[derive(Clone, Debug, PartialEq, Eq)]
pub struct Snippet {
    pub id: String,
    pub title: String,
    pub content: String,
}

pub struct SnippetView {
    pub id: Seq<char>,
    pub title: Seq<char>,
    pub content: Seq<char>,
}

impl View for Snippet {
    type V = SnippetView;

    open spec fn view(&self) -> SnippetView {
        SnippetView { id: self.id@, title: self.title@, content: self.content@ }
    }
}

impl SnippetView {
    /// The name under which a snippet is listed: its id, a colon and its
    /// title.
    pub open spec fn listed_name(self) -> Seq<char> {
        self.id + ": "@ + self.title
    }
}

impl Snippet {
    /// The name under which the snippet is listed.
    pub fn format_output(&self) -> (name: String)
        ensures
            name@ == self@.listed_name(),
    {
        let mut name = self.id.clone();
        name.append(": ");
        name.append(self.title.as_str());
        name
    }

    /// A copy of the snippet.
    pub fn duplicate(&self) -> (copy: Snippet)
        ensures
            copy@ == self@,
    {
        Snippet { id: self.id.clone(), title: self.title.clone(), content: self.content.clone() }
    }
}

impl Embeddable for Snippet {
    open spec fn embedded(&self) -> EmbedView {
        EmbedView {
            title: Some(self.title@),
            description: Some(self.content@),
            colour: Some(ACCENT_COLOUR),
            ..EmbedView::empty()
        }
    }

    fn embed(&self) -> (embed: Embed) {
        let mut embed = Embed::new();
        embed.title = Some(self.title.clone());
        embed.description = Some(self.content.clone());
        embed.colour = Some(ACCENT_COLOUR);
        embed
    }
}

/// The views of a list of snippets.
pub open spec fn snippet_views(snippets: Seq<Snippet>) -> Seq<SnippetView> {
    snippets.map_values(|s: Snippet| s@)
}

/// A repository on the issue tracker.
#[derive(Clone, Debug, PartialEq, Eq)]
pub struct RepositoryDetails {
    pub owner: String,
    pub name: String,
}

pub struct RepositoryDetailsView {
    pub owner: Seq<char>,
    pub name: Seq<char>,
}

impl View for RepositoryDetails {
    type V = RepositoryDetailsView;

    open spec fn view(&self) -> RepositoryDetailsView {
        RepositoryDetailsView { owner: self.owner@, name: self.name@ }
    }
}

impl RepositoryDetails {
    /// Owner and name, in this order.
    pub fn get(&self) -> (parts: (&String, &String))
        ensures
            parts.0 == self.owner,
            parts.1 == self.name,
    {
        (&self.owner, &self.name)
    }

    /// A copy of the details.
    pub fn duplicate(&self) -> (copy: RepositoryDetails)
        ensures
            copy@ == self@,
    {
        RepositoryDetails { owner: self.owner.clone(), name: self.name.clone() }
    }
}

/// One alias: a key and the repository it stands for.
#[derive(Clone, Debug, PartialEq, Eq)]
pub struct AliasEntry {
    pub key: String,
    pub details: RepositoryDetails,
}

/// Short names for repositories. A key stands for at most one repository.
pub struct Aliases {
    entries: Vec<AliasEntry>,
}

impl Aliases {
    #[verifier::type_invariant]
    spec fn inv(self) -> bool {
        self.is_valid()
    }

    /// No key occurs twice.
    pub closed spec fn is_valid(self) -> bool {
        forall|i: int, j: int|
            0 <= i < j < self.entries.len() ==> (#[trigger] self.entries[i]).key@
                != (#[trigger] self.entries[j]).key@
    }

    /// The aliases in the order in which they are listed.
    pub closed spec fn listing(self) -> Seq<(Seq<char>, RepositoryDetailsView)> {
        self.entries@.map_values(|e: AliasEntry| (e.key@, e.details@))
    }

    /// The position of `key` in the listing, if it is there.
    pub open spec fn position_of(self, key: Seq<char>) -> Option<int> {
        if exists|i: int| 0 <= i < self.listing().len() && self.listing()[i].0 == key {
            Some(choose|i: int| 0 <= i < self.listing().len() && self.listing()[i].0 == key)
        } else {
            None
        }
    }

    /// The repository that `key` stands for, if any.
    pub open spec fn lookup(self, key: Seq<char>) -> Option<RepositoryDetailsView> {
        match self.position_of(key) {
            Some(i) => Some(self.listing()[i].1),
            None => None,
        }
    }

    /// A store without aliases.
    pub fn new() -> (aliases: Aliases)
        ensures
            aliases.is_valid(),
            aliases.listing().len() == 0,
            forall|key: Seq<char>| aliases.lookup(key) is None,
    {
        Aliases { entries: Vec::new() }
    }

    /// Number of aliases.
    pub fn len(&self) -> (count: usize)
        ensures
            count == self.listing().len(),
    {
        self.entries.len()
    }

    /// Whether there is no alias.
    pub fn is_empty(&self) -> (empty: bool)
        ensures
            empty == (self.listing().len() == 0),
    {
        self.entries.len() == 0
    }

    /// The alias at position `index` of the listing.
    pub fn entry(&self, index: usize) -> (entry: Option<&AliasEntry>)
        ensures
            entry is Some <==> index < self.listing().len(),
            entry matches Some(e) ==> (e.key@, e.details@) == self.listing()[index as int],
    {
        if index < self.entries.len() {
            Some(&self.entries[index])
        } else {
            None
        }
    }

    fn find(&self, key: &str) -> (found: Option<usize>)
        ensures
            match found {
                Some(i) => self.position_of(key@) == Some(i as int) && i < self.entries.len()
                    && self.entries[i as int].key@ == key@,
                None => self.position_of(key@) is None && forall|i: int|
                    0 <= i < self.entries.len() ==> (#[trigger] self.entries[i]).key@ != key@,
            },
    {
        proof {
            use_type_invariant(self);
        }
        let wanted = key.to_owned();
        let mut i: usize = 0;
        while i < self.entries.len()
            invariant
                i <= self.entries.len(),
                self.is_valid(),
                wanted@ == key@,
                forall|k: int| 0 <= k < i ==> (#[trigger] self.entries[k]).key@ != key@,
            decreases self.entries.len() - i,
        {
            if self.entries[i].key == wanted {
                proof {
                    assert(self.listing()[i as int].0 == key@);
                }
                return Some(i);
            }
            i += 1;
        }
        None
    }

    /// The repository that `key` stands for, if any. Keys are compared as
    /// they are.
    pub fn get(&self, key: &str) -> (details: Option<&RepositoryDetails>)
        ensures
            match details {
                Some(d) => self.lookup(key@) == Some(d@),
                None => self.lookup(key@) is None,
            },
    {
        match self.find(key) {
            Some(i) => Some(&self.entries[i].details),
            None => None,
        }
    }

    fn take_entries(&mut self) -> (entries: Vec<AliasEntry>)
        ensures
            entries@ == old(self).entries@,
            final(self).entries@.len() == 0,
    {
        let mut taken = Aliases { entries: Vec::new() };
        core::mem::swap(self, &mut taken);
        let Aliases { entries } = taken;
        entries
    }

    /// Makes `key` stand for `details`. A key that is listed keeps its place
    /// and gets the new repository; a new key is listed last. Every other
    /// alias stays as it is.
    pub fn insert(&mut self, key: String, details: RepositoryDetails)
        ensures
            final(self).is_valid(),
            final(self).listing() == match old(self).position_of(key@) {
                Some(i) => old(self).listing().update(i, (key@, details@)),
                None => old(self).listing().push((key@, details@)),
            },
            final(self).lookup(key@) == Some(details@),
            forall|other: Seq<char>|
                other != key@ ==> final(self).lookup(other) == old(self).lookup(other),
    {
        proof {
            use_type_invariant(&*self);
        }
        let ghost before = *self;
        let found = self.find(key.as_str());
        let mut entries = self.take_entries();
        match found {
            Some(i) => {
                entries[i].details = details;
                *self = Aliases { entries };
                proof {
                    assert(self.listing() =~= before.listing().update(i as int, (key@, details@)));
                    lemma_position_is_unique(*self, key@, i as int);
                    assert forall|other: Seq<char>| other != key@ implies self.lookup(other)
                        == before.lookup(other) by {
                        if before.position_of(other) is Some {
                            let p = before.position_of(other)->0;
                            lemma_position_is_unique(*self, other, p);
                        }
                    }
                }
            },
            None => {
                entries.push(AliasEntry { key, details });
                *self = Aliases { entries };
                proof {
                    let last = self.listing().len() - 1;
                    assert(self.listing() =~= before.listing().push((key@, details@)));
                    lemma_position_is_unique(*self, key@, last);
                    assert forall|other: Seq<char>| other != key@ implies self.lookup(other)
                        == before.lookup(other) by {
                        if before.position_of(other) is Some {
                            let p = before.position_of(other)->0;
                            lemma_position_is_unique(*self, other, p);
                        }
                    }
                }
            },
        }
    }

    /// Removes the alias `key`, if it is there, and returns what it stood
    /// for. Every other alias stays as it is, in its order.
    pub fn remove(&mut self, key: &str) -> (removed: Option<RepositoryDetails>)
        ensures
            final(self).is_valid(),
            match removed {
                Some(d) => old(self).lookup(key@) == Some(d@),
                None => old(self).lookup(key@) is None,
            },
            final(self).listing() == match old(self).position_of(key@) {
                Some(i) => old(self).listing().remove(i),
                None => old(self).listing(),
            },
            final(self).lookup(key@) is None,
            forall|other: Seq<char>|
                other != key@ ==> final(self).lookup(other) == old(self).lookup(other),
    {
        proof {
            use_type_invariant(&*self);
        }
        let ghost before = *self;
        match self.find(key) {
            Some(i) => {
                let mut entries = self.take_entries();
                let entry = entries.remove(i);
                *self = Aliases { entries };
                proof {
                    assert(self.listing() =~= before.listing().remove(i as int));
                    assert forall|other: Seq<char>| other != key@ implies self.lookup(other)
                        == before.lookup(other) by {
                        if before.position_of(other) is Some {
                            let p = before.position_of(other)->0;
                            let q = if p < i { p } else { p - 1 };
                            lemma_position_is_unique(*self, other, q);
                        }
                    }
                }
                Some(entry.details)
            },
            None => None,
        }
    }
}

/// In a valid store no key is listed twice, so a key is found at one
/// position only.
pub proof fn lemma_position_is_unique(aliases: Aliases, key: Seq<char>, at: int)
    requires
        aliases.is_valid(),
        0 <= at < aliases.listing().len(),
        aliases.listing()[at].0 == key,
    ensures
        aliases.position_of(key) == Some(at),
        forall|other: int|
            0 <= other < aliases.listing().len() && other != at ==> (
            #[trigger] aliases.listing()[other]).0 != key,
{
}

/// Everything the bot keeps between restarts.
pub struct BotState {
    pub snippets: Vec<Snippet>,
    pub issue_prefixes: Aliases,
}

impl BotState {
    /// A state without snippets and aliases.
    pub fn new() -> (state: BotState)
        ensures
            state.snippets@.len() == 0,
            state.issue_prefixes.listing().len() == 0,
    {
        BotState { snippets: Vec::new(), issue_prefixes: Aliases::new() }
    }
}

/// The snippets alone, as earlier versions of the bot stored them.
#[derive(Clone, Debug, PartialEq, Eq)]
pub struct State {
    pub snippets: Vec<Snippet>,
}

impl Default for State {
    fn default() -> (state: State)
        ensures
            state.snippets@.len() == 0,
    {
        State { snippets: Vec::new() }
    }
}

/// A state together with the place where it is stored.
pub struct Container {
    state: State,
    state_path: String,
}

impl Container {
    /// The state held.
    pub closed spec fn held(self) -> State {
        self.state
    }

    /// Where the state is stored.
    pub closed spec fn path(self) -> Seq<char> {
        self.state_path@
    }

    /// A container for `state`, to be stored at `state_path`.
    pub fn at(state: State, state_path: String) -> (container: Container)
        ensures
            container.held() == state,
            container.path() == state_path@,
    {
        Container { state, state_path }
    }

    /// The state held.
    pub fn state(&self) -> (state: &State)
        ensures
            *state == self.held(),
    {
        &self.state
    }

    /// Where the state is stored.
    pub fn state_path(&self) -> (path: &String)
        ensures
            path@ == self.path(),
    {
        &self.state_path
    }
}

} // verus!
