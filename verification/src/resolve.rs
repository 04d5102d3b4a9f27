//! From the text of a message to the embeds of the issues and pull requests
//! it mentions: finding the references, choosing the repository of each, and
//! deciding lookup by lookup what to ask the tracker under its rate limit.

use vstd::prelude::*;
use crate::document::{Embeddable, IssueDocument, PullDocument};
use crate::embed::{embed_views, Embed, EmbedView};
use crate::pattern::{
    capture_views, captures_of, group, group_at, group_views, regex_captures, regex_compiles,
};
use crate::structures::{Aliases, RepositoryDetails, RepositoryDetailsView};
use crate::text::{chars_of, lowercase, parse_decimal, parsed_decimal, to_lowercase};

verus! {

/// The shape of a mention of an issue or pull request: an optional alias of
/// letters, digits, hyphens, underscores and dots, a hash sign and a number,
/// with a single space on either side taken along where there is one.
pub const ISSUE_PATTERN: &'static str = " ?([a-zA-Z0-9-_.]+)?#([0-9]+) ?";

/// Owner of the repository that a mention without alias refers to.
pub const DEFAULT_REPO_OWNER: &'static str = "OpenTabletDriver";

/// Name of the repository that a mention without alias refers to.
pub const DEFAULT_REPO_NAME: &'static str = "OpenTabletDriver";

/// Lookups are skipped while fewer than this many calls remain.
pub const DEFAULT_RESERVE: u64 = 1;

/// A mention of an issue or pull request: its number, and the alias of its
/// repository where one was given.
#[derive(Clone, Debug, PartialEq, Eq)]
pub struct IssueReference {
    pub alias: Option<String>,
    pub number: u64,
}

pub struct IssueReferenceView {
    pub alias: Option<Seq<char>>,
    pub number: u64,
}

impl View for IssueReference {
    type V = IssueReferenceView;

    open spec fn view(&self) -> IssueReferenceView {
        IssueReferenceView {
            alias: match self.alias {
                Some(a) => Some(a@),
                None => None,
            },
            number: self.number,
        }
    }
}

/// The views of a list of issue references.
pub open spec fn issue_reference_views(refs: Seq<IssueReference>) -> Seq<IssueReferenceView> {
    refs.map_values(|r: IssueReference| r@)
}

/// The reference that one match of [`ISSUE_PATTERN`] stands for.
///
/// Group two gives the number and group one the alias, if any. A match
/// whose number does not fit stands for nothing.
pub open spec fn issue_reference_of(groups: Seq<Option<Seq<char>>>) -> Option<IssueReferenceView> {
    match group_at(groups, 2) {
        Some(digits) => match parsed_decimal(digits, u64::MAX as nat) {
            Some(n) => Some(IssueReferenceView { alias: group_at(groups, 1), number: n as u64 }),
            None => None,
        },
        None => None,
    }
}

/// The references that a list of matches stands for, in the order of the
/// matches.
pub open spec fn issue_references_of(captures: Seq<Seq<Option<Seq<char>>>>) -> Seq<
    IssueReferenceView,
>
    decreases captures.len(),
{
    if captures.len() == 0 {
        Seq::empty()
    } else {
        let before = issue_references_of(captures.drop_last());
        match issue_reference_of(captures.last()) {
            Some(r) => before.push(r),
            None => before,
        }
    }
}

/// References and matches go together one to one: no match gives more
/// than one reference, the references keep the order of the matches, and
/// where every match carries a number that fits, each match gives exactly
/// its own reference.
pub proof fn lemma_one_reference_per_match(captures: Seq<Seq<Option<Seq<char>>>>)
    ensures
        issue_references_of(captures).len() <= captures.len(),
        (forall|i: int|
            0 <= i < captures.len() ==> issue_reference_of(#[trigger] captures[i]) is Some) ==> {
            &&& issue_references_of(captures).len() == captures.len()
            &&& forall|i: int|
                0 <= i < captures.len() ==> Some(#[trigger] issue_references_of(captures)[i])
                    == issue_reference_of(captures[i])
        },
    decreases captures.len(),
{
    if captures.len() > 0 {
        let front = captures.drop_last();
        lemma_one_reference_per_match(front);
    }
}

fn issue_reference_from(groups: &Vec<Option<String>>) -> (reference: Option<IssueReference>)
    ensures
        match reference {
            Some(r) => issue_reference_of(group_views(groups@)) == Some(r@),
            None => issue_reference_of(group_views(groups@)) is None,
        },
{
    match group(groups, 2) {
        Some(digits) => {
            let digits = chars_of(digits.as_str());
            match parse_decimal(&digits) {
                Some(number) => {
                    let alias = match group(groups, 1) {
                        Some(alias) => Some(alias.clone()),
                        None => None,
                    };
                    Some(IssueReference { alias, number })
                },
                None => None,
            }
        },
        None => None,
    }
}

impl IssueReference {
    /// Turns the matches of [`ISSUE_PATTERN`] into references, keeping their
    /// order. The result is `None` where no match stands for a reference.
    pub fn from_captures(captures: &Vec<Vec<Option<String>>>) -> (found: Option<
        Vec<IssueReference>,
    >)
        ensures
            found is Some <==> issue_references_of(capture_views(captures@)).len() > 0,
            found matches Some(refs) ==> issue_reference_views(refs@) == issue_references_of(
                capture_views(captures@),
            ),
    {
        let ghost all = capture_views(captures@);
        let mut refs: Vec<IssueReference> = Vec::new();
        let mut i: usize = 0;
        while i < captures.len()
            invariant
                i <= captures.len(),
                all == capture_views(captures@),
                issue_reference_views(refs@) == issue_references_of(all.take(i as int)),
            decreases captures.len() - i,
        {
            proof {
                let upto = all.take(i + 1);
                assert(upto.drop_last() == all.take(i as int));
            }
            match issue_reference_from(&captures[i]) {
                Some(r) => {
                    refs.push(r);
                },
                None => {},
            }
            i += 1;
        }
        proof {
            assert(all.take(i as int) == all);
        }
        if refs.len() == 0 {
            None
        } else {
            Some(refs)
        }
    }

    /// Finds the mentions of issues and pull requests in a text, in the
    /// order in which they occur.
    ///
    /// The text is searched for [`ISSUE_PATTERN`] and the matches are read
    /// by [`IssueReference::from_captures`]. The result is `None` exactly
    /// where that gives no reference, or where the pattern is refused.
    pub fn try_from_str(text: &str) -> (found: Option<Vec<IssueReference>>)
        ensures
            found is Some <==> regex_compiles(ISSUE_PATTERN@, usize::BITS as nat)
                && issue_references_of(regex_captures(ISSUE_PATTERN@, text@)).len() > 0,
            found matches Some(refs) ==> issue_reference_views(refs@) == issue_references_of(
                regex_captures(ISSUE_PATTERN@, text@),
            ),
    {
        match captures_of(ISSUE_PATTERN, text) {
            Some(captures) => IssueReference::from_captures(&captures),
            None => None,
        }
    }
}

/// An issue or pull request to look up: a repository and a number.
#[derive(Clone, Debug, PartialEq, Eq)]
pub struct Target {
    pub owner: String,
    pub repo: String,
    pub number: u64,
}

pub struct TargetView {
    pub owner: Seq<char>,
    pub repo: Seq<char>,
    pub number: u64,
}

impl View for Target {
    type V = TargetView;

    open spec fn view(&self) -> TargetView {
        TargetView { owner: self.owner@, repo: self.repo@, number: self.number }
    }
}

/// The views of a list of targets.
pub open spec fn target_views(targets: Seq<Target>) -> Seq<TargetView> {
    targets.map_values(|t: Target| t@)
}

/// Where a reference is looked up.
///
/// A reference without alias goes to the default repository. One with an
/// alias goes to the repository that the alias, in lowercase, stands for;
/// where the alias is unknown the reference is looked up nowhere.
pub open spec fn target_of(
    reference: IssueReferenceView,
    aliases: Aliases,
    default: RepositoryDetailsView,
) -> Option<TargetView> {
    match reference.alias {
        None => Some(
            TargetView { owner: default.owner, repo: default.name, number: reference.number },
        ),
        Some(alias) => match aliases.lookup(lowercase(alias)) {
            Some(details) => Some(
                TargetView { owner: details.owner, repo: details.name, number: reference.number },
            ),
            None => None,
        },
    }
}

/// Where a list of references is looked up, in the order of the references.
pub open spec fn targets_of(
    refs: Seq<IssueReferenceView>,
    aliases: Aliases,
    default: RepositoryDetailsView,
) -> Seq<TargetView>
    decreases refs.len(),
{
    if refs.len() == 0 {
        Seq::empty()
    } else {
        let before = targets_of(refs.drop_last(), aliases, default);
        match target_of(refs.last(), aliases, default) {
            Some(t) => before.push(t),
            None => before,
        }
    }
}

/// The positions of the references that are looked up somewhere, in order.
pub open spec fn planned_positions(
    refs: Seq<IssueReferenceView>,
    aliases: Aliases,
    default: RepositoryDetailsView,
) -> Seq<int>
    decreases refs.len(),
{
    if refs.len() == 0 {
        Seq::empty()
    } else {
        let before = planned_positions(refs.drop_last(), aliases, default);
        if target_of(refs.last(), aliases, default) is Some {
            before.push(refs.len() - 1)
        } else {
            before
        }
    }
}

/// Lookups keep the order of the references: every target belongs to one
/// reference, later targets belong to later references, and every
/// reference that is looked up somewhere has its target.
pub proof fn lemma_targets_keep_order(
    refs: Seq<IssueReferenceView>,
    aliases: Aliases,
    default: RepositoryDetailsView,
)
    ensures
        targets_of(refs, aliases, default).len() == planned_positions(refs, aliases, default).len(),
        forall|k: int|
            0 <= k < planned_positions(refs, aliases, default).len() ==> {
                let at = #[trigger] planned_positions(refs, aliases, default)[k];
                0 <= at < refs.len() && target_of(refs[at], aliases, default) == Some(
                    targets_of(refs, aliases, default)[k],
                )
            },
        forall|j: int, k: int|
            0 <= j < k < planned_positions(refs, aliases, default).len() ==> planned_positions(
                refs,
                aliases,
                default,
            )[j] < planned_positions(refs, aliases, default)[k],
        forall|at: int|
            0 <= at < refs.len() && target_of(#[trigger] refs[at], aliases, default) is Some
                ==> planned_positions(refs, aliases, default).contains(at),
    decreases refs.len(),
{
    if refs.len() > 0 {
        let front = refs.drop_last();
        lemma_targets_keep_order(front, aliases, default);
        let before = planned_positions(front, aliases, default);
        let all = planned_positions(refs, aliases, default);
        let targets = targets_of(refs, aliases, default);
        assert forall|k: int| 0 <= k < all.len() implies {
            let at = #[trigger] all[k];
            0 <= at < refs.len() && target_of(refs[at], aliases, default) == Some(targets[k])
        } by {}
        assert forall|at: int|
            0 <= at < refs.len() && target_of(#[trigger] refs[at], aliases, default)
                is Some implies all.contains(at) by {
            if at < front.len() {
                assert(front[at] == refs[at]);
                let k = choose|k: int| 0 <= k < before.len() && before[k] == at;
                assert(all[k] == at);
            } else {
                assert(all[all.len() - 1] == at);
            }
        }
    }
}

/// Capitals and small letters make no difference to an alias: two
/// references whose aliases have the same lowercase form, and which name the
/// same number, are looked up in the same place.
pub proof fn lemma_alias_case_is_ignored(
    first: Seq<char>,
    second: Seq<char>,
    number: u64,
    aliases: Aliases,
    default: RepositoryDetailsView,
)
    requires
        lowercase(first) == lowercase(second),
    ensures
        target_of(IssueReferenceView { alias: Some(first), number }, aliases, default)
            == target_of(IssueReferenceView { alias: Some(second), number }, aliases, default),
{
}

/// Chooses the repository of one reference: see [`target_of`].
pub fn lookup_target(reference: &IssueReference, aliases: &Aliases, default: &RepositoryDetails)
    -> (target: Option<Target>)
    ensures
        match target {
            Some(t) => target_of(reference@, *aliases, default@) == Some(t@),
            None => target_of(reference@, *aliases, default@) is None,
        },
{
    match &reference.alias {
        None => Some(
            Target {
                owner: default.owner.clone(),
                repo: default.name.clone(),
                number: reference.number,
            },
        ),
        Some(alias) => {
            let key = to_lowercase(alias.as_str());
            match aliases.get(key.as_str()) {
                Some(details) => Some(
                    Target {
                        owner: details.owner.clone(),
                        repo: details.name.clone(),
                        number: reference.number,
                    },
                ),
                None => None,
            }
        },
    }
}

/// Chooses the repository of every reference, keeping the order and
/// leaving out the references whose alias is unknown.
pub fn plan_lookups(refs: &Vec<IssueReference>, aliases: &Aliases, default: &RepositoryDetails)
    -> (targets: Vec<Target>)
    ensures
        target_views(targets@) == targets_of(issue_reference_views(refs@), *aliases, default@),
{
    let ghost all = issue_reference_views(refs@);
    let mut targets: Vec<Target> = Vec::new();
    let mut i: usize = 0;
    while i < refs.len()
        invariant
            i <= refs.len(),
            all == issue_reference_views(refs@),
            target_views(targets@) == targets_of(all.take(i as int), *aliases, default@),
        decreases refs.len() - i,
    {
        proof {
            let upto = all.take(i + 1);
            assert(upto.drop_last() == all.take(i as int));
        }
        match lookup_target(&refs[i], aliases, default) {
            Some(t) => {
                targets.push(t);
            },
            None => {},
        }
        i += 1;
    }
    proof {
        assert(all.take(i as int) == all);
    }
    targets
}

/// What a resolver waits for.
#[derive(Clone, Copy, Debug, PartialEq, Eq, Structural)]
pub enum Step {
    /// The number of calls that remain.
    Quota,
    /// The pull request with the target's number.
    PullRequest,
    /// The issue with the target's number.
    Issue,
}

/// What the caller is to ask the tracker next.
#[derive(Clone, Debug, PartialEq, Eq)]
pub enum Request {
    /// How many calls remain.
    Quota,
    /// The pull request `number` of the repository.
    PullRequest { owner: String, repo: String, number: u64 },
    /// The issue `number` of the repository.
    Issue { owner: String, repo: String, number: u64 },
    /// Nothing: every target is dealt with.
    Done,
}

pub enum RequestView {
    Quota,
    PullRequest(TargetView),
    Issue(TargetView),
    Done,
}

impl View for Request {
    type V = RequestView;

    open spec fn view(&self) -> RequestView {
        match *self {
            Request::Quota => RequestView::Quota,
            Request::PullRequest { owner, repo, number } => RequestView::PullRequest(
                TargetView { owner: owner@, repo: repo@, number },
            ),
            Request::Issue { owner, repo, number } => RequestView::Issue(
                TargetView { owner: owner@, repo: repo@, number },
            ),
            Request::Done => RequestView::Done,
        }
    }
}

/// What the tracker answered.
#[derive(Clone, Debug, PartialEq, Eq)]
pub enum Answer {
    /// So many calls remain.
    Quota(u64),
    /// The pull request asked for.
    PullRequest(PullDocument),
    /// The issue asked for.
    Issue(IssueDocument),
    /// The lookup failed: there is no such item, or the call did not go
    /// through.
    Failed,
}

pub enum AnswerView {
    Quota(u64),
    PullRequest(EmbedView),
    Issue(EmbedView),
    Failed,
}

impl View for Answer {
    type V = AnswerView;

    open spec fn view(&self) -> AnswerView {
        match *self {
            Answer::Quota(remaining) => AnswerView::Quota(remaining),
            Answer::PullRequest(document) => AnswerView::PullRequest(document.embedded()),
            Answer::Issue(document) => AnswerView::Issue(document.embedded()),
            Answer::Failed => AnswerView::Failed,
        }
    }
}

/// The progress of a resolver, as a value.
pub struct Progress {
    /// Where to look, in the order of the references.
    pub targets: Seq<TargetView>,
    /// How many targets are dealt with.
    pub position: nat,
    /// What is being waited for on the target at `position`.
    pub step: Step,
    /// Lookups are skipped while fewer calls than this remain.
    pub reserve: u64,
    /// The embeds of what was found so far, in the order of the targets.
    pub embeds: Seq<EmbedView>,
}

impl Progress {
    /// The start: nothing dealt with, nothing found.
    pub open spec fn start(targets: Seq<TargetView>, reserve: u64) -> Progress {
        Progress { targets, position: 0, step: Step::Quota, reserve, embeds: Seq::empty() }
    }

    /// Whether every target is dealt with.
    pub open spec fn is_done(self) -> bool {
        self.position >= self.targets.len()
    }

    /// The target at hand is left without an embed.
    pub open spec fn skipped(self) -> Progress {
        Progress { position: self.position + 1, step: Step::Quota, ..self }
    }

    /// The target at hand is shown by `embed`.
    pub open spec fn resolved(self, embed: EmbedView) -> Progress {
        Progress {
            position: self.position + 1,
            step: Step::Quota,
            embeds: self.embeds.push(embed),
            ..self
        }
    }

    /// What is asked next.
    pub open spec fn request(self) -> RequestView {
        if self.is_done() {
            RequestView::Done
        } else {
            match self.step {
                Step::Quota => RequestView::Quota,
                Step::PullRequest => RequestView::PullRequest(self.targets[self.position as int]),
                Step::Issue => RequestView::Issue(self.targets[self.position as int]),
            }
        }
    }

    /// The progress after an answer.
    ///
    /// With fewer calls remaining than the reserve, the target at hand is
    /// skipped without any lookup; otherwise its pull request is asked for.
    /// A pull request that is found resolves the target; where that lookup
    /// fails the issue is asked for; an issue that is found resolves the
    /// target, and where that fails too the target is skipped. An answer
    /// to something that was not asked changes nothing.
    pub open spec fn after(self, answer: AnswerView) -> Progress {
        if self.is_done() {
            self
        } else {
            match (self.step, answer) {
                (Step::Quota, AnswerView::Quota(remaining)) => {
                    if remaining < self.reserve {
                        self.skipped()
                    } else {
                        Progress { step: Step::PullRequest, ..self }
                    }
                },
                (Step::PullRequest, AnswerView::PullRequest(embed)) => self.resolved(embed),
                (Step::PullRequest, AnswerView::Failed) => Progress { step: Step::Issue, ..self },
                (Step::Issue, AnswerView::Issue(embed)) => self.resolved(embed),
                (Step::Issue, AnswerView::Failed) => self.skipped(),
                _ => self,
            }
        }
    }

    /// Whether the progress can be that of a run: no more targets are dealt
    /// with than there are, and no more embeds found than targets dealt
    /// with.
    pub open spec fn is_sound(self) -> bool {
        self.position <= self.targets.len() && self.embeds.len() <= self.position
    }

    /// How many answers at most are still needed.
    pub open spec fn remaining_work(self) -> nat {
        if self.is_done() {
            0
        } else {
            (3 * (self.targets.len() - self.position) - match self.step {
                Step::Quota => 0int,
                Step::PullRequest => 1int,
                Step::Issue => 2int,
            }) as nat
        }
    }
}

/// Resolves the targets of one message, one lookup at a time.
///
/// The caller asks the tracker what [`Resolver::request`] says, hands the
/// answer to [`Resolver::answer`], and repeats until the request is
/// [`Request::Done`].
pub struct Resolver {
    targets: Vec<Target>,
    position: usize,
    step: Step,
    reserve: u64,
    embeds: Vec<Embed>,
}

impl Resolver {
    #[verifier::type_invariant]
    spec fn inv(self) -> bool {
        self.position <= self.targets.len() && self.embeds.len() <= self.position
    }

    /// The progress made.
    pub closed spec fn progress(self) -> Progress {
        Progress {
            targets: target_views(self.targets@),
            position: self.position as nat,
            step: self.step,
            reserve: self.reserve,
            embeds: embed_views(self.embeds@),
        }
    }

    /// A resolver for `targets`, which skips lookups while fewer than
    /// `reserve` calls remain.
    pub fn new(targets: Vec<Target>, reserve: u64) -> (resolver: Resolver)
        ensures
            resolver.progress() == Progress::start(target_views(targets@), reserve),
            resolver.progress().is_sound(),
    {
        let resolver = Resolver {
            targets,
            position: 0,
            step: Step::Quota,
            reserve,
            embeds: Vec::new(),
        };
        assert(embed_views(resolver.embeds@) =~= Seq::empty());
        resolver
    }

    /// What to ask the tracker next.
    pub fn request(&self) -> (request: Request)
        ensures
            request@ == self.progress().request(),
    {
        if self.position >= self.targets.len() {
            Request::Done
        } else {
            let target = &self.targets[self.position];
            match self.step {
                Step::Quota => Request::Quota,
                Step::PullRequest => Request::PullRequest {
                    owner: target.owner.clone(),
                    repo: target.repo.clone(),
                    number: target.number,
                },
                Step::Issue => Request::Issue {
                    owner: target.owner.clone(),
                    repo: target.repo.clone(),
                    number: target.number,
                },
            }
        }
    }

    /// Takes the tracker's answer: see [`Progress::after`].
    pub fn answer(&mut self, answer: Answer)
        ensures
            final(self).progress() == old(self).progress().after(answer@),
            final(self).progress().is_sound(),
    {
        proof {
            use_type_invariant(&*self);
        }
        if self.position >= self.targets.len() {
            return ;
        }
        match (self.step, answer) {
            (Step::Quota, Answer::Quota(remaining)) => {
                if remaining < self.reserve {
                    self.position = self.position + 1;
                } else {
                    self.step = Step::PullRequest;
                }
            },
            (Step::PullRequest, Answer::PullRequest(document)) => {
                let embed = document.embed();
                self.show(embed);
            },
            (Step::PullRequest, Answer::Failed) => {
                self.step = Step::Issue;
            },
            (Step::Issue, Answer::Issue(document)) => {
                let embed = document.embed();
                self.show(embed);
            },
            (Step::Issue, Answer::Failed) => {
                self.position = self.position + 1;
                self.step = Step::Quota;
            },
            _ => {},
        }
    }

    fn show(&mut self, embed: Embed)
        requires
            old(self).position < old(self).targets.len(),
        ensures
            final(self).progress() == old(self).progress().resolved(embed@),
            final(self).progress().is_sound(),
    {
        proof {
            use_type_invariant(&*self);
        }
        let mut taken = Resolver {
            targets: Vec::new(),
            position: 0,
            step: Step::Quota,
            reserve: 0,
            embeds: Vec::new(),
        };
        core::mem::swap(self, &mut taken);
        let Resolver { targets, position, step, reserve, embeds } = taken;
        let mut embeds = embeds;
        let ghost before = embeds@;
        embeds.push(embed);
        assert(embed_views(embeds@) =~= embed_views(before).push(embed@));
        *self = Resolver { targets, position: position + 1, step: Step::Quota, reserve, embeds };
    }

    /// Whether every target is dealt with.
    pub fn is_done(&self) -> (done: bool)
        ensures
            done == self.progress().is_done(),
    {
        self.position >= self.targets.len()
    }

    /// The embeds of what was found, in the order of the targets and at most
    /// one for each target, or `None` where nothing was found: then there is
    /// nothing to reply.
    pub fn finish(self) -> (embeds: Option<Vec<Embed>>)
        ensures
            self.progress().is_sound(),
            embeds is Some <==> self.progress().embeds.len() > 0,
            embeds matches Some(found) ==> embed_views(found@) == self.progress().embeds
                && found.len() <= self.progress().targets.len(),
    {
        proof {
            use_type_invariant(&self);
        }
        let Resolver { targets, position, step, reserve, embeds } = self;
        if embeds.len() == 0 {
            None
        } else {
            Some(embeds)
        }
    }
}

/// With fewer calls remaining than the reserve, the target at hand is
/// given up without any lookup: what is asked next is the quota again, for
/// the next target, or nothing at all, and no embed is added.
pub proof fn lemma_low_quota_skips_lookup(progress: Progress, remaining: u64)
    requires
        !progress.is_done(),
        progress.step == Step::Quota,
        remaining < progress.reserve,
    ensures
        progress.after(AnswerView::Quota(remaining)) == progress.skipped(),
        progress.after(AnswerView::Quota(remaining)).embeds == progress.embeds,
        progress.after(AnswerView::Quota(remaining)).request() is Quota || progress.after(
            AnswerView::Quota(remaining),
        ).request() is Done,
{
}

/// No answer gives a target more than one embed: sound progress stays
/// sound.
pub proof fn lemma_answers_keep_sound(progress: Progress, answer: AnswerView)
    requires
        progress.is_sound(),
    ensures
        progress.after(answer).is_sound(),
{
}

/// Embeds are only ever added at the end, so they stay in the order of
/// the targets; and no answer moves a resolver backwards.
pub proof fn lemma_answers_keep_order(progress: Progress, answer: AnswerView)
    ensures
        progress.after(answer).targets == progress.targets,
        progress.after(answer).reserve == progress.reserve,
        progress.after(answer).position >= progress.position,
        progress.after(answer).embeds == progress.embeds || exists|embed: EmbedView|
            progress.after(answer).embeds == #[trigger] progress.embeds.push(embed),
{
}

/// The answer to what was asked always brings a resolver closer to its end,
/// so a run takes at most three answers for each target.
pub proof fn lemma_answers_make_progress(progress: Progress, answer: AnswerView)
    requires
        !progress.is_done(),
        progress.position <= progress.targets.len(),
        match progress.step {
            Step::Quota => answer is Quota,
            Step::PullRequest => answer is PullRequest || answer is Failed,
            Step::Issue => answer is Issue || answer is Failed,
        },
    ensures
        progress.after(answer).remaining_work() < progress.remaining_work(),
{
}

} // verus!
