//! References to line ranges of source files, and the excerpts shown for
//! them.

use vstd::prelude::*;
use vstd::string::StringExecFns;
use crate::embed::{embed_views, Embed, EmbedView, ACCENT_COLOUR};
use crate::formatting::{
    clip, clipped, trim_block, trim_start_in, trimmed_lines, trimmed_start, MAX_TEXT_LENGTH,
};
use crate::pattern::{
    capture_views, captures_of, group, group_at, group_views, regex_captures, regex_compiles,
};
use crate::text::{chars_of, join_on, parse_index, parsed_decimal, split_chars, split_on, string_of};

verus! {

/// The shape of a link to a line or a line range of a file: owner,
/// repository, git ref and path, then the first line and optionally the
/// last.
pub const FILE_PATTERN: &'static str =
    "https://github.com/(.+?)/(.+?)/blob/(.+?)/(.+?)#L([0-9]+)(?:-L([0-9]+))?";

/// A reference to one line, or to a range of lines, of a file in a
/// repository. Lines are counted from one.
#[derive(Clone, Debug, PartialEq, Eq)]
pub struct FileReference {
    pub owner: String,
    pub repo: String,
    pub git_ref: String,
    pub path: String,
    pub start: usize,
    pub end: Option<usize>,
}

pub struct FileReferenceView {
    pub owner: Seq<char>,
    pub repo: Seq<char>,
    pub git_ref: Seq<char>,
    pub path: Seq<char>,
    pub start: nat,
    pub end: Option<nat>,
}

impl View for FileReference {
    type V = FileReferenceView;

    open spec fn view(&self) -> FileReferenceView {
        FileReferenceView {
            owner: self.owner@,
            repo: self.repo@,
            git_ref: self.git_ref@,
            path: self.path@,
            start: self.start as nat,
            end: match self.end {
                Some(e) => Some(e as nat),
                None => None,
            },
        }
    }
}

/// The views of a list of file references.
pub open spec fn file_reference_views(refs: Seq<FileReference>) -> Seq<FileReferenceView> {
    refs.map_values(|r: FileReference| r@)
}

/// The reference that one match of [`FILE_PATTERN`] stands for.
///
/// Groups one to four give owner, repository, git ref and path, group five
/// the first line. A match without one of them, or whose first line is no
/// number that fits, stands for nothing. Group six gives the last line; where
/// it is absent or no number that fits, the reference is to a single line.
pub open spec fn file_reference_of(groups: Seq<Option<Seq<char>>>) -> Option<FileReferenceView> {
    if group_at(groups, 1) is Some && group_at(groups, 2) is Some && group_at(groups, 3) is Some
        && group_at(groups, 4) is Some && group_at(groups, 5) is Some && parsed_decimal(
        group_at(groups, 5)->0,
        usize::MAX as nat,
    ) is Some {
        Some(
            FileReferenceView {
                owner: group_at(groups, 1)->0,
                repo: group_at(groups, 2)->0,
                git_ref: group_at(groups, 3)->0,
                path: group_at(groups, 4)->0,
                start: parsed_decimal(group_at(groups, 5)->0, usize::MAX as nat)->0,
                end: match group_at(groups, 6) {
                    Some(digits) => parsed_decimal(digits, usize::MAX as nat),
                    None => None,
                },
            },
        )
    } else {
        None
    }
}

/// The references that a list of matches stands for, in the order of the
/// matches.
pub open spec fn file_references_of(captures: Seq<Seq<Option<Seq<char>>>>) -> Seq<
    FileReferenceView,
>
    decreases captures.len(),
{
    if captures.len() == 0 {
        Seq::empty()
    } else {
        let before = file_references_of(captures.drop_last());
        match file_reference_of(captures.last()) {
            Some(r) => before.push(r),
            None => before,
        }
    }
}

fn file_reference_from(groups: &Vec<Option<String>>) -> (reference: Option<FileReference>)
    ensures
        match reference {
            Some(r) => file_reference_of(group_views(groups@)) == Some(r@),
            None => file_reference_of(group_views(groups@)) is None,
        },
{
    let owner = group(groups, 1);
    let repo = group(groups, 2);
    let git_ref = group(groups, 3);
    let path = group(groups, 4);
    let first = group(groups, 5);
    match (owner, repo, git_ref, path, first) {
        (Some(owner), Some(repo), Some(git_ref), Some(path), Some(first)) => {
            let digits = chars_of(first.as_str());
            match parse_index(&digits) {
                Some(start) => {
                    let end = match group(groups, 6) {
                        Some(last) => {
                            let digits = chars_of(last.as_str());
                            parse_index(&digits)
                        },
                        None => None,
                    };
                    Some(
                        FileReference {
                            owner: owner.clone(),
                            repo: repo.clone(),
                            git_ref: git_ref.clone(),
                            path: path.clone(),
                            start,
                            end,
                        },
                    )
                },
                None => None,
            }
        },
        _ => None,
    }
}

/// Where the raw text of the referenced file is found.
pub open spec fn raw_url_of(reference: FileReferenceView) -> Seq<char> {
    "https://raw.githubusercontent.com/"@ + reference.owner + "/"@ + reference.repo + "/"@
        + reference.git_ref + "/"@ + reference.path
}

/// The part of a file's text that a reference to lines `start` to `end`
/// shows, lines being counted from one.
///
/// Without an end it is line `start` without its leading whitespace. With an
/// end it is the lines `start` to `end`, both included, with their shared
/// indentation removed. There is nothing to show where `start` is zero,
/// where `end` is less than `start`, or where the file has too few lines.
pub open spec fn selected(content: Seq<char>, start: nat, end: Option<nat>) -> Option<Seq<char>> {
    let lines = split_on(content, '\n');
    if start == 0 {
        None
    } else {
        match end {
            None => {
                if start <= lines.len() {
                    Some(trimmed_start(lines[start - 1]))
                } else {
                    None
                }
            },
            Some(end) => {
                if end <= start - 1 || end > lines.len() {
                    None
                } else {
                    Some(join_on(trimmed_lines(lines.subrange(start - 1, end as int)), seq!['\n']))
                }
            },
        }
    }
}

/// A range that ends before it starts shows nothing, whatever the file
/// holds; and whatever is shown comes from lines that the file has.
pub proof fn lemma_selected_range(content: Seq<char>, start: nat, end: nat)
    ensures
        end < start ==> selected(content, start, Some(end)) is None,
        selected(content, start, Some(end)) is Some ==> 1 <= start <= end <= split_on(
            content,
            '\n',
        ).len(),
{
}

/// The language hint that an excerpt carries: the file's extension, unless
/// that alone would leave no room within the length bound.
pub open spec fn excerpt_hint(extension: Seq<char>) -> Seq<char> {
    if extension.len() + 8 <= MAX_TEXT_LENGTH {
        extension
    } else {
        Seq::empty()
    }
}

/// An excerpt as a fenced block: the fence with the language hint, the text
/// cut so that the whole block stays within the length bound, and the
/// closing fence.
pub open spec fn excerpt_block(extension: Seq<char>, content: Seq<char>) -> Seq<char> {
    let hint = excerpt_hint(extension);
    "```"@ + hint + "\n"@ + clipped(content, (MAX_TEXT_LENGTH - 8 - hint.len()) as nat) + "\n```"@
}

/// A fenced block never exceeds the length bound.
pub proof fn lemma_excerpt_block_bounded(extension: Seq<char>, content: Seq<char>)
    ensures
        excerpt_block(extension, content).len() <= MAX_TEXT_LENGTH,
{
    reveal_strlit("```");
    reveal_strlit("\n");
    reveal_strlit("\n```");
}

/// Whether `piece` stands somewhere in `text` and has no dot in it.
pub open spec fn is_piece_without_dot(piece: Seq<char>, text: Seq<char>) -> bool {
    &&& !piece.contains('.')
    &&& exists|from: int|
        0 <= from && from + piece.len() <= text.len() && #[trigger] text.subrange(
            from,
            from + piece.len(),
        ) == piece
}

/// What follows the last `mark` in `text`, and the whole text where it holds
/// no `mark`.
pub open spec fn after_last(text: Seq<char>, mark: char) -> Seq<char>
    decreases text.len(),
{
    if text.len() == 0 || text.last() == mark {
        Seq::empty()
    } else {
        after_last(text.drop_last(), mark).push(text.last())
    }
}

/// Whether a path is read alike on every platform: it holds neither
/// backslash nor colon, and ends neither in a slash nor in a dot.
pub open spec fn is_plain_path(path: Seq<char>) -> bool {
    &&& !path.contains('\\')
    &&& !path.contains(':')
    &&& path.len() > 0 ==> path.last() != '/' && path.last() != '.'
}

/// The extension of a plain path: what follows the last dot of the file
/// name, which is the part after the last slash, provided the name has a dot
/// that is not its first character. Without such a dot it is empty.
pub open spec fn plain_extension(path: Seq<char>) -> Seq<char> {
    let name = after_last(path, '/');
    if exists|i: int| 0 < i < name.len() && name[i] == '.' {
        after_last(name, '.')
    } else {
        Seq::empty()
    }
}

/// Whether `extension` is the extension of `path`, as far as that is the
/// same on every platform: it is a piece of the path without a dot, and for
/// a plain path it is [`plain_extension`].
pub open spec fn is_extension_of(extension: Seq<char>, path: Seq<char>) -> bool {
    &&& is_piece_without_dot(extension, path)
    &&& is_plain_path(path) ==> extension == plain_extension(path)
}

/// `Path::extension` of std on `path`, as text, and the empty text where the
/// path has no extension.
///
/// How a path divides into components depends on the platform, so the result
/// has no name here. On every platform it is the part of the file name after
/// its last dot, where the name has a dot that is not its first character;
/// and on every platform the file name of a plain path is what follows its
/// last slash.
#[verifier::external_body]
pub(crate) fn path_extension(path: &str) -> (extension: String)
    ensures
        is_extension_of(extension@, path@),
{
    std::path::Path::new(path).extension().unwrap_or_default().to_string_lossy().into_owned()
}

/// The excerpt of a file as an embed: the path as title, the fenced block as
/// description.
pub open spec fn excerpt_embed_of(path: Seq<char>, extension: Seq<char>, content: Seq<char>)
    -> EmbedView {
    EmbedView {
        title: Some(path),
        description: Some(excerpt_block(extension, content)),
        colour: Some(ACCENT_COLOUR),
        ..EmbedView::empty()
    }
}

/// Whether `embed` is the excerpt embed of `content` for the file at `path`,
/// with some extension of that path as its language hint.
pub open spec fn is_excerpt_embed(embed: EmbedView, path: Seq<char>, content: Seq<char>) -> bool {
    exists|extension: Seq<char>|
        is_extension_of(extension, path) && #[trigger] excerpt_embed_of(path, extension, content)
            == embed
}

impl FileReference {
    /// Where the raw text of the referenced file is found.
    pub fn raw_url(&self) -> (url: String)
        ensures
            url@ == raw_url_of(self@),
    {
        let mut url = "https://raw.githubusercontent.com/".to_owned();
        url.append(self.owner.as_str());
        url.append("/");
        url.append(self.repo.as_str());
        url.append("/");
        url.append(self.git_ref.as_str());
        url.append("/");
        url.append(self.path.as_str());
        url
    }

    /// The extension of the referenced file, empty where it has none. It
    /// serves as the language hint of the excerpt.
    pub fn get_extension(&self) -> (extension: String)
        ensures
            is_extension_of(extension@, self.path@),
    {
        path_extension(self.path.as_str())
    }

    /// Picks the referenced lines out of the file's text: see [`selected`].
    pub fn select(&self, content: &str) -> (shown: Option<String>)
        ensures
            match shown {
                Some(text) => selected(content@, self@.start, self@.end) == Some(text@),
                None => selected(content@, self@.start, self@.end) is None,
            },
    {
        if self.start == 0 {
            return None;
        }
        let chars = chars_of(content);
        let lines = split_chars(&chars, '\n');
        let first = self.start - 1;
        match self.end {
            None => {
                if first < lines.len() {
                    let line = trim_start_in(&lines[first]);
                    Some(string_of(&line))
                } else {
                    None
                }
            },
            Some(end) => {
                if end <= first || end > lines.len() {
                    None
                } else {
                    let block = trim_block(&lines, first, end);
                    Some(string_of(&block))
                }
            },
        }
    }

    /// What the reference shows, given the file's text as it was fetched, or
    /// `None` where fetching failed. A failed fetch shows nothing.
    pub fn display(&self, fetched: Option<&str>) -> (shown: Option<String>)
        ensures
            fetched is None ==> shown is None,
            fetched matches Some(content) ==> match shown {
                Some(text) => selected(content@, self@.start, self@.end) == Some(text@),
                None => selected(content@, self@.start, self@.end) is None,
            },
    {
        match fetched {
            Some(content) => self.select(content),
            None => None,
        }
    }

    /// The embed of an excerpt with the given language hint and text.
    pub fn excerpt_embed(&self, extension: &str, content: &str) -> (embed: Embed)
        ensures
            embed@ == excerpt_embed_of(self.path@, extension@, content@),
            embed@.description->0.len() <= MAX_TEXT_LENGTH,
    {
        let extension_chars = chars_of(extension);
        let mut block = "```".to_owned();
        let mut budget: usize = MAX_TEXT_LENGTH - 8;
        if extension_chars.len() <= MAX_TEXT_LENGTH - 8 {
            block.append(extension);
            budget = budget - extension_chars.len();
        }
        block.append("\n");
        let body = clip(content, budget);
        block.append(body.as_str());
        block.append("\n```");
        proof {
            lemma_excerpt_block_bounded(extension@, content@);
        }
        let mut embed = Embed::new();
        embed.title = Some(self.path.clone());
        embed.description = Some(block);
        embed.colour = Some(ACCENT_COLOUR);
        embed
    }

    /// The embed shown for the reference, given the file's text as it was
    /// fetched, or `None` where fetching failed. There is no embed where
    /// there is nothing to show.
    pub fn create_embed(&self, fetched: Option<&str>) -> (embed: Option<Embed>)
        ensures
            embed is Some <==> (fetched matches Some(content) && selected(
                content@,
                self@.start,
                self@.end,
            ) is Some),
            embed matches Some(e) ==> is_excerpt_embed(
                e@,
                self.path@,
                selected(fetched->0@, self@.start, self@.end)->0,
            ),
            embed matches Some(e) ==> e@.description->0.len() <= MAX_TEXT_LENGTH,
            embed matches Some(e) ==> (is_plain_path(self.path@) ==> e@ == excerpt_embed_of(
                self.path@,
                plain_extension(self.path@),
                selected(fetched->0@, self@.start, self@.end)->0,
            )),
    {
        let extension = self.get_extension();
        match self.display(fetched) {
            Some(content) => {
                let embed = self.excerpt_embed(extension.as_str(), content.as_str());
                Some(embed)
            },
            None => None,
        }
    }

    /// Turns the matches of [`FILE_PATTERN`] into references, keeping their
    /// order. The result is `None` where no match stands for a reference.
    pub fn from_captures(captures: &Vec<Vec<Option<String>>>) -> (found: Option<
        Vec<FileReference>,
    >)
        ensures
            found is Some <==> file_references_of(capture_views(captures@)).len() > 0,
            found matches Some(refs) ==> file_reference_views(refs@) == file_references_of(
                capture_views(captures@),
            ),
    {
        let ghost all = capture_views(captures@);
        let mut refs: Vec<FileReference> = Vec::new();
        let mut i: usize = 0;
        while i < captures.len()
            invariant
                i <= captures.len(),
                all == capture_views(captures@),
                file_reference_views(refs@) == file_references_of(all.take(i as int)),
            decreases captures.len() - i,
        {
            proof {
                let upto = all.take(i + 1);
                assert(upto.drop_last() == all.take(i as int));
            }
            match file_reference_from(&captures[i]) {
                Some(r) => {
                    refs.push(r);
                },
                None => {},
            }
            i += 1;
        }
        proof {
            assert(all.take(i as int) == all);
        }
        if refs.len() == 0 {
            None
        } else {
            Some(refs)
        }
    }

    /// Finds the file references in a text, in the order in which they
    /// occur.
    ///
    /// The text is searched for [`FILE_PATTERN`] and the matches are read by
    /// [`FileReference::from_captures`]. The result is `None` exactly where
    /// that gives no reference, or where the pattern is refused.
    pub fn try_from_str(text: &str) -> (found: Option<Vec<FileReference>>)
        ensures
            found is Some <==> regex_compiles(FILE_PATTERN@, usize::BITS as nat)
                && file_references_of(regex_captures(FILE_PATTERN@, text@)).len() > 0,
            found matches Some(refs) ==> file_reference_views(refs@) == file_references_of(
                regex_captures(FILE_PATTERN@, text@),
            ),
    {
        match captures_of(FILE_PATTERN, text) {
            Some(captures) => FileReference::from_captures(&captures),
            None => None,
        }
    }
}

/// What was fetched for the reference at `index`, a missing entry counting
/// as a failed fetch.
pub open spec fn fetched_at(fetched: Seq<Option<String>>, index: int) -> Option<Seq<char>> {
    if 0 <= index < fetched.len() {
        match fetched[index] {
            Some(content) => Some(content@),
            None => None,
        }
    } else {
        None
    }
}

/// What the reference shows of what was fetched for it, if anything.
pub open spec fn shown_of(reference: FileReferenceView, fetched: Option<Seq<char>>) -> Option<
    Seq<char>,
> {
    match fetched {
        Some(content) => selected(content, reference.start, reference.end),
        None => None,
    }
}

/// The positions of the references that show something, in order.
pub open spec fn shown_positions(refs: Seq<FileReferenceView>, fetched: Seq<Option<String>>) -> Seq<
    int,
>
    decreases refs.len(),
{
    if refs.len() == 0 {
        Seq::empty()
    } else {
        let before = shown_positions(refs.drop_last(), fetched);
        if shown_of(refs.last(), fetched_at(fetched, refs.len() - 1)) is Some {
            before.push(refs.len() - 1)
        } else {
            before
        }
    }
}

/// Whether `embeds` are the excerpts of the references that show something,
/// one embed for each such reference and in the order of the references.
pub open spec fn are_excerpts_of(
    embeds: Seq<EmbedView>,
    refs: Seq<FileReferenceView>,
    fetched: Seq<Option<String>>,
) -> bool {
    let shown = shown_positions(refs, fetched);
    &&& embeds.len() == shown.len()
    &&& forall|k: int|
        0 <= k < embeds.len() ==> is_excerpt_embed(
            #[trigger] embeds[k],
            refs[shown[k]].path,
            shown_of(refs[shown[k]], fetched_at(fetched, shown[k]))->0,
        )
}

/// The positions of the references that show something are positions of
/// references, they rise, and each of them shows something.
pub proof fn lemma_shown_positions(refs: Seq<FileReferenceView>, fetched: Seq<Option<String>>)
    ensures
        shown_positions(refs, fetched).len() <= refs.len(),
        forall|k: int|
            0 <= k < shown_positions(refs, fetched).len() ==> {
                let at = #[trigger] shown_positions(refs, fetched)[k];
                0 <= at < refs.len() && shown_of(refs[at], fetched_at(fetched, at)) is Some
            },
        forall|j: int, k: int|
            0 <= j < k < shown_positions(refs, fetched).len() ==> shown_positions(refs, fetched)[j]
                < shown_positions(refs, fetched)[k],
    decreases refs.len(),
{
    if refs.len() > 0 {
        let front = refs.drop_last();
        lemma_shown_positions(front, fetched);
        let all = shown_positions(refs, fetched);
        assert forall|k: int| 0 <= k < all.len() implies {
            let at = #[trigger] all[k];
            0 <= at < refs.len() && shown_of(refs[at], fetched_at(fetched, at)) is Some
        } by {}
    }
}

/// The embeds of a reply to file references, given for each reference the
/// file's text as it was fetched, or `None` where fetching failed.
///
/// Every reference that shows something gives one embed, in the order of
/// the references; the others give none. The result is `None` where no
/// reference shows anything: then there is nothing to reply.
pub fn excerpt_embeds(references: &Vec<FileReference>, fetched: &Vec<Option<String>>) -> (embeds:
    Option<Vec<Embed>>)
    ensures
        embeds is Some <==> shown_positions(file_reference_views(references@), fetched@).len() > 0,
        embeds matches Some(found) ==> are_excerpts_of(
            embed_views(found@),
            file_reference_views(references@),
            fetched@,
        ),
{
    let ghost refs = file_reference_views(references@);
    let mut found: Vec<Embed> = Vec::new();
    let mut i: usize = 0;
    while i < references.len()
        invariant
            i <= references.len(),
            refs == file_reference_views(references@),
            are_excerpts_of(embed_views(found@), refs.take(i as int), fetched@),
        decreases references.len() - i,
    {
        let ghost upto = refs.take(i as int);
        let ghost next = refs.take(i + 1);
        let ghost before = embed_views(found@);
        proof {
            assert(next.drop_last() == upto);
        }
        let made = if i < fetched.len() {
            match &fetched[i] {
                Some(content) => references[i].create_embed(Some(content.as_str())),
                None => references[i].create_embed(None),
            }
        } else {
            references[i].create_embed(None)
        };
        match made {
            Some(embed) => {
                found.push(embed);
                proof {
                    let after = embed_views(found@);
                    assert(after =~= before.push(embed@));
                    lemma_shown_positions(upto, fetched@);

                }
            },
            None => {
                proof {
                    lemma_shown_positions(upto, fetched@);
                }
            },
        }
        i += 1;
    }
    proof {
        assert(refs.take(i as int) == refs);
    }
    if found.len() == 0 {
        None
    } else {
        Some(found)
    }
}

} // verus!
