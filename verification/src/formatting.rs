//! Display-safe text: shared-indentation trimming of file excerpts and
//! bounding of free text.

use vstd::prelude::*;
use crate::text::{
    chars_of, has_prefix, join_chars, join_on, lemma_rows_push, lemma_split_join, rows, split_chars,
    split_on, string_of,
};

verus! {

/// Whether `c` has the Unicode `White_Space` property: the controls from
/// tab to carriage return, the space, the next-line control, the no-break
/// space, the Ogham space mark, the spaces from en quad to hair space, the
/// line and paragraph separators, the narrow no-break space, the medium
/// mathematical space and the ideographic space.
pub open spec fn is_whitespace(c: char) -> bool {
    let code = c as u32;
    ||| 0x0009 <= code <= 0x000d
    ||| code == 0x0020
    ||| code == 0x0085
    ||| code == 0x00a0
    ||| code == 0x1680
    ||| 0x2000 <= code <= 0x200a
    ||| code == 0x2028
    ||| code == 0x2029
    ||| code == 0x202f
    ||| code == 0x205f
    ||| code == 0x3000
}

/// `char::is_whitespace` of std, which tells whether a character has the
/// `White_Space` property of Unicode.
#[verifier::external_body]
pub(crate) fn char_is_whitespace(c: char) -> (b: bool)
    ensures
        b == is_whitespace(c),
{
    c.is_whitespace()
}

/// Number of whitespace characters at the front of `line`.
pub open spec fn leading_whitespace(line: Seq<char>) -> nat
    decreases line.len(),
{
    if line.len() > 0 && is_whitespace(line[0]) {
        1 + leading_whitespace(line.drop_first())
    } else {
        0
    }
}

/// `n` is the leading whitespace count of `line` exactly when the first `n`
/// characters are whitespace and the next one, if any, is not.
pub proof fn lemma_leading_whitespace(line: Seq<char>, n: nat)
    requires
        n <= line.len(),
        forall|k: int| 0 <= k < n ==> is_whitespace(#[trigger] line[k]),
        n < line.len() ==> !is_whitespace(line[n as int]),
    ensures
        leading_whitespace(line) == n,
    decreases n,
{
    if n > 0 {
        let rest = line.drop_first();
        lemma_leading_whitespace(rest, (n - 1) as nat);
    }
}

/// The leading whitespace count is within the line, covers whitespace only,
/// and stops at the first character that is not whitespace.
pub proof fn lemma_leading_whitespace_bounds(line: Seq<char>)
    ensures
        leading_whitespace(line) <= line.len(),
        forall|k: int| 0 <= k < leading_whitespace(line) ==> is_whitespace(#[trigger] line[k]),
        leading_whitespace(line) < line.len() ==> !is_whitespace(
            line[leading_whitespace(line) as int],
        ),
    decreases line.len(),
{
    if line.len() > 0 && is_whitespace(line[0]) {
        let rest = line.drop_first();
        lemma_leading_whitespace_bounds(rest);
        assert forall|k: int| 0 <= k < leading_whitespace(line) implies is_whitespace(
            #[trigger] line[k],
        ) by {
            if k > 0 {
                assert(line[k] == rest[k - 1]);
            }
        }
    }
}

fn leading_whitespace_in(chars: &Vec<char>) -> (count: usize)
    ensures
        count == leading_whitespace(chars@),
        count <= chars.len(),
{
    let mut i: usize = 0;
    while i < chars.len()
        invariant
            i <= chars.len(),
            forall|k: int| 0 <= k < i ==> is_whitespace(#[trigger] chars@[k]),
        decreases chars.len() - i,
    {
        if !char_is_whitespace(chars[i]) {
            proof {
                lemma_leading_whitespace(chars@, i as nat);
            }
            return i;
        }
        i += 1;
    }
    proof {
        lemma_leading_whitespace(chars@, i as nat);
    }
    i
}

/// `line` without its leading whitespace.
pub open spec fn trimmed_start(line: Seq<char>) -> Seq<char> {
    line.skip(leading_whitespace(line) as int)
}

pub(crate) fn trim_start_in(chars: &Vec<char>) -> (rest: Vec<char>)
    ensures
        rest@ == trimmed_start(chars@),
{
    let from = leading_whitespace_in(chars);
    let mut rest: Vec<char> = Vec::new();
    let mut j: usize = from;
    while j < chars.len()
        invariant
            from <= j <= chars.len(),
            rest@ == chars@.subrange(from as int, j as int),
        decreases chars.len() - j,
    {
        rest.push(chars[j]);
        j += 1;
    }
    rest
}

/// Indentation of one line: the number of whitespace characters at its
/// front.
pub fn get_indent(line: &str) -> (indent: usize)
    ensures
        indent == leading_whitespace(line@),
{
    let chars = chars_of(line);
    leading_whitespace_in(&chars)
}

/// Least leading-whitespace count among the non-empty lines, if there is
/// such a line. A line of whitespace only counts with its whitespace.
pub open spec fn min_indent(lines: Seq<Seq<char>>) -> Option<nat>
    decreases lines.len(),
{
    if lines.len() == 0 {
        None
    } else {
        let before = min_indent(lines.drop_last());
        let last = lines.last();
        if last.len() == 0 {
            before
        } else {
            match before {
                None => Some(leading_whitespace(last)),
                Some(m) => Some(
                    if leading_whitespace(last) < m {
                        leading_whitespace(last)
                    } else {
                        m
                    },
                ),
            }
        }
    }
}

/// The indentation shared by a block of lines: the least leading-whitespace
/// count among its non-empty lines, and zero for a block without one.
pub open spec fn base_indent(lines: Seq<Seq<char>>) -> nat {
    match min_indent(lines) {
        Some(m) => m,
        None => 0,
    }
}

/// The character sequences of a slice of string slices.
pub open spec fn line_views(lines: Seq<&str>) -> Seq<Seq<char>> {
    lines.map_values(|line: &str| line@)
}

/// `min_indent` is `None` exactly for blocks without a non-empty line;
/// otherwise it is attained by some non-empty line and bounds all of them.
pub proof fn lemma_min_indent(lines: Seq<Seq<char>>)
    ensures
        min_indent(lines) is None <==> (forall|i: int|
            0 <= i < lines.len() ==> (#[trigger] lines[i]).len() == 0),
        min_indent(lines) matches Some(m) ==> {
            &&& exists|i: int|
                0 <= i < lines.len() && (#[trigger] lines[i]).len() > 0 && leading_whitespace(
                    lines[i],
                ) == m
            &&& forall|i: int|
                0 <= i < lines.len() && (#[trigger] lines[i]).len() > 0 ==> m <= leading_whitespace(
                    lines[i],
                )
        },
    decreases lines.len(),
{
    if lines.len() > 0 {
        let before = lines.drop_last();
        lemma_min_indent(before);
        assert forall|i: int| 0 <= i < before.len() implies before[i] == lines[i] by {}
    }
}

fn base_indent_in(lines: &Vec<Vec<char>>, from: usize, to: usize) -> (indent: usize)
    requires
        from <= to <= lines.len(),
    ensures
        indent == base_indent(rows(lines@).subrange(from as int, to as int)),
{
    let ghost block = rows(lines@).subrange(from as int, to as int);
    let mut least: Option<usize> = None;
    let mut i: usize = from;
    while i < to
        invariant
            from <= i <= to <= lines.len(),
            block == rows(lines@).subrange(from as int, to as int),
            match least {
                Some(m) => min_indent(block.take(i - from)) == Some(m as nat),
                None => min_indent(block.take(i - from)) is None,
            },
        decreases to - i,
    {
        proof {
            let upto = block.take(i - from + 1);
            assert(upto.drop_last() == block.take(i - from));
        }
        if lines[i].len() > 0 {
            let indent = leading_whitespace_in(&lines[i]);
            least = match least {
                None => Some(indent),
                Some(m) => Some(if indent < m { indent } else { m }),
            };
        }
        i += 1;
    }
    proof {
        assert(block.take(i - from) == block);
    }
    match least {
        Some(m) => m,
        None => 0,
    }
}

fn rows_of(lines: &[&str]) -> (chars: Vec<Vec<char>>)
    ensures
        rows(chars@) == line_views(lines@),
{
    let mut chars: Vec<Vec<char>> = Vec::new();
    let mut i: usize = 0;
    while i < lines.len()
        invariant
            i <= lines.len(),
            rows(chars@) == line_views(lines@).take(i as int),
        decreases lines.len() - i,
    {
        let row = chars_of(lines[i]);
        let ghost before = chars@;
        chars.push(row);
        i += 1;
        proof {
            lemma_rows_push(before, row);
        }
    }
    chars
}

/// Indentation shared by a block of lines.
pub fn get_base_indent(lines: &[&str]) -> (indent: usize)
    ensures
        indent == base_indent(line_views(lines@)),
{
    let chars = rows_of(lines);
    proof {
        assert(rows(chars@).subrange(0, chars.len() as int) == rows(chars@));
    }
    base_indent_in(&chars, 0, chars.len())
}

/// Whether `line` begins with `n` space characters.
pub open spec fn starts_with_spaces(line: Seq<char>, n: nat) -> bool {
    n <= line.len() && forall|k: int| 0 <= k < n ==> line[k] == ' '
}

/// `line` without its first `n` characters when those are all spaces, and
/// `line` unchanged otherwise.
pub open spec fn strip_spaces(line: Seq<char>, n: nat) -> Seq<char> {
    if starts_with_spaces(line, n) {
        line.skip(n as int)
    } else {
        line
    }
}

/// Every line with the block's shared indentation removed.
pub open spec fn trimmed_lines(lines: Seq<Seq<char>>) -> Seq<Seq<char>> {
    lines.map_values(|line: Seq<char>| strip_spaces(line, base_indent(lines)))
}

fn strip_spaces_in(line: &Vec<char>, n: usize) -> (stripped: Vec<char>)
    ensures
        stripped@ == strip_spaces(line@, n as nat),
{
    let mut stripped: Vec<char> = Vec::new();
    if n > line.len() {
        stripped.extend_from_slice(line.as_slice());
        return stripped;
    }
    let mut k: usize = 0;
    while k < n
        invariant
            k <= n <= line.len(),
            stripped@.len() == 0,
            forall|j: int| 0 <= j < k ==> line@[j] == ' ',
        decreases n - k,
    {
        if line[k] != ' ' {
            stripped.extend_from_slice(line.as_slice());
            return stripped;
        }
        k += 1;
    }
    let mut j: usize = n;
    while j < line.len()
        invariant
            n <= j <= line.len(),
            stripped@ == line@.subrange(n as int, j as int),
        decreases line.len() - j,
    {
        stripped.push(line[j]);
        j += 1;
    }
    stripped
}

/// The lines `from..to` with their shared indentation removed, joined by
/// line feeds.
pub(crate) fn trim_block(lines: &Vec<Vec<char>>, from: usize, to: usize) -> (trimmed: Vec<char>)
    requires
        from <= to <= lines.len(),
    ensures
        trimmed@ == join_on(
            trimmed_lines(rows(lines@).subrange(from as int, to as int)),
            seq!['\n'],
        ),
{
    let ghost block = rows(lines@).subrange(from as int, to as int);
    let base = base_indent_in(lines, from, to);
    let mut out: Vec<Vec<char>> = Vec::new();
    let mut i: usize = from;
    while i < to
        invariant
            from <= i <= to <= lines.len(),
            block == rows(lines@).subrange(from as int, to as int),
            base == base_indent(block),
            rows(out@) == trimmed_lines(block).take(i - from),
        decreases to - i,
    {
        let stripped = strip_spaces_in(&lines[i], base);
        let ghost before = out@;
        out.push(stripped);
        i += 1;
        proof {
            lemma_rows_push(before, stripped);
        }
    }
    proof {
        assert(trimmed_lines(block).take(i - from) == trimmed_lines(block));
    }
    let mut sep: Vec<char> = Vec::new();
    sep.push('\n');
    join_chars(&out, &sep)
}

/// Removes the indentation that the lines share and joins them with line
/// feeds.
///
/// The shared indentation is the least indentation among the non-empty
/// lines. That many leading spaces are removed from every line that begins
/// with them; any other line is kept as it is.
pub fn trim_indent(lines: &[&str]) -> (trimmed: String)
    ensures
        trimmed@ == join_on(trimmed_lines(line_views(lines@)), seq!['\n']),
{
    let chars = rows_of(lines);
    proof {
        assert(rows(chars@).subrange(0, chars.len() as int) == rows(chars@));
    }
    let joined = trim_block(&chars, 0, chars.len());
    string_of(&joined)
}

/// Whether trimming has nothing to remove from a block: the block has no
/// shared indentation, or no line begins with that many spaces.
pub open spec fn is_trimmed(lines: Seq<Seq<char>>) -> bool {
    base_indent(lines) == 0 || forall|i: int|
        0 <= i < lines.len() ==> !starts_with_spaces(#[trigger] lines[i], base_indent(lines))
}

/// Trimming leaves a block as it is exactly when the block is trimmed.
pub proof fn lemma_trim_changes_untrimmed_only(lines: Seq<Seq<char>>)
    ensures
        trimmed_lines(lines) == lines <==> is_trimmed(lines),
{
    let base = base_indent(lines);
    let once = trimmed_lines(lines);
    if is_trimmed(lines) {
        assert forall|i: int| 0 <= i < lines.len() implies once[i] == lines[i] by {
            assert(lines[i].skip(0) =~= lines[i]);
        }
        assert(once =~= lines);
    } else {
        let i = choose|i: int|
            0 <= i < lines.len() && starts_with_spaces(#[trigger] lines[i], base);
        assert(once[i].len() == lines[i].len() - base);
    }
}

/// Trimming a trimmed block changes nothing, provided the block has no
/// shared indentation or one of its least-indented lines is indented with
/// spaces and has text after them. (Tabs and other whitespace are counted
/// but never removed, and a line of nothing but its indentation is empty
/// once trimmed and no longer counts.) Then nothing is left to trim after
/// the first time.
pub proof fn lemma_trim_idempotent(lines: Seq<Seq<char>>)
    requires
        base_indent(lines) == 0 || exists|i: int|
            0 <= i < lines.len() && (#[trigger] lines[i]).len() > base_indent(lines)
                && leading_whitespace(lines[i]) == base_indent(lines) && starts_with_spaces(
                lines[i],
                base_indent(lines),
            ),
    ensures
        base_indent(trimmed_lines(lines)) == 0,
        is_trimmed(trimmed_lines(lines)),
        trimmed_lines(trimmed_lines(lines)) == trimmed_lines(lines),
{
    let once = trimmed_lines(lines);
    let base = base_indent(lines);
    if base == 0 {
        lemma_trim_changes_untrimmed_only(lines);
    } else {
        let i = choose|i: int|
            0 <= i < lines.len() && (#[trigger] lines[i]).len() > base && leading_whitespace(
                lines[i],
            ) == base && starts_with_spaces(lines[i], base);
        lemma_leading_whitespace_bounds(lines[i]);
        assert(once[i] == lines[i].skip(base as int));
        assert(!is_whitespace(once[i][0]));
        assert(leading_whitespace(once[i]) == 0);
        lemma_min_indent(once);
    }
    lemma_trim_changes_untrimmed_only(once);
}

/// Upper bound on the length of any rendered text, in characters.
pub const MAX_TEXT_LENGTH: usize = 4096;

/// Number of lines of a free-text body that are shown.
pub const MAX_BODY_LINES: usize = 15;

/// `text` cut down to its first `max` characters.
pub open spec fn clipped(text: Seq<char>, max: nat) -> Seq<char> {
    if text.len() <= max {
        text
    } else {
        text.take(max as int)
    }
}

/// The first `count` lines, or all of them where there are fewer.
pub open spec fn first_lines(lines: Seq<Seq<char>>, count: nat) -> Seq<Seq<char>> {
    if lines.len() <= count {
        lines
    } else {
        lines.take(count as int)
    }
}

/// A free-text body as it is shown: its first lines, joined by line feeds,
/// then cut to the length bound.
pub open spec fn bounded_body(body: Seq<char>) -> Seq<char> {
    clipped(
        join_on(first_lines(split_on(body, '\n'), MAX_BODY_LINES as nat), seq!['\n']),
        MAX_TEXT_LENGTH as nat,
    )
}

/// Cuts `text` down to its first `max` characters.
pub fn clip(text: &str, max: usize) -> (cut: String)
    ensures
        cut@ == clipped(text@, max as nat),
        cut@.len() <= max,
{
    let mut chars = chars_of(text);
    if chars.len() > max {
        chars.truncate(max);
    }
    string_of(&chars)
}

/// Bounds a free-text body for display: the line cap is applied first, the
/// length cap second.
pub fn bound_body(body: &str) -> (shown: String)
    ensures
        shown@ == bounded_body(body@),
        shown@.len() <= MAX_TEXT_LENGTH,
{
    let chars = chars_of(body);
    let mut lines = split_chars(&chars, '\n');
    if lines.len() > MAX_BODY_LINES {
        let ghost all = lines@;
        lines.truncate(MAX_BODY_LINES);
        proof {
            assert(rows(lines@) =~= rows(all).take(MAX_BODY_LINES as int));
        }
    }
    let mut sep: Vec<char> = Vec::new();
    sep.push('\n');
    let mut joined = join_chars(&lines, &sep);
    if joined.len() > MAX_TEXT_LENGTH {
        joined.truncate(MAX_TEXT_LENGTH);
    }
    string_of(&joined)
}

/// A bounded body never exceeds the length bound, whatever the input, and
/// is built from at most the permitted number of lines.
pub proof fn lemma_bounded_body(body: Seq<char>)
    ensures
        bounded_body(body).len() <= MAX_TEXT_LENGTH,
        first_lines(split_on(body, '\n'), MAX_BODY_LINES as nat).len() <= MAX_BODY_LINES,
{
}

/// The first lines of a text, joined again, are the beginning of the text
/// joined from all lines.
pub proof fn lemma_first_lines_begin(lines: Seq<Seq<char>>, sep: Seq<char>, count: int)
    requires
        1 <= count <= lines.len(),
    ensures
        has_prefix(join_on(lines, sep), join_on(lines.take(count), sep)),
    decreases lines.len() - count,
{
    let whole = join_on(lines, sep);
    let shorter = join_on(lines.take(count), sep);
    if count < lines.len() {
        lemma_first_lines_begin(lines, sep, count + 1);
        let longer = join_on(lines.take(count + 1), sep);
        assert(lines.take(count + 1).drop_last() =~= lines.take(count));
        assert(longer.take(shorter.len() as int) =~= shorter);
        assert(whole.take(shorter.len() as int) =~= whole.take(longer.len() as int).take(
            shorter.len() as int,
        ));
    } else {
        assert(lines.take(count) =~= lines);
        assert(whole.take(whole.len() as int) =~= whole);
    }
}

/// What is shown of a body is the beginning of the body.
pub proof fn lemma_bounded_body_begins_body(body: Seq<char>)
    ensures
        has_prefix(body, bounded_body(body)),
{
    let lines = split_on(body, '\n');
    let kept = first_lines(lines, MAX_BODY_LINES as nat);
    let joined = join_on(kept, seq!['\n']);
    let shown = bounded_body(body);
    lemma_split_join(body, '\n');
    if lines.len() <= MAX_BODY_LINES {
        assert(body.take(body.len() as int) =~= body);
    } else {
        lemma_first_lines_begin(lines, seq!['\n'], MAX_BODY_LINES as int);
    }
    if joined.len() > MAX_TEXT_LENGTH {
        assert(body.take(shown.len() as int) =~= body.take(joined.len() as int).take(
            shown.len() as int,
        ));
    }
}

} // verus!
