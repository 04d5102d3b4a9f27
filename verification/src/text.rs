//! Character-level helpers shared by the rest of the library.
//!
//! Strings are modelled by their sequence of characters. Executable code
//! works on `Vec<char>` and converts at the edges.

use to_arraystring::ToArrayString;
use vstd::prelude::*;

verus! {

/// The characters of a string slice.
pub fn chars_of(s: &str) -> (v: Vec<char>)
    ensures
        v@ == s@,
{
    let mut v: Vec<char> = Vec::new();
    for c in it: s.chars()
        invariant
            it.seq() == s@,
            v@ == it.seq().take(it.index() as int),
    {
        v.push(c);
    }
    v
}

/// A string made of the given characters, through `String::from_iter`.
#[verifier::external_body]
pub(crate) fn string_of(v: &Vec<char>) -> (s: String)
    ensures
        s@ == v@,
{
    v.iter().collect()
}

/// The character sequences held by a vector of character vectors.
pub open spec fn rows(v: Seq<Vec<char>>) -> Seq<Seq<char>> {
    v.map_values(|row: Vec<char>| row@)
}

/// Appending a vector appends its characters to the rows.
pub proof fn lemma_rows_push(v: Seq<Vec<char>>, row: Vec<char>)
    ensures
        rows(v.push(row)) == rows(v).push(row@),
{
}

/// The character sequences held by a vector of strings.
pub open spec fn string_views(v: Seq<String>) -> Seq<Seq<char>> {
    v.map_values(|s: String| s@)
}

/// The characters of each string of a list.
pub fn string_rows(strings: &Vec<String>) -> (chars: Vec<Vec<char>>)
    ensures
        rows(chars@) == string_views(strings@),
{
    let mut chars: Vec<Vec<char>> = Vec::new();
    let mut i: usize = 0;
    while i < strings.len()
        invariant
            i <= strings.len(),
            rows(chars@) == string_views(strings@).take(i as int),
        decreases strings.len() - i,
    {
        let row = chars_of(strings[i].as_str());
        let ghost before = chars@;
        chars.push(row);
        i += 1;
        proof {
            lemma_rows_push(before, row);
        }
    }
    chars
}

/// Whether `text` begins with `prefix`.
pub open spec fn has_prefix(text: Seq<char>, prefix: Seq<char>) -> bool {
    prefix.len() <= text.len() && text.take(prefix.len() as int) == prefix
}

/// A text that begins with `prefix` followed by anything has that prefix.
pub proof fn lemma_concat_has_prefix(prefix: Seq<char>, rest: Seq<char>)
    ensures
        has_prefix(prefix + rest, prefix),
{
    assert((prefix + rest).take(prefix.len() as int) =~= prefix);
}

/// Two texts with the same front are equal exactly when their remainders are.
pub proof fn lemma_concat_cancel(front: Seq<char>, a: Seq<char>, b: Seq<char>)
    ensures
        (front + a == front + b) <==> a == b,
{
    if front + a == front + b {
        assert((front + a).skip(front.len() as int) =~= a);
        assert((front + b).skip(front.len() as int) =~= b);
    }
}

/// Whether two character vectors hold the same characters.
pub fn same_chars(a: &Vec<char>, b: &Vec<char>) -> (same: bool)
    ensures
        same == (a@ == b@),
{
    if a.len() != b.len() {
        return false;
    }
    let mut i: usize = 0;
    while i < a.len()
        invariant
            i <= a.len(),
            a.len() == b.len(),
            forall|k: int| 0 <= k < i ==> a@[k] == b@[k],
        decreases a.len() - i,
    {
        if a[i] != b[i] {
            return false;
        }
        i += 1;
    }
    assert(a@ =~= b@);
    true
}

/// Whether `text` begins with `prefix`.
pub fn begins_with(text: &Vec<char>, prefix: &Vec<char>) -> (begins: bool)
    ensures
        begins == has_prefix(text@, prefix@),
{
    if prefix.len() > text.len() {
        return false;
    }
    let mut i: usize = 0;
    while i < prefix.len()
        invariant
            i <= prefix.len() <= text.len(),
            forall|k: int| 0 <= k < i ==> text@[k] == prefix@[k],
        decreases prefix.len() - i,
    {
        if text[i] != prefix[i] {
            return false;
        }
        i += 1;
    }
    assert(text@.take(prefix.len() as int) =~= prefix@);
    true
}

/// What follows `prefix` in `text`, where `text` begins with it.
pub fn strip_prefix_chars(text: &Vec<char>, prefix: &Vec<char>) -> (rest: Option<Vec<char>>)
    ensures
        rest is Some <==> has_prefix(text@, prefix@),
        rest matches Some(r) ==> text@ == prefix@ + r@,
{
    if prefix.len() > text.len() {
        return None;
    }
    let mut i: usize = 0;
    while i < prefix.len()
        invariant
            i <= prefix.len() <= text.len(),
            forall|k: int| 0 <= k < i ==> text@[k] == prefix@[k],
        decreases prefix.len() - i,
    {
        if text[i] != prefix[i] {
            return None;
        }
        i += 1;
    }
    let mut rest: Vec<char> = Vec::new();
    let mut j: usize = prefix.len();
    while j < text.len()
        invariant
            prefix.len() <= j <= text.len(),
            rest@ == text@.subrange(prefix.len() as int, j as int),
        decreases text.len() - j,
    {
        rest.push(text[j]);
        j += 1;
    }
    proof {
        assert(text@.take(prefix.len() as int) =~= prefix@);
    }
    Some(rest)
}

/// Whether `needle` occurs somewhere in `text`.
pub open spec fn occurs_in(needle: Seq<char>, text: Seq<char>) -> bool {
    exists|at: int|
        0 <= at && at + needle.len() <= text.len() && #[trigger] text.subrange(
            at,
            at + needle.len(),
        ) == needle
}

fn matches_at(text: &Vec<char>, needle: &Vec<char>, at: usize) -> (matches: bool)
    requires
        at + needle.len() <= text.len(),
    ensures
        matches == (text@.subrange(at as int, at + needle.len()) == needle@),
{
    let mut k: usize = 0;
    while k < needle.len()
        invariant
            k <= needle.len(),
            at + needle.len() <= text.len(),
            forall|j: int| 0 <= j < k ==> text@[at + j] == needle@[j],
        decreases needle.len() - k,
    {
        if text[at + k] != needle[k] {
            return false;
        }
        k += 1;
    }
    assert(text@.subrange(at as int, at + needle.len()) =~= needle@);
    true
}

/// Whether `needle` occurs somewhere in `text`.
pub fn contains_text(text: &str, needle: &str) -> (found: bool)
    ensures
        found == occurs_in(needle@, text@),
{
    let text_chars = chars_of(text);
    let needle_chars = chars_of(needle);
    if needle_chars.len() > text_chars.len() {
        return false;
    }
    if needle_chars.len() == 0 {
        assert(text@.subrange(0int, 0int + needle@.len()) =~= needle@);
        return true;
    }
    let last = text_chars.len() - needle_chars.len();
    let mut at: usize = 0;
    while at <= last
        invariant
            at <= last + 1,
            last == text_chars.len() - needle_chars.len(),
            0 < needle_chars.len() <= text_chars.len(),
            text_chars@ == text@,
            needle_chars@ == needle@,
            forall|j: int|
                0 <= j < at ==> #[trigger] text@.subrange(j, j + needle@.len()) != needle@,
        decreases last + 1 - at,
    {
        if matches_at(&text_chars, &needle_chars, at) {
            return true;
        }
        at += 1;
    }
    false
}

/// Pieces of `s` between occurrences of `sep`. There is always at least one
/// piece; a trailing separator yields a final empty piece.
pub open spec fn split_on(s: Seq<char>, sep: char) -> Seq<Seq<char>>
    decreases s.len(),
{
    if s.len() == 0 {
        seq![Seq::<char>::empty()]
    } else {
        let before = split_on(s.drop_last(), sep);
        if s.last() == sep {
            before.push(Seq::<char>::empty())
        } else {
            before.drop_last().push(before.last().push(s.last()))
        }
    }
}

/// The pieces glued back together with `sep` between neighbours.
pub open spec fn join_on(parts: Seq<Seq<char>>, sep: Seq<char>) -> Seq<char>
    decreases parts.len(),
{
    if parts.len() == 0 {
        Seq::<char>::empty()
    } else if parts.len() == 1 {
        parts[0]
    } else {
        join_on(parts.drop_last(), sep) + sep + parts.last()
    }
}

/// Splitting a text and joining the pieces with the separator gives the
/// text back, and no piece holds the separator.
pub proof fn lemma_split_join(s: Seq<char>, sep: char)
    ensures
        split_on(s, sep).len() > 0,
        join_on(split_on(s, sep), seq![sep]) == s,
        forall|i: int|
            0 <= i < split_on(s, sep).len() ==> !(#[trigger] split_on(s, sep)[i]).contains(sep),
    decreases s.len(),
{
    if s.len() > 0 {
        let parts = split_on(s, sep);
        let front = s.drop_last();
        let before = split_on(front, sep);
        lemma_split_join(front, sep);
        assert(front.push(s.last()) =~= s);
        if s.last() == sep {
            assert(parts.drop_last() =~= before);
        } else {
            assert(parts.drop_last() =~= before.drop_last());
        }
    }
}

/// Splits `text` at every `sep`.
pub fn split_chars(text: &Vec<char>, sep: char) -> (parts: Vec<Vec<char>>)
    ensures
        rows(parts@) == split_on(text@, sep),
{
    let mut parts: Vec<Vec<char>> = Vec::new();
    let mut current: Vec<char> = Vec::new();
    let mut i: usize = 0;
    while i < text.len()
        invariant
            0 <= i <= text.len(),
            rows(parts@).push(current@) == split_on(text@.take(i as int), sep),
        decreases text.len() - i,
    {
        let c = text[i];
        proof {
            assert(text@.take(i + 1).drop_last() == text@.take(i as int));
        }
        if c == sep {
            parts.push(current);
            current = Vec::new();
        } else {
            current.push(c);
        }
        i += 1;
    }
    proof {
        assert(text@.take(i as int) =~= text@);
    }
    parts.push(current);
    parts
}

/// Glues `parts` together with `sep` between neighbours.
pub fn join_chars(parts: &Vec<Vec<char>>, sep: &Vec<char>) -> (joined: Vec<char>)
    ensures
        joined@ == join_on(rows(parts@), sep@),
{
    let mut joined: Vec<char> = Vec::new();
    let mut i: usize = 0;
    while i < parts.len()
        invariant
            i <= parts.len(),
            joined@ == join_on(rows(parts@).take(i as int), sep@),
        decreases parts.len() - i,
    {
        proof {
            let upto = rows(parts@).take(i + 1);
            assert(upto.drop_last() == rows(parts@).take(i as int));
        }
        if i > 0 {
            joined.extend_from_slice(sep.as_slice());
        }
        joined.extend_from_slice(parts[i].as_slice());
        i += 1;
    }
    proof {
        assert(rows(parts@).take(i as int) == rows(parts@));
    }
    joined
}

/// The lowercase form of a text, as `str::to_lowercase` of std gives it.
pub uninterp spec fn lowercase(s: Seq<char>) -> Seq<char>;

/// `str::to_lowercase`: the result depends on the text alone, and is known
/// to proofs only by the name [`lowercase`].
#[verifier::external_body]
pub(crate) fn to_lowercase(s: &str) -> (lower: String)
    ensures
        lower@ == lowercase(s@),
{
    s.to_lowercase()
}

/// The character that writes the digit `d`.
pub open spec fn digit_char(d: nat) -> char {
    if d == 0 {
        '0'
    } else if d == 1 {
        '1'
    } else if d == 2 {
        '2'
    } else if d == 3 {
        '3'
    } else if d == 4 {
        '4'
    } else if d == 5 {
        '5'
    } else if d == 6 {
        '6'
    } else if d == 7 {
        '7'
    } else if d == 8 {
        '8'
    } else {
        '9'
    }
}

/// `n` written in base ten, without sign or leading zeros.
pub open spec fn decimal(n: nat) -> Seq<char>
    decreases n,
{
    if n < 10 {
        seq![digit_char(n)]
    } else {
        decimal(n / 10).push(digit_char(n % 10))
    }
}

/// Whether `c` is one of the ten ASCII digits.
pub open spec fn is_digit(c: char) -> bool {
    '0' <= c <= '9'
}

/// The number that the digit `c` writes.
pub open spec fn digit_value(c: char) -> nat {
    (c as u32 - '0' as u32) as nat
}

/// Whether `s` holds ASCII digits only.
pub open spec fn all_digits(s: Seq<char>) -> bool {
    forall|i: int| 0 <= i < s.len() ==> is_digit(#[trigger] s[i])
}

/// The number that a run of digits writes in base ten.
pub open spec fn decimal_value(s: Seq<char>) -> nat
    decreases s.len(),
{
    if s.len() == 0 {
        0
    } else {
        10 * decimal_value(s.drop_last()) + digit_value(s.last())
    }
}

/// The number written by `s`, where `s` is a non-empty run of digits whose
/// value does not exceed `max`.
pub open spec fn parsed_decimal(s: Seq<char>, max: nat) -> Option<nat> {
    if s.len() > 0 && all_digits(s) && decimal_value(s) <= max {
        Some(decimal_value(s))
    } else {
        None
    }
}

/// A run of digits is worth at least as much as any of its prefixes.
pub proof fn lemma_decimal_value_prefix(s: Seq<char>, k: int)
    requires
        0 <= k <= s.len(),
    ensures
        decimal_value(s.take(k)) <= decimal_value(s),
    decreases s.len() - k,
{
    if k < s.len() {
        lemma_decimal_value_prefix(s, k + 1);
        assert(s.take(k + 1).drop_last() == s.take(k));
    } else {
        assert(s.take(k) == s);
    }
}

/// Writing a number and reading it back gives the number.
pub proof fn lemma_decimal_round_trip(n: nat)
    ensures
        decimal(n).len() > 0,
        all_digits(decimal(n)),
        decimal_value(decimal(n)) == n,
    decreases n,
{
    if n < 10 {
        assert(decimal_value(decimal(n).drop_last()) == 0);
    } else {
        lemma_decimal_round_trip(n / 10);
        let front = decimal(n / 10);
        assert(decimal(n).drop_last() =~= front);
    }
}

/// A run of digits followed by something that does not start with a digit
/// can be read in one way only: where two such texts are equal, so are
/// their digits and what follows them.
pub proof fn lemma_digits_then_rest(
    a: Seq<char>,
    rest_a: Seq<char>,
    b: Seq<char>,
    rest_b: Seq<char>,
)
    requires
        all_digits(a),
        all_digits(b),
        rest_a.len() > 0 && !is_digit(rest_a[0]),
        rest_b.len() > 0 && !is_digit(rest_b[0]),
        a + rest_a == b + rest_b,
    ensures
        a == b,
        rest_a == rest_b,
{
    let whole = a + rest_a;
    if a.len() < b.len() {
        assert(whole[a.len() as int] == rest_a[0]);
    } else if b.len() < a.len() {
        assert(whole[b.len() as int] == rest_b[0]);
    }
    assert(a =~= whole.take(a.len() as int));
    assert(rest_a =~= whole.skip(a.len() as int));
}

/// `u64::to_arraystring` of the `to-arraystring` crate, which writes an
/// integer in base ten as `ToString` does.
#[verifier::external_body]
pub(crate) fn decimal_string(n: u64) -> (s: String)
    ensures
        s@ == decimal(n as nat),
{
    n.to_arraystring().as_str().to_owned()
}

/// Reads a non-empty run of ASCII digits as a number. Anything else, and any
/// number above `u64::MAX`, gives `None`.
pub fn parse_decimal(chars: &Vec<char>) -> (value: Option<u64>)
    ensures
        value == match parsed_decimal(chars@, u64::MAX as nat) {
            Some(n) => Some(n as u64),
            None => None,
        },
{
    if chars.len() == 0 {
        return None;
    }
    let mut value: u64 = 0;
    let mut i: usize = 0;
    while i < chars.len()
        invariant
            i <= chars.len(),
            all_digits(chars@.take(i as int)),
            value == decimal_value(chars@.take(i as int)),
        decreases chars.len() - i,
    {
        let c = chars[i];
        if !(c >= '0' && c <= '9') {
            return None;
        }
        let d: u64 = (c as u32 - '0' as u32) as u64;
        proof {
            let upto = chars@.take(i + 1);
            assert(upto.drop_last() == chars@.take(i as int));
            lemma_decimal_value_prefix(chars@, i + 1);
        }
        if value > (u64::MAX - d) / 10 {
            return None;
        }
        value = value * 10 + d;
        i += 1;
    }
    proof {
        assert(chars@.take(i as int) == chars@);
    }
    Some(value)
}

/// Reads a non-empty run of ASCII digits as an index. Anything else, and any
/// number above `usize::MAX`, gives `None`.
pub fn parse_index(chars: &Vec<char>) -> (value: Option<usize>)
    ensures
        value == match parsed_decimal(chars@, usize::MAX as nat) {
            Some(n) => Some(n as usize),
            None => None,
        },
{
    match parse_decimal(chars) {
        Some(n) if n <= usize::MAX as u64 => Some(n as usize),
        _ => None,
    }
}

} // verus!
