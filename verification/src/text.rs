//! Lines of input: comparing them, trimming them, and reading an answer
//! to a yes-or-no question.

use vstd::prelude::*;
use vstd::string::*;
use vstd::utf8::*;

verus! {

/// Whether a character has the Unicode property White_Space.
pub uninterp spec fn white_space(c: char) -> bool;

/// The lowercase form of a text under the Unicode case mappings.
pub uninterp spec fn lowercase(text: Seq<char>) -> Seq<char>;

/// Calls `char::is_whitespace` of the standard library. Nothing is claimed
/// of the result but that it is the White_Space property of the character,
/// which the contracts of this module call `white_space`.
#[verifier::external_body]
fn is_white_space(c: char) -> (b: bool)
    ensures
        b == white_space(c),
{
    c.is_whitespace()
}

/// Calls `str::to_lowercase` of the standard library. Nothing is claimed of
/// the result but that it is the lowercase form of the argument, which the
/// contracts of this module call `lowercase`.
#[verifier::external_body]
fn to_lowercase(s: &str) -> (lower: String)
    ensures
        lower@ == lowercase(s@),
{
    s.to_lowercase()
}

/// The text without its leading white space.
pub open spec fn strip_front(text: Seq<char>) -> Seq<char>
    decreases text.len(),
{
    if text.len() > 0 && white_space(text[0]) {
        strip_front(text.drop_first())
    } else {
        text
    }
}

/// The text without its trailing white space.
pub open spec fn strip_back(text: Seq<char>) -> Seq<char>
    decreases text.len(),
{
    if text.len() > 0 && white_space(text.last()) {
        strip_back(text.drop_last())
    } else {
        text
    }
}

/// The text without the white space around it.
pub open spec fn trim_spec(text: Seq<char>) -> Seq<char> {
    strip_back(strip_front(text))
}

/// The one answer that asks for another round, once trimmed and lowercased.
pub open spec fn yes_token() -> Seq<char> {
    "y"@
}

/// Whether an answer asks for another round.
pub open spec fn wants_another_spec(answer: Seq<char>) -> bool {
    lowercase(trim_spec(answer)) == yes_token()
}

/// What is left of a text without its leading white space is the end of
/// the text, and does not begin with white space.
proof fn lemma_strip_front_suffix(text: Seq<char>)
    ensures
        strip_front(text).len() <= text.len(),
        strip_front(text) == text.subrange(
            text.len() - strip_front(text).len(),
            text.len() as int,
        ),
        strip_front(text).len() == 0 || !white_space(strip_front(text)[0]),
    decreases text.len(),
{
    if text.len() > 0 && white_space(text[0]) {
        let shorter = text.drop_first();
        lemma_strip_front_suffix(shorter);
        assert(shorter.subrange(shorter.len() - strip_front(shorter).len(), shorter.len() as int)
            =~= text.subrange(text.len() - strip_front(shorter).len(), text.len() as int));
    } else {
        assert(text.subrange(0, text.len() as int) =~= text);
    }
}

/// What is left of a text without its trailing white space is the
/// beginning of the text, and does not end with white space.
proof fn lemma_strip_back_prefix(text: Seq<char>)
    ensures
        strip_back(text).len() <= text.len(),
        strip_back(text) == text.take(strip_back(text).len() as int),
        strip_back(text).len() == 0 || !white_space(strip_back(text).last()),
    decreases text.len(),
{
    if text.len() > 0 && white_space(text.last()) {
        let shorter = text.drop_last();
        lemma_strip_back_prefix(shorter);
        assert(shorter.take(strip_back(shorter).len() as int) =~= text.take(
            strip_back(shorter).len() as int,
        ));
    } else {
        assert(text.take(text.len() as int) =~= text);
    }
}

/// A trimmed text is one piece of the text it was made of. It neither
/// begins nor ends with white space, so that trimming it again changes
/// nothing; an empty text stays empty.
pub proof fn law_trimmed_is_bare(text: Seq<char>)
    ensures
        exists|from: int, to: int|
            0 <= from <= to <= text.len() && trim_spec(text) == #[trigger] text.subrange(from, to),
        trim_spec(text).len() > 0 ==> !white_space(trim_spec(text)[0]) && !white_space(
            trim_spec(text).last(),
        ),
        trim_spec(trim_spec(text)) == trim_spec(text),
        text.len() == 0 ==> trim_spec(text) == text,
{
    let front = strip_front(text);
    lemma_strip_front_suffix(text);
    lemma_strip_back_prefix(front);
    let from = text.len() - front.len();
    let to = from + trim_spec(text).len();
    assert(front.take(trim_spec(text).len() as int) =~= text.subrange(from, to));
}

/// Whether two texts hold the same characters.
pub fn same_text(a: &str, b: &str) -> (same: bool)
    ensures
        same == (a@ == b@),
{
    let x: &[u8] = a.as_bytes();
    let y: &[u8] = b.as_bytes();
    proof {
        encode_utf8_decode_utf8(a@);
        encode_utf8_decode_utf8(b@);
    }
    if x.len() != y.len() {
        return false;
    }
    let mut i: usize = 0;
    while i < x.len()
        invariant
            i <= x.len(),
            x.len() == y.len(),
            x@ == encode_utf8(a@),
            y@ == encode_utf8(b@),
            decode_utf8(encode_utf8(a@)) == a@,
            decode_utf8(encode_utf8(b@)) == b@,
            forall|j: int| 0 <= j < i ==> x@[j] == y@[j],
        decreases x.len() - i,
    {
        if x[i] != y[i] {
            return false;
        }
        i = i + 1;
    }
    assert(x@ =~= y@);
    true
}

/// All of `text` from `from` up to, not including, `to` is white space.
spec fn all_white(text: Seq<char>, from: int, to: int) -> bool {
    forall|j: int| from <= j < to ==> white_space(#[trigger] text[j])
}

/// Leading white space ends where the first other character stands.
proof fn lemma_strip_front_at(text: Seq<char>, first: int)
    requires
        0 <= first <= text.len(),
        all_white(text, 0, first),
        first < text.len() ==> !white_space(text[first]),
    ensures
        strip_front(text) == text.subrange(first, text.len() as int),
    decreases first,
{
    if first == 0 {
        assert(text.subrange(0, text.len() as int) =~= text);
    } else {
        let rest = text.drop_first();
        assert(white_space(text[0]));
        assert forall|j: int| 0 <= j < first - 1 implies white_space(#[trigger] rest[j]) by {
            assert(rest[j] == text[j + 1]);
        }
        lemma_strip_front_at(rest, first - 1);
        assert(rest.subrange(first - 1, rest.len() as int) =~= text.subrange(
            first,
            text.len() as int,
        ));
    }
}

/// Trailing white space begins behind the last other character.
proof fn lemma_strip_back_at(text: Seq<char>, end: int)
    requires
        0 <= end <= text.len(),
        all_white(text, end, text.len() as int),
        end > 0 ==> !white_space(text[end - 1]),
    ensures
        strip_back(text) == text.take(end),
    decreases text.len() - end,
{
    if end == text.len() {
        assert(text.take(end) =~= text);
    } else {
        let rest = text.drop_last();
        assert(white_space(text[text.len() - 1]));
        assert forall|j: int| end <= j < rest.len() implies white_space(#[trigger] rest[j]) by {
            assert(rest[j] == text[j]);
        }
        lemma_strip_back_at(rest, end);
        assert(rest.take(end) =~= text.take(end));
    }
}

/// The line without the white space around it.
pub fn trim(line: &str) -> (inner: &str)
    ensures
        inner@ == trim_spec(line@),
{
    let total: usize = line.unicode_len();
    let mut first: usize = 0;
    let mut end: usize = 0;
    let mut i: usize = 0;
    for c in iter: line.chars()
        invariant
            iter.seq() == line@,
            i == iter.index(),
            total == line@.len(),
            first <= end <= i <= total,
            all_white(line@, 0, first as int),
            all_white(line@, end as int, i as int),
            first < end ==> !white_space(line@[first as int]) && !white_space(line@[end - 1]),
            first == end ==> end == i,
    {
        if is_white_space(c) {
            if first == end {
                first = i + 1;
                end = i + 1;
            }
        } else {
            if first == end {
                first = i;
            }
            end = i + 1;
        }
        i = i + 1;
    }
    proof {
        let text = line@;
        let tail = text.subrange(first as int, total as int);
        lemma_strip_front_at(text, first as int);
        assert forall|j: int| end - first <= j < tail.len() implies white_space(
            #[trigger] tail[j],
        ) by {
            assert(tail[j] == text[first + j]);
        }
        lemma_strip_back_at(tail, end - first);
        assert(tail.take(end - first) =~= text.subrange(first as int, end as int));
    }
    line.substring_char(first, end)
}

/// Whether a token is the lowercase letter y and nothing else.
pub fn is_yes(token: &str) -> (yes: bool)
    ensures
        yes == (token@ == yes_token()),
{
    same_text(token, "y")
}

/// Whether the answer to "another location?" asks for one: the answer
/// without the white space around it, in lowercase, is the letter y.
pub fn wants_another(answer: &str) -> (again: bool)
    ensures
        again == wants_another_spec(answer@),
{
    let lower: String = to_lowercase(trim(answer));
    is_yes(lower.as_str())
}

} // verus!
