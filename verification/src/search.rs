//! Finding and replacing text.
//!
//! Positions are counted in characters; what callers see as byte offsets are
//! offsets into the text's UTF-8 encoding.

use vstd::prelude::*;
use vstd::string::*;
use vstd::utf8::*;

use crate::strings::{chars_to_string, decimal, has_at, push_decimal, to_chars};

verus! {

/// Whether `needle` occurs in `text` at position `at`.
pub open spec fn occurs_at(text: Seq<char>, needle: Seq<char>, at: int) -> bool {
    &&& 0 <= at
    &&& at + needle.len() <= text.len()
    &&& text.subrange(at, at + needle.len()) == needle
}

/// The positions at or after `from` of the occurrences of `needle` in `text`
/// that a scan from left to right meets when it goes on behind each of them.
pub open spec fn matches_from(text: Seq<char>, needle: Seq<char>, from: int) -> Seq<int>
    decreases text.len() - from,
{
    if needle.len() == 0 || from + needle.len() > text.len() {
        Seq::empty()
    } else if occurs_at(text, needle, from) {
        seq![from] + matches_from(text, needle, from + needle.len())
    } else {
        matches_from(text, needle, from + 1)
    }
}

/// The positions of the non-overlapping occurrences of `needle` in `text`.
/// An empty needle occurs nowhere.
pub open spec fn all_matches(text: Seq<char>, needle: Seq<char>) -> Seq<int> {
    matches_from(text, needle, 0)
}

/// The number of line breaks in `s`.
pub open spec fn newlines(s: Seq<char>) -> nat
    decreases s.len(),
{
    if s.len() == 0 {
        0
    } else {
        newlines(s.drop_last()) + if s.last() == '\n' {
            1nat
        } else {
            0nat
        }
    }
}

/// The number of characters of `s` behind its last line break.
pub open spec fn last_line_len(s: Seq<char>) -> nat
    decreases s.len(),
{
    if s.len() == 0 || s.last() == '\n' {
        0
    } else {
        last_line_len(s.drop_last()) + 1
    }
}

/// The line, counted from 0, on which position `at` of `text` lies.
pub open spec fn line_of(text: Seq<char>, at: int) -> nat {
    newlines(text.take(at))
}

/// The lines of all matches, in order.
pub open spec fn match_lines(text: Seq<char>, needle: Seq<char>) -> Seq<nat> {
    all_matches(text, needle).map_values(|at: int| line_of(text, at))
}

/// The number of bytes that `s` takes in UTF-8.
pub open spec fn byte_len(s: Seq<char>) -> nat {
    encode_utf8(s).len()
}

/// `text` with the occurrence of `needle` at `at` replaced.
pub open spec fn replaced_at(
    text: Seq<char>,
    needle: Seq<char>,
    replacement: Seq<char>,
    at: int,
) -> Seq<char> {
    text.take(at) + replacement + text.skip(at + needle.len())
}

/// `text` from position `from` on with every match there replaced.
pub open spec fn replaced_from(
    text: Seq<char>,
    needle: Seq<char>,
    replacement: Seq<char>,
    from: int,
) -> Seq<char>
    decreases text.len() - from,
{
    if needle.len() == 0 || from + needle.len() > text.len() {
        text.skip(from)
    } else if occurs_at(text, needle, from) {
        replacement + replaced_from(text, needle, replacement, from + needle.len())
    } else {
        seq![text[from]] + replaced_from(text, needle, replacement, from + 1)
    }
}

/// `text` with every match of `needle` replaced.
pub open spec fn replaced_all(
    text: Seq<char>,
    needle: Seq<char>,
    replacement: Seq<char>,
) -> Seq<char> {
    replaced_from(text, needle, replacement, 0)
}

// ---------------------------------------------------------------------------
// Laws
// ---------------------------------------------------------------------------

/// The matches found from `from` on are occurrences at or after `from`, no two
/// of them overlap, and they stand in ascending order.
pub proof fn lemma_matches_from(text: Seq<char>, needle: Seq<char>, from: int)
    requires
        0 <= from,
    ensures
        forall|k: int|
            0 <= k < matches_from(text, needle, from).len() ==> from <= #[trigger] matches_from(
                text,
                needle,
                from,
            )[k] && occurs_at(text, needle, matches_from(text, needle, from)[k]),
        forall|j: int, k: int|
            0 <= j < k < matches_from(text, needle, from).len() ==> #[trigger] matches_from(
                text,
                needle,
                from,
            )[j] + needle.len() <= #[trigger] matches_from(text, needle, from)[k],
    decreases text.len() - from,
{
    if needle.len() == 0 || from + needle.len() > text.len() {
    } else if occurs_at(text, needle, from) {
        lemma_matches_from(text, needle, from + needle.len());
        let rest = matches_from(text, needle, from + needle.len());
        let all = matches_from(text, needle, from);
        assert(all == seq![from] + rest);
        assert forall|k: int| 0 <= k < all.len() implies from <= #[trigger] all[k] && occurs_at(
            text,
            needle,
            all[k],
        ) by {
            if k > 0 {
                assert(all[k] == rest[k - 1]);
            }
        }
        assert forall|j: int, k: int| 0 <= j < k < all.len() implies #[trigger] all[j]
            + needle.len() <= #[trigger] all[k] by {
            assert(all[k] == rest[k - 1]);
            if j > 0 {
                assert(all[j] == rest[j - 1]);
            }
        }
    } else {
        lemma_matches_from(text, needle, from + 1);
        assert(matches_from(text, needle, from) == matches_from(text, needle, from + 1));
    }
}

/// Every listed match is an occurrence of the needle, and the matches are
/// disjoint and ascending.
pub proof fn law_matches_are_disjoint_occurrences(text: Seq<char>, needle: Seq<char>)
    ensures
        forall|k: int|
            0 <= k < all_matches(text, needle).len() ==> occurs_at(
                text,
                needle,
                #[trigger] all_matches(text, needle)[k],
            ),
        forall|j: int, k: int|
            0 <= j < k < all_matches(text, needle).len() ==> #[trigger] all_matches(
                text,
                needle,
            )[j] + needle.len() <= #[trigger] all_matches(text, needle)[k],
{
    lemma_matches_from(text, needle, 0);
}

proof fn lemma_matches_cover(text: Seq<char>, needle: Seq<char>, from: int, at: int) -> (k: int)
    requires
        needle.len() > 0,
        0 <= from <= at,
        occurs_at(text, needle, at),
    ensures
        0 <= k < matches_from(text, needle, from).len(),
        matches_from(text, needle, from)[k] <= at < matches_from(text, needle, from)[k]
            + needle.len(),
    decreases text.len() - from,
{
    if occurs_at(text, needle, from) {
        if at < from + needle.len() {
            0
        } else {
            let k = lemma_matches_cover(text, needle, from + needle.len(), at);
            k + 1
        }
    } else {
        lemma_matches_cover(text, needle, from + 1, at)
    }
}

/// No occurrence is missed: each one is listed or overlaps a listed one that
/// starts before it.
pub proof fn law_every_occurrence_is_covered(text: Seq<char>, needle: Seq<char>, at: int)
    requires
        needle.len() > 0,
        occurs_at(text, needle, at),
    ensures
        exists|k: int|
            0 <= k < all_matches(text, needle).len() && #[trigger] all_matches(text, needle)[k]
                <= at < all_matches(text, needle)[k] + needle.len(),
{
    let k = lemma_matches_cover(text, needle, 0, at);
    assert(all_matches(text, needle)[k] <= at);
}

proof fn lemma_replaced_from_len(
    text: Seq<char>,
    needle: Seq<char>,
    replacement: Seq<char>,
    from: int,
)
    requires
        0 <= from <= text.len(),
    ensures
        replaced_from(text, needle, replacement, from).len() == text.len() - from + matches_from(
            text,
            needle,
            from,
        ).len() * (replacement.len() - needle.len()),
    decreases text.len() - from,
{
    let d = replacement.len() - needle.len();
    if needle.len() == 0 || from + needle.len() > text.len() {
    } else if occurs_at(text, needle, from) {
        lemma_replaced_from_len(text, needle, replacement, from + needle.len());
        let n = matches_from(text, needle, from + needle.len()).len();
        assert((n + 1) * d == n * d + d) by (nonlinear_arith);
    } else {
        lemma_replaced_from_len(text, needle, replacement, from + 1);
    }
}

/// Replacing all matches changes the length of the text by the difference of
/// the two lengths, once for each match.
pub proof fn law_replace_all_length(
    text: Seq<char>,
    needle: Seq<char>,
    replacement: Seq<char>,
)
    ensures
        replaced_all(text, needle, replacement).len() == text.len() + all_matches(
            text,
            needle,
        ).len() * (replacement.len() - needle.len()),
{
    lemma_replaced_from_len(text, needle, replacement, 0);
}

proof fn lemma_replaced_from_identity(text: Seq<char>, needle: Seq<char>, from: int)
    requires
        0 <= from <= text.len(),
    ensures
        replaced_from(text, needle, needle, from) == text.skip(from),
    decreases text.len() - from,
{
    if needle.len() == 0 || from + needle.len() > text.len() {
    } else if occurs_at(text, needle, from) {
        lemma_replaced_from_identity(text, needle, from + needle.len());
        assert(needle + text.skip(from + needle.len()) =~= text.skip(from)) by {
            assert forall|i: int| 0 <= i < needle.len() implies text[from + i] == needle[i] by {
                assert(text.subrange(from, from + needle.len())[i] == needle[i]);
            }
        }
    } else {
        lemma_replaced_from_identity(text, needle, from + 1);
        assert(seq![text[from]] + text.skip(from + 1) =~= text.skip(from));
    }
}

/// Replacing a needle by itself gives the text back.
pub proof fn law_replace_all_by_itself(text: Seq<char>, needle: Seq<char>)
    ensures
        replaced_all(text, needle, needle) == text,
{
    lemma_replaced_from_identity(text, needle, 0);
    assert(text.skip(0) =~= text);
}

proof fn lemma_replaced_from_without_match(
    text: Seq<char>,
    needle: Seq<char>,
    replacement: Seq<char>,
    from: int,
)
    requires
        0 <= from <= text.len(),
        matches_from(text, needle, from).len() == 0,
    ensures
        replaced_from(text, needle, replacement, from) == text.skip(from),
    decreases text.len() - from,
{
    if needle.len() == 0 || from + needle.len() > text.len() {
    } else {
        lemma_replaced_from_without_match(text, needle, replacement, from + 1);
        assert(seq![text[from]] + text.skip(from + 1) =~= text.skip(from));
    }
}

/// Where nothing matches, nothing is replaced.
pub proof fn law_replace_all_without_match(
    text: Seq<char>,
    needle: Seq<char>,
    replacement: Seq<char>,
)
    requires
        all_matches(text, needle).len() == 0,
    ensures
        replaced_all(text, needle, replacement) == text,
{
    lemma_replaced_from_without_match(text, needle, replacement, 0);
    assert(text.skip(0) =~= text);
}

/// A later position lies on the same line or a later one.
pub proof fn lemma_line_of_monotonic(text: Seq<char>, i: int, j: int)
    requires
        0 <= i <= j <= text.len(),
    ensures
        line_of(text, i) <= line_of(text, j),
    decreases j - i,
{
    if i < j {
        lemma_line_of_monotonic(text, i, j - 1);
        assert(text.take(j).drop_last() =~= text.take(j - 1));
    }
}

/// There is one line for each match, the lines never decrease, and each is a
/// line of the text.
pub proof fn law_match_lines(text: Seq<char>, needle: Seq<char>)
    ensures
        match_lines(text, needle).len() == all_matches(text, needle).len(),
        forall|j: int, k: int|
            0 <= j <= k < match_lines(text, needle).len() ==> #[trigger] match_lines(
                text,
                needle,
            )[j] <= #[trigger] match_lines(text, needle)[k],
        forall|k: int|
            0 <= k < match_lines(text, needle).len() ==> #[trigger] match_lines(text, needle)[k]
                <= newlines(text),
{
    lemma_matches_from(text, needle, 0);
    let m = all_matches(text, needle);
    assert forall|j: int, k: int| 0 <= j <= k < m.len() implies #[trigger] match_lines(
        text,
        needle,
    )[j] <= #[trigger] match_lines(text, needle)[k] by {
        assert(m[j] <= m[k]);
        lemma_line_of_monotonic(text, m[j], m[k]);
    }
    assert forall|k: int| 0 <= k < m.len() implies #[trigger] match_lines(text, needle)[k]
        <= newlines(text) by {
        assert(occurs_at(text, needle, m[k]));
        lemma_line_of_monotonic(text, m[k], text.len() as int);
        assert(text.take(text.len() as int) =~= text);
    }
}

/// Replacing one occurrence and then putting the needle back in its place
/// gives the text back.
pub proof fn law_replace_one_undone(
    text: Seq<char>,
    needle: Seq<char>,
    replacement: Seq<char>,
    at: int,
)
    requires
        occurs_at(text, needle, at),
    ensures
        occurs_at(replaced_at(text, needle, replacement, at), replacement, at),
        replaced_at(replaced_at(text, needle, replacement, at), replacement, needle, at) == text,
{
    let new = replaced_at(text, needle, replacement, at);
    assert(new.subrange(at, at + replacement.len()) =~= replacement);
    assert(new.take(at) =~= text.take(at));
    assert(new.skip(at + replacement.len()) =~= text.skip(at + needle.len()));
    assert(text.take(at) + needle + text.skip(at + needle.len()) =~= text) by {
        assert forall|i: int| 0 <= i < needle.len() implies text[at + i] == needle[i] by {
            assert(text.subrange(at, at + needle.len())[i] == needle[i]);
        }
    }
}

// ---------------------------------------------------------------------------
// Searching
// ---------------------------------------------------------------------------

/// The positions of all matches.
pub fn match_positions(text: &Vec<char>, needle: &Vec<char>) -> (r: Vec<usize>)
    ensures
        r@.len() == all_matches(text@, needle@).len(),
        forall|k: int| 0 <= k < r@.len() ==> #[trigger] r@[k] == all_matches(text@, needle@)[k],
{
    let mut r: Vec<usize> = Vec::new();
    if needle.len() == 0 {
        return r;
    }
    let n: usize = text.len();
    let mut i: usize = 0;
    assert(r@.map_values(|p: usize| p as int) + matches_from(text@, needle@, 0) =~= all_matches(
        text@,
        needle@,
    ));
    while i < n && needle.len() <= n - i
        invariant
            n == text@.len(),
            0 < needle@.len(),
            i <= n,
            r@.map_values(|p: usize| p as int) + matches_from(text@, needle@, i as int)
                == all_matches(text@, needle@),
        decreases n - i,
    {
        let ghost before = r@.map_values(|p: usize| p as int);
        if has_at(text, i, needle) {
            assert(text@.skip(i as int).subrange(0, needle@.len() as int) =~= text@.subrange(
                i as int,
                i + needle@.len(),
            ));
            r.push(i);
            assert(r@.map_values(|p: usize| p as int) =~= before.push(i as int));
            assert(before + (seq![i as int] + matches_from(text@, needle@, i + needle@.len()))
                =~= before.push(i as int) + matches_from(text@, needle@, i + needle@.len()));
            i += needle.len();
        } else {
            assert(!occurs_at(text@, needle@, i as int)) by {
                if occurs_at(text@, needle@, i as int) {
                    assert(text@.skip(i as int).subrange(0, needle@.len() as int) =~= needle@);
                }
            }
            i += 1;
        }
    }
    assert(r@.map_values(|p: usize| p as int) =~= all_matches(text@, needle@));
    assert forall|k: int| 0 <= k < r@.len() implies #[trigger] r@[k] == all_matches(
        text@,
        needle@,
    )[k] by {
        assert(r@.map_values(|p: usize| p as int)[k] == r@[k]);
    }
    r
}

/// The number of matches of `needle` in `text`.
pub fn count_matches(text: &str, needle: &str) -> (r: usize)
    ensures
        r == all_matches(text@, needle@).len(),
{
    match_positions(&to_chars(text), &to_chars(needle)).len()
}

/// The number of bytes that `c` takes in UTF-8.
pub open spec fn char_len(c: char) -> nat {
    encode_scalar(c as u32).len()
}

/// The number of bytes that `c` takes in UTF-8.
pub fn char_width(c: char) -> (r: usize)
    ensures
        r == char_len(c),
        1 <= r <= 4,
{
    let v: u32 = c as u32;
    proof {
        char_is_scalar(c);
    }
    if v <= 0x7f {
        1
    } else if v <= 0x7ff {
        2
    } else if v <= 0xffff {
        3
    } else {
        4
    }
}

proof fn lemma_encode_concat(a: Seq<char>, b: Seq<char>)
    ensures
        encode_utf8(a + b) == encode_utf8(a) + encode_utf8(b),
    decreases a.len(),
{
    if a.len() == 0 {
        assert(a + b =~= b);
        assert(encode_utf8(a) + encode_utf8(b) =~= encode_utf8(b));
    } else {
        lemma_encode_concat(a.drop_first(), b);
        assert((a + b).drop_first() =~= a.drop_first() + b);
        assert(encode_scalar(a[0] as u32) + (encode_utf8(a.drop_first()) + encode_utf8(b))
            =~= encode_scalar(a[0] as u32) + encode_utf8(a.drop_first()) + encode_utf8(b));
    }
}

/// A prefix takes no more bytes than the whole, and one character more takes
/// that character's bytes more.
pub proof fn lemma_byte_len_prefix(s: Seq<char>, i: int)
    requires
        0 <= i <= s.len(),
    ensures
        byte_len(s.take(i)) <= byte_len(s),
        i < s.len() ==> byte_len(s.take(i + 1)) == byte_len(s.take(i)) + encode_scalar(
            s[i] as u32,
        ).len(),
{
    lemma_encode_concat(s.take(i), s.skip(i));
    assert(s.take(i) + s.skip(i) =~= s);
    if i < s.len() {
        let c = seq![s[i]];
        lemma_encode_concat(s.take(i), c);
        assert(s.take(i) + c =~= s.take(i + 1));
        assert(c.drop_first() =~= Seq::<char>::empty());
        assert(encode_utf8(c) =~= encode_scalar(s[i] as u32)) by {
            reveal_with_fuel(encode_utf8, 2);
        }
    }
}

/// The byte offset at which the `match_index`-th match of `needle` starts;
/// `None` where `needle` is empty or there are fewer matches.
pub fn find_match_byte_offset(text: &str, needle: &str, match_index: usize) -> (r: Option<usize>)
    ensures
        match r {
            Some(offset) => {
                &&& match_index < all_matches(text@, needle@).len()
                &&& offset == byte_len(text@.take(all_matches(text@, needle@)[match_index as int]))
            },
            None => match_index >= all_matches(text@, needle@).len(),
        },
{
    let chars: Vec<char> = to_chars(text);
    let positions: Vec<usize> = match_positions(&chars, &to_chars(needle));
    if match_index >= positions.len() {
        return None;
    }
    let at: usize = positions[match_index];
    proof {
        lemma_matches_from(text@, needle@, 0);
        assert(occurs_at(text@, needle@, all_matches(text@, needle@)[match_index as int]));
    }
    let total: usize = text.as_bytes().len();
    let mut offset: usize = 0;
    let mut i: usize = 0;
    assert(chars@.take(0) =~= Seq::<char>::empty());
    while i < at
        invariant
            i <= at <= chars@.len(),
            total == byte_len(chars@),
            offset == byte_len(chars@.take(i as int)),
        decreases at - i,
    {
        proof {
            lemma_byte_len_prefix(chars@, i as int);
            lemma_byte_len_prefix(chars@, i + 1);
        }
        offset += char_width(chars[i]);
        i += 1;
    }
    Some(offset)
}

/// The characters that the first `byte_offset` bytes of `text` encode.
pub open spec fn prefix_at(text: Seq<char>, byte_offset: int) -> Seq<char> {
    decode_utf8(encode_utf8(text).take(byte_offset))
}

/// The line and the column, both counted from 0, the column in characters, of
/// the place `byte_offset` bytes into `text`.
pub fn byte_offset_to_position(text: &str, byte_offset: usize) -> (r: (usize, usize))
    requires
        is_char_boundary(text.spec_bytes(), byte_offset as int),
    ensures
        r.0 == newlines(prefix_at(text@, byte_offset as int)),
        r.1 == last_line_len(prefix_at(text@, byte_offset as int)),
{
    let parts: (&str, &str) = text.split_at(byte_offset);
    let chars: Vec<char> = to_chars(parts.0);
    proof {
        encode_utf8_decode_utf8(parts.0@);
        assert(text.spec_bytes().subrange(0, byte_offset as int) =~= encode_utf8(text@).take(
            byte_offset as int,
        ));
        assert(chars@.take(chars@.len() as int) =~= chars@);
    }
    position_after(&chars, chars.len())
}

/// The line and the column right behind the first `at` characters of `chars`.
fn position_after(chars: &Vec<char>, at: usize) -> (r: (usize, usize))
    requires
        at <= chars@.len(),
    ensures
        r.0 == newlines(chars@.take(at as int)),
        r.1 == last_line_len(chars@.take(at as int)),
{
    let mut line: usize = 0;
    let mut col: usize = 0;
    let mut i: usize = 0;
    while i < at
        invariant
            i <= at <= chars@.len(),
            line <= i,
            col <= i,
            line == newlines(chars@.take(i as int)),
            col == last_line_len(chars@.take(i as int)),
        decreases at - i,
    {
        assert(chars@.take(i + 1).drop_last() =~= chars@.take(i as int));
        if chars[i] == '\n' {
            line += 1;
            col = 0;
        } else {
            col += 1;
        }
        i += 1;
    }
    (line, col)
}

/// The lines, counted from 0, of all matches of `needle` in `text`.
pub fn collect_all_match_lines(text: &str, needle: &str) -> (r: Vec<usize>)
    ensures
        r@.len() == match_lines(text@, needle@).len(),
        forall|k: int| 0 <= k < r@.len() ==> #[trigger] r@[k] == match_lines(text@, needle@)[k],
        forall|k: int| 0 <= k < r@.len() ==> #[trigger] r@[k] < usize::MAX,
{
    let chars: Vec<char> = to_chars(text);
    let positions: Vec<usize> = match_positions(&chars, &to_chars(needle));
    proof {
        lemma_matches_from(text@, needle@, 0);
    }
    let ghost m = all_matches(text@, needle@);
    let n: usize = chars.len();
    let mut r: Vec<usize> = Vec::new();
    let mut line: usize = 0;
    let mut i: usize = 0;
    let mut k: usize = 0;
    assert(chars@.take(0) =~= Seq::<char>::empty());
    while k < positions.len()
        invariant
            chars@ == text@,
            n == chars@.len(),
            m == all_matches(text@, needle@),
            m.len() > 0 ==> needle@.len() > 0,
            positions@.len() == m.len(),
            forall|j: int| 0 <= j < m.len() ==> #[trigger] positions@[j] == m[j],
            forall|j: int| 0 <= j < m.len() ==> occurs_at(text@, needle@, #[trigger] m[j]),
            forall|j: int, l: int| 0 <= j < l < m.len() ==> m[j] + needle@.len() <= m[l],
            k <= m.len(),
            r@.len() == k,
            forall|j: int| 0 <= j < k ==> #[trigger] r@[j] == line_of(text@, m[j]),
            forall|j: int| 0 <= j < k ==> #[trigger] r@[j] < usize::MAX,
            line <= i <= chars@.len(),
            line == newlines(chars@.take(i as int)),
            k > 0 ==> i == m[k - 1],
            k == 0 ==> i == 0,
        decreases positions@.len() - k,
    {
        let at: usize = positions[k];
        assert(occurs_at(text@, needle@, m[k as int]));
        assert(i <= at) by {
            if k > 0 {
                assert(m[k - 1] + needle@.len() <= m[k as int]);
            }
        }
        while i < at
            invariant
                i <= at <= chars@.len(),
                line <= i,
                line == newlines(chars@.take(i as int)),
            decreases at - i,
        {
            assert(chars@.take(i + 1).drop_last() =~= chars@.take(i as int));
            if chars[i] == '\n' {
                line += 1;
            }
            i += 1;
        }
        r.push(line);
        k += 1;
    }
    r
}

proof fn lemma_prefix_boundary(text: Seq<char>, i: int)
    requires
        0 <= i <= text.len(),
    ensures
        is_char_boundary(encode_utf8(text), byte_len(text.take(i)) as int),
    decreases i,
{
    let bytes = encode_utf8(text);
    encode_utf8_valid_utf8(text);
    if i == 0 {
        assert(text.take(0) =~= Seq::<char>::empty());
    } else {
        let rest = text.drop_first();
        lemma_prefix_boundary(rest, i - 1);
        encode_utf8_first_scalar(text);
        assert(pop_first_scalar(bytes) =~= encode_utf8(rest));
        assert(text.take(i).drop_first() =~= rest.take(i - 1));
        lemma_byte_len_prefix(text, i);
    }
}

/// The place at which the first `i` characters of a text end is a character
/// boundary, and those characters stand in front of it.
pub proof fn law_prefix_at_its_byte_length(text: Seq<char>, i: int)
    requires
        0 <= i <= text.len(),
    ensures
        is_char_boundary(encode_utf8(text), byte_len(text.take(i)) as int),
        prefix_at(text, byte_len(text.take(i)) as int) == text.take(i),
{
    lemma_prefix_boundary(text, i);
    lemma_encode_concat(text.take(i), text.skip(i));
    assert(text.take(i) + text.skip(i) =~= text);
    assert(encode_utf8(text).take(byte_len(text.take(i)) as int) =~= encode_utf8(text.take(i)));
    encode_utf8_decode_utf8(text.take(i));
}

/// The number of characters of `s` in front of its first line break.
pub open spec fn first_line_len(s: Seq<char>) -> nat
    decreases s.len(),
{
    if s.len() == 0 || s[0] == '\n' {
        0
    } else {
        1 + first_line_len(s.skip(1))
    }
}

/// The place at which line `line` of `text`, counted from 0, starts.
pub open spec fn line_start(text: Seq<char>, line: nat) -> nat
    decreases line,
{
    if line == 0 {
        0
    } else {
        let before = line_start(text, (line - 1) as nat);
        before + first_line_len(text.skip(before as int)) + 1
    }
}

/// The characters of line `line` of `text`.
pub open spec fn line_text(text: Seq<char>, line: nat) -> Seq<char> {
    let rest = text.skip(line_start(text, line) as int);
    rest.take(first_line_len(rest) as int)
}

proof fn lemma_first_line_len(s: Seq<char>, k: int)
    requires
        0 <= k <= s.len(),
        forall|i: int| 0 <= i < k ==> #[trigger] s[i] != '\n',
    ensures
        k <= first_line_len(s) <= s.len(),
        k < s.len() && s[k] == '\n' ==> first_line_len(s) == k,
    decreases s.len(),
{
    if s.len() > 0 && s[0] != '\n' {
        let rest = s.skip(1);
        let j = if k == 0 {
            0
        } else {
            k - 1
        };
        assert forall|i: int| 0 <= i < j implies #[trigger] rest[i] != '\n' by {
            assert(rest[i] == s[i + 1]);
        }
        lemma_first_line_len(rest, j);
    }
}

/// The last line of the first `i` characters starts where that line of the text
/// starts, and does not end before.
proof fn lemma_last_line_starts(text: Seq<char>, i: int)
    requires
        0 <= i <= text.len(),
    ensures
        ({
            let p = text.take(i);
            let start = line_start(text, newlines(p)) as int;
            &&& last_line_len(p) <= i
            &&& start == i - last_line_len(p)
            &&& forall|k: int| start <= k < i ==> #[trigger] text[k] != '\n'
        }),
    decreases i,
{
    let p = text.take(i);
    if i > 0 {
        assert(p.drop_last() =~= text.take(i - 1));
        assert(p.last() == text[i - 1]);
        lemma_last_line_starts(text, i - 1);
        if text[i - 1] == '\n' {
            let before = line_start(text, newlines(text.take(i - 1))) as int;
            let rest = text.skip(before);
            assert forall|k: int| 0 <= k < i - 1 - before implies #[trigger] rest[k] != '\n' by {
                assert(rest[k] == text[before + k]);
            }
            assert(rest[i - 1 - before] == '\n');
            lemma_first_line_len(rest, i - 1 - before);
        }
    }
}

/// The characters in front of a character boundary take as many bytes as the
/// boundary says, and the text starts with them.
proof fn lemma_prefix_at(text: Seq<char>, byte_offset: int)
    requires
        is_char_boundary(encode_utf8(text), byte_offset),
    ensures
        byte_len(prefix_at(text, byte_offset)) == byte_offset,
        prefix_at(text, byte_offset).len() <= text.len(),
        prefix_at(text, byte_offset) == text.take(prefix_at(text, byte_offset).len() as int),
{
    let bytes = encode_utf8(text);
    encode_utf8_valid_utf8(text);
    encode_utf8_decode_utf8(text);
    valid_utf8_split(bytes, byte_offset);
    decode_utf8_split(bytes, byte_offset);
    assert(bytes.take(byte_offset) =~= bytes.subrange(0, byte_offset));
    decode_utf8_encode_utf8(bytes.take(byte_offset));
    let p = prefix_at(text, byte_offset);
    assert(text == p + decode_utf8(bytes.subrange(byte_offset, bytes.len() as int)));
    assert(p =~= text.take(p.len() as int));
}

/// Line and column give the byte offset back: it is what the lines before take,
/// line breaks included, and what the characters in front of the column take,
/// of which the line has so many.
pub proof fn law_position_gives_offset_back(text: Seq<char>, byte_offset: int)
    requires
        is_char_boundary(encode_utf8(text), byte_offset),
    ensures
        ({
            let line = newlines(prefix_at(text, byte_offset));
            let column = last_line_len(prefix_at(text, byte_offset));
            &&& column <= line_text(text, line).len()
            &&& byte_offset == byte_len(text.take(line_start(text, line) as int)) + byte_len(
                line_text(text, line).take(column as int),
            )
        }),
{
    lemma_prefix_at(text, byte_offset);
    let p = prefix_at(text, byte_offset);
    let i = p.len() as int;
    lemma_last_line_starts(text, i);
    let start = line_start(text, newlines(p)) as int;
    let column = last_line_len(p) as int;
    let rest = text.skip(start);
    assert forall|k: int| 0 <= k < column implies #[trigger] rest[k] != '\n' by {
        assert(rest[k] == text[start + k]);
    }
    lemma_first_line_len(rest, column);
    assert(text.take(start) + line_text(text, newlines(p)).take(column) =~= p);
    lemma_encode_concat(text.take(start), line_text(text, newlines(p)).take(column));
}

/// A larger byte offset is a place further on: on a later line, or further
/// along on the same line.
pub proof fn law_larger_offset_is_further_on(text: Seq<char>, a: int, b: int)
    requires
        is_char_boundary(encode_utf8(text), a),
        is_char_boundary(encode_utf8(text), b),
        a < b,
    ensures
        ({
            let p = prefix_at(text, a);
            let q = prefix_at(text, b);
            newlines(p) < newlines(q) || (newlines(p) == newlines(q) && last_line_len(p)
                < last_line_len(q))
        }),
{
    lemma_prefix_at(text, a);
    lemma_prefix_at(text, b);
    let i = prefix_at(text, a).len() as int;
    let j = prefix_at(text, b).len() as int;
    if j <= i {
        lemma_byte_len_prefix(text.take(i), j);
        assert(text.take(i).take(j) =~= text.take(j));
    }
    lemma_line_of_monotonic(text, i, j);
    lemma_last_line_starts(text, i);
    lemma_last_line_starts(text, j);
}

/// The line and the column, both counted from 0, at which the
/// `match_index`-th match of `needle` starts.
pub open spec fn match_position(
    text: Seq<char>,
    needle: Seq<char>,
    match_index: int,
) -> Option<(nat, nat)> {
    if 0 <= match_index < all_matches(text, needle).len() {
        let prefix = text.take(all_matches(text, needle)[match_index]);
        Some((newlines(prefix), last_line_len(prefix)))
    } else {
        None
    }
}

/// Where the `match_index`-th match of `needle` in `text` starts.
pub fn find_match_position(text: &str, needle: &str, match_index: usize) -> (r: Option<
    (usize, usize),
>)
    ensures
        match r {
            Some(p) => match_position(text@, needle@, match_index as int) == Some(
                (p.0 as nat, p.1 as nat),
            ),
            None => match_position(text@, needle@, match_index as int) is None,
        },
        r matches Some(p) ==> p.0 < usize::MAX,
{
    match find_match_byte_offset(text, needle, match_index) {
        Some(offset) => {
            proof {
                lemma_matches_from(text@, needle@, 0);
                let at = all_matches(text@, needle@)[match_index as int];
                assert(occurs_at(text@, needle@, at));
                law_prefix_at_its_byte_length(text@, at);
                lemma_matches_nonempty_needle(text@, needle@);
                lemma_newlines_bound(text@.take(at));
            }
            let total: usize = to_chars(text).len();
            Some(byte_offset_to_position(text, offset))
        },
        None => None,
    }
}

proof fn lemma_matches_nonempty_needle(text: Seq<char>, needle: Seq<char>)
    ensures
        all_matches(text, needle).len() > 0 ==> needle.len() > 0,
{
}

/// There are no more line breaks than characters.
pub proof fn lemma_newlines_bound(s: Seq<char>)
    ensures
        newlines(s) <= s.len(),
    decreases s.len(),
{
    if s.len() > 0 {
        lemma_newlines_bound(s.drop_last());
    }
}

// ---------------------------------------------------------------------------
// Replacing
// ---------------------------------------------------------------------------

/// `text` with its `match_index`-th match of `needle` replaced; `None` where
/// there is no such match.
pub fn replace_match(text: &str, needle: &str, replacement: &str, match_index: usize) -> (r: Option<
    String,
>)
    ensures
        match r {
            Some(new) => match_index < all_matches(text@, needle@).len() && new@ == replaced_at(
                text@,
                needle@,
                replacement@,
                all_matches(text@, needle@)[match_index as int],
            ),
            None => match_index >= all_matches(text@, needle@).len(),
        },
{
    let chars: Vec<char> = to_chars(text);
    let needle_chars: Vec<char> = to_chars(needle);
    let positions: Vec<usize> = match_positions(&chars, &needle_chars);
    if match_index >= positions.len() {
        return None;
    }
    let at: usize = positions[match_index];
    proof {
        lemma_matches_from(text@, needle@, 0);
        assert(occurs_at(text@, needle@, all_matches(text@, needle@)[match_index as int]));
    }
    let mut new: String = chars_to_string(&chars, 0, at);
    new.append(replacement);
    let n: usize = chars.len();
    let rest: String = chars_to_string(&chars, at + needle_chars.len(), n);
    new.append(rest.as_str());
    assert(new@ =~= replaced_at(text@, needle@, replacement@, at as int));
    Some(new)
}

/// `text` with every match of `needle` replaced.
pub fn replace_all_matches(text: &str, needle: &str, replacement: &str) -> (r: String)
    ensures
        r@ == replaced_all(text@, needle@, replacement@),
{
    let chars: Vec<char> = to_chars(text);
    let needle_chars: Vec<char> = to_chars(needle);
    if needle_chars.len() == 0 {
        assert(text@.skip(0) =~= text@);
        return text.to_owned();
    }
    let n: usize = chars.len();
    let mut new: String = String::new();
    let mut i: usize = 0;
    assert(new@ + replaced_from(text@, needle@, replacement@, 0) =~= replaced_all(
        text@,
        needle@,
        replacement@,
    ));
    while i < n && needle_chars.len() <= n - i
        invariant
            chars@ == text@,
            needle_chars@ == needle@,
            n == chars@.len(),
            0 < needle@.len(),
            i <= n,
            new@ + replaced_from(text@, needle@, replacement@, i as int) == replaced_all(
                text@,
                needle@,
                replacement@,
            ),
        decreases n - i,
    {
        let ghost before = new@;
        if has_at(&chars, i, &needle_chars) {
            assert(text@.skip(i as int).subrange(0, needle@.len() as int) =~= text@.subrange(
                i as int,
                i + needle@.len(),
            ));
            new.append(replacement);
            let ghost rest = replaced_from(text@, needle@, replacement@, i + needle@.len());
            assert(before + (replacement@ + rest) =~= new@ + rest);
            i += needle_chars.len();
        } else {
            assert(!occurs_at(text@, needle@, i as int)) by {
                if occurs_at(text@, needle@, i as int) {
                    assert(text@.skip(i as int).subrange(0, needle@.len() as int) =~= needle@);
                }
            }
            new.push(chars[i]);
            let ghost rest = replaced_from(text@, needle@, replacement@, i + 1);
            assert(before + (seq![text@[i as int]] + rest) =~= new@ + rest);
            i += 1;
        }
    }
    let rest: String = chars_to_string(&chars, i, n);
    new.append(rest.as_str());
    assert(rest@ =~= text@.skip(i as int));
    new
}

/// The number of lines of `text`: one more than it has line breaks.
pub fn line_count(text: &str) -> (r: usize)
    requires
        newlines(text@) < usize::MAX,
    ensures
        r == newlines(text@) + 1,
{
    let chars: Vec<char> = to_chars(text);
    assert(chars@.take(chars@.len() as int) =~= chars@);
    position_after(&chars, chars.len()).0 + 1
}

// ---------------------------------------------------------------------------
// Status texts
// ---------------------------------------------------------------------------

/// What a find panel says of match `current`, counted from 0, of `total`
/// matches, on line `line`, counted from 0.
pub open spec fn find_status(current: nat, total: nat, line: Option<nat>) -> Seq<char> {
    match line {
        Some(l) => "Treffer "@ + decimal(current + 1) + " von "@ + decimal(total)
            + " \u{2014} Zeile "@ + decimal(l + 1),
        None => "Treffer 0 von "@ + decimal(total),
    }
}

/// What the find panel of the editor says.
pub fn editor_find_status_text(current: usize, total: usize, hl_line: Option<usize>) -> (r: String)
    requires
        hl_line is Some ==> current < usize::MAX && hl_line->0 < usize::MAX,
    ensures
        r@ == find_status(
            current as nat,
            total as nat,
            match hl_line {
                Some(l) => Some(l as nat),
                None => None,
            },
        ),
{
    match hl_line {
        Some(line) => {
            let mut s: String = "Treffer ".to_owned();
            push_decimal(&mut s, (current + 1) as u128);
            s.append(" von ");
            push_decimal(&mut s, total as u128);
            s.append(" \u{2014} Zeile ");
            push_decimal(&mut s, (line + 1) as u128);
            s
        },
        None => {
            let mut s: String = "Treffer 0 von ".to_owned();
            push_decimal(&mut s, total as u128);
            s
        },
    }
}

/// What the find panel of the output says: the same as the editor's.
pub fn output_find_status_text(current: usize, total: usize, hl_line: Option<usize>) -> (r: String)
    requires
        hl_line is Some ==> current < usize::MAX && hl_line->0 < usize::MAX,
    ensures
        r@ == find_status(
            current as nat,
            total as nat,
            match hl_line {
                Some(l) => Some(l as nat),
                None => None,
            },
        ),
{
    editor_find_status_text(current, total, hl_line)
}

} // verus!
