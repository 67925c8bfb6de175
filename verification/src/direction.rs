//! Which texts a text widget can lay out.
//!
//! Some characters end a paragraph inside a line, and each paragraph runs from
//! left to right or from right to left, as its first letter does. A widget
//! lays a line out only where all its paragraphs run the same way.

use vstd::prelude::*;

use crate::content::{ending_len, joined_lines, line_len, lines_of, loaded_text, with_line_feed};
use crate::strings::to_chars;

verus! {

// ---------------------------------------------------------------------------
// Characters
// ---------------------------------------------------------------------------

/// Kinds of characters that matter for the direction of a text.
#[derive(Debug, Clone, Copy, PartialEq, Eq, Structural)]
pub enum CharKind {
    /// Ends a paragraph: class B of the Unicode bidirectional algorithm, but
    /// for the line feed.
    Separator,
    /// Makes a paragraph that begins with it run from right to left: the
    /// classes R and AL.
    RightToLeft,
    /// A letter of the Latin script, which makes a paragraph that begins with
    /// it run from left to right.
    Latin,
    /// An ASCII character that is no letter, and says nothing of the direction.
    Neutral,
}

/// Hebrew, Arabic and Syriac: the characters that run from right to left.
pub open spec fn is_hebrew_or_arabic(c: char) -> bool {
    ||| c == '\u{590}'
    ||| c == '\u{5be}'
    ||| c == '\u{5c0}'
    ||| c == '\u{5c3}'
    ||| c == '\u{5c6}'
    ||| '\u{5c8}' <= c <= '\u{5ff}'
    ||| c == '\u{608}'
    ||| c == '\u{60b}'
    ||| c == '\u{60d}'
    ||| '\u{61b}' <= c <= '\u{64a}'
    ||| '\u{66d}' <= c <= '\u{66f}'
    ||| '\u{671}' <= c <= '\u{6d5}'
    ||| '\u{6e5}' <= c <= '\u{6e6}'
    ||| '\u{6ee}' <= c <= '\u{6ef}'
    ||| '\u{6fa}' <= c <= '\u{710}'
    ||| '\u{712}' <= c <= '\u{72f}'
    ||| '\u{74b}' <= c <= '\u{7a5}'
}

/// Thaana, NKo, Samaritan, Mandaic and the later Arabic blocks: the characters that run from right to left.
pub open spec fn is_thaana_or_nko(c: char) -> bool {
    ||| '\u{7b1}' <= c <= '\u{7ea}'
    ||| '\u{7f4}' <= c <= '\u{7f5}'
    ||| '\u{7fa}' <= c <= '\u{7fc}'
    ||| '\u{7fe}' <= c <= '\u{815}'
    ||| c == '\u{81a}'
    ||| c == '\u{824}'
    ||| c == '\u{828}'
    ||| '\u{82e}' <= c <= '\u{858}'
    ||| '\u{85c}' <= c <= '\u{88f}'
    ||| '\u{892}' <= c <= '\u{896}'
    ||| '\u{8a0}' <= c <= '\u{8c9}'
}

/// The right-to-left mark and the presentation forms: the characters that run from right to left.
pub open spec fn is_presented(c: char) -> bool {
    ||| c == '\u{200f}'
    ||| c == '\u{fb1d}'
    ||| '\u{fb1f}' <= c <= '\u{fb28}'
    ||| '\u{fb2a}' <= c <= '\u{fd3d}'
    ||| '\u{fd50}' <= c <= '\u{fdce}'
    ||| '\u{fdf0}' <= c <= '\u{fdfc}'
    ||| '\u{fe70}' <= c <= '\u{fefe}'
}

/// The scripts of the second plane, up to Sogdian and its neighbours: the characters that run from right to left.
pub open spec fn is_ancient(c: char) -> bool {
    ||| '\u{10800}' <= c <= '\u{1091e}'
    ||| '\u{10920}' <= c <= '\u{10a00}'
    ||| c == '\u{10a04}'
    ||| '\u{10a07}' <= c <= '\u{10a0b}'
    ||| '\u{10a10}' <= c <= '\u{10a37}'
    ||| '\u{10a3b}' <= c <= '\u{10a3e}'
    ||| '\u{10a40}' <= c <= '\u{10ae4}'
    ||| '\u{10ae7}' <= c <= '\u{10b38}'
    ||| '\u{10b40}' <= c <= '\u{10d23}'
    ||| '\u{10d28}' <= c <= '\u{10d2f}'
    ||| '\u{10d3a}' <= c <= '\u{10d3f}'
    ||| '\u{10d4a}' <= c <= '\u{10d68}'
    ||| '\u{10d6f}' <= c <= '\u{10e5f}'
    ||| '\u{10e7f}' <= c <= '\u{10eaa}'
    ||| '\u{10ead}' <= c <= '\u{10efb}'
    ||| '\u{10f00}' <= c <= '\u{10f45}'
    ||| '\u{10f51}' <= c <= '\u{10f81}'
    ||| '\u{10f86}' <= c <= '\u{10fff}'
}

/// Mende Kikakui, Adlam and the Arabic mathematical letters: the characters that run from right to left.
pub open spec fn is_adlam_or_mende(c: char) -> bool {
    ||| '\u{1e800}' <= c <= '\u{1e8cf}'
    ||| '\u{1e8d7}' <= c <= '\u{1e943}'
    ||| '\u{1e94b}' <= c <= '\u{1eeef}'
    ||| '\u{1eef2}' <= c <= '\u{1efff}'
}

/// Whether `c` is of the given kind.
pub open spec fn is_kind(c: char, kind: CharKind) -> bool {
    match kind {
        CharKind::Separator => c == '\r' || '\u{1c}' <= c <= '\u{1e}' || c == '\u{85}' || c
            == '\u{2029}',
        CharKind::RightToLeft => is_hebrew_or_arabic(c) || is_thaana_or_nko(c) || is_presented(c) || is_ancient(c) || is_adlam_or_mende(c),
        CharKind::Latin => 'A' <= c <= 'Z' || 'a' <= c <= 'z' || '\u{c0}' <= c <= '\u{d6}'
            || '\u{d8}' <= c <= '\u{f6}' || '\u{f8}' <= c <= '\u{2b8}',
        CharKind::Neutral => c <= '\u{7f}' && !('A' <= c <= 'Z') && !('a' <= c <= 'z'),
    }
}

/// Whether no character of `s` is of the given kind.
pub open spec fn free_of(s: Seq<char>, kind: CharKind) -> bool {
    forall|i: int| 0 <= i < s.len() ==> !is_kind(#[trigger] s[i], kind)
}

/// Whether no character of any of the lines is of the given kind.
pub open spec fn all_free_of(lines: Seq<Seq<char>>, kind: CharKind) -> bool {
    forall|i: int| 0 <= i < lines.len() ==> free_of(#[trigger] lines[i], kind)
}

pub fn has_hebrew_or_arabic(c: char) -> (r: bool)
    ensures
        r == is_hebrew_or_arabic(c),
{
    c == '\u{590}'
        || c == '\u{5be}'
        || c == '\u{5c0}'
        || c == '\u{5c3}'
        || c == '\u{5c6}'
        || ('\u{5c8}' <= c && c <= '\u{5ff}')
        || c == '\u{608}'
        || c == '\u{60b}'
        || c == '\u{60d}'
        || ('\u{61b}' <= c && c <= '\u{64a}')
        || ('\u{66d}' <= c && c <= '\u{66f}')
        || ('\u{671}' <= c && c <= '\u{6d5}')
        || ('\u{6e5}' <= c && c <= '\u{6e6}')
        || ('\u{6ee}' <= c && c <= '\u{6ef}')
        || ('\u{6fa}' <= c && c <= '\u{710}')
        || ('\u{712}' <= c && c <= '\u{72f}')
        || ('\u{74b}' <= c && c <= '\u{7a5}')
}

fn has_thaana_or_nko(c: char) -> (r: bool)
    ensures
        r == is_thaana_or_nko(c),
{
    ('\u{7b1}' <= c && c <= '\u{7ea}')
        || ('\u{7f4}' <= c && c <= '\u{7f5}')
        || ('\u{7fa}' <= c && c <= '\u{7fc}')
        || ('\u{7fe}' <= c && c <= '\u{815}')
        || c == '\u{81a}'
        || c == '\u{824}'
        || c == '\u{828}'
        || ('\u{82e}' <= c && c <= '\u{858}')
        || ('\u{85c}' <= c && c <= '\u{88f}')
        || ('\u{892}' <= c && c <= '\u{896}')
        || ('\u{8a0}' <= c && c <= '\u{8c9}')
}

fn has_presented(c: char) -> (r: bool)
    ensures
        r == is_presented(c),
{
    c == '\u{200f}'
        || c == '\u{fb1d}'
        || ('\u{fb1f}' <= c && c <= '\u{fb28}')
        || ('\u{fb2a}' <= c && c <= '\u{fd3d}')
        || ('\u{fd50}' <= c && c <= '\u{fdce}')
        || ('\u{fdf0}' <= c && c <= '\u{fdfc}')
        || ('\u{fe70}' <= c && c <= '\u{fefe}')
}

fn has_ancient(c: char) -> (r: bool)
    ensures
        r == is_ancient(c),
{
    ('\u{10800}' <= c && c <= '\u{1091e}')
        || ('\u{10920}' <= c && c <= '\u{10a00}')
        || c == '\u{10a04}'
        || ('\u{10a07}' <= c && c <= '\u{10a0b}')
        || ('\u{10a10}' <= c && c <= '\u{10a37}')
        || ('\u{10a3b}' <= c && c <= '\u{10a3e}')
        || ('\u{10a40}' <= c && c <= '\u{10ae4}')
        || ('\u{10ae7}' <= c && c <= '\u{10b38}')
        || ('\u{10b40}' <= c && c <= '\u{10d23}')
        || ('\u{10d28}' <= c && c <= '\u{10d2f}')
        || ('\u{10d3a}' <= c && c <= '\u{10d3f}')
        || ('\u{10d4a}' <= c && c <= '\u{10d68}')
        || ('\u{10d6f}' <= c && c <= '\u{10e5f}')
        || ('\u{10e7f}' <= c && c <= '\u{10eaa}')
        || ('\u{10ead}' <= c && c <= '\u{10efb}')
        || ('\u{10f00}' <= c && c <= '\u{10f45}')
        || ('\u{10f51}' <= c && c <= '\u{10f81}')
        || ('\u{10f86}' <= c && c <= '\u{10fff}')
}

fn has_adlam_or_mende(c: char) -> (r: bool)
    ensures
        r == is_adlam_or_mende(c),
{
    ('\u{1e800}' <= c && c <= '\u{1e8cf}')
        || ('\u{1e8d7}' <= c && c <= '\u{1e943}')
        || ('\u{1e94b}' <= c && c <= '\u{1eeef}')
        || ('\u{1eef2}' <= c && c <= '\u{1efff}')
}

/// Whether `c` is of the given kind.
pub fn has_kind(c: char, kind: CharKind) -> (r: bool)
    ensures
        r == is_kind(c, kind),
{
    match kind {
        CharKind::Separator => c == '\r' || ('\u{1c}' <= c && c <= '\u{1e}') || c == '\u{85}' || c
            == '\u{2029}',
        CharKind::RightToLeft => '\u{590}' <= c && (has_hebrew_or_arabic(c) || has_thaana_or_nko(c) || has_presented(c) || has_ancient(c) || has_adlam_or_mende(c)),
        CharKind::Latin => ('A' <= c && c <= 'Z') || ('a' <= c && c <= 'z') || ('\u{c0}' <= c && c
            <= '\u{d6}') || ('\u{d8}' <= c && c <= '\u{f6}') || ('\u{f8}' <= c && c <= '\u{2b8}'),
        CharKind::Neutral => c <= '\u{7f}' && !('A' <= c && c <= 'Z') && !('a' <= c && c <= 'z'),
    }
}

/// Whether no character of `v` is of the given kind.
fn is_free_of(v: &Vec<char>, kind: CharKind) -> (r: bool)
    ensures
        r == free_of(v@, kind),
{
    let mut i: usize = 0;
    while i < v.len()
        invariant
            i <= v@.len(),
            forall|k: int| 0 <= k < i ==> !is_kind(#[trigger] v@[k], kind),
        decreases v@.len() - i,
    {
        if has_kind(v[i], kind) {
            assert(is_kind(v@[i as int], kind));
            return false;
        }
        i += 1;
    }
    true
}

// ---------------------------------------------------------------------------
// Lines and paragraphs
// ---------------------------------------------------------------------------

/// Where a text is split.
#[derive(Debug, Clone, Copy, PartialEq, Eq, Structural)]
pub enum Ends {
    /// At line feeds, which end the lines of a text that is shown.
    LineFeed,
    /// At line feeds and carriage returns, which end the lines of a text that
    /// is loaded.
    LineEnd,
    /// At the characters that end a paragraph.
    Separator,
}

/// Whether a text is split at `c`.
pub open spec fn is_end(c: char, ends: Ends) -> bool {
    match ends {
        Ends::LineFeed => c == '\n',
        Ends::LineEnd => c == '\n' || c == '\r',
        Ends::Separator => is_kind(c, CharKind::Separator),
    }
}

/// The parts of `s` between the characters at which it is split.
pub open spec fn split(s: Seq<char>, ends: Ends) -> Seq<Seq<char>>
    decreases s.len(),
{
    if s.len() == 0 {
        seq![Seq::empty()]
    } else {
        let front = split(s.drop_last(), ends);
        if is_end(s.last(), ends) {
            front.push(Seq::empty())
        } else {
            front.drop_last().push(front.last().push(s.last()))
        }
    }
}

/// The paragraphs of a line, without the characters that end them.
pub open spec fn paragraphs(line: Seq<char>) -> Seq<Seq<char>> {
    let parts = split(line, Ends::Separator);
    if parts.last().len() == 0 {
        parts.drop_last()
    } else {
        parts
    }
}

/// The first character of `s` that is not neutral.
pub open spec fn lead(s: Seq<char>) -> Option<char>
    decreases s.len(),
{
    if s.len() == 0 {
        None
    } else if is_kind(s[0], CharKind::Neutral) {
        lead(s.skip(1))
    } else {
        Some(s[0])
    }
}

/// Whether a paragraph runs from left to right for certain: nothing in it runs
/// the other way, or its first letter is Latin.
pub open spec fn runs_left_to_right(paragraph: Seq<char>) -> bool {
    free_of(paragraph, CharKind::RightToLeft) || (lead(paragraph) matches Some(c) && is_kind(
        c,
        CharKind::Latin,
    ))
}

/// Whether a paragraph runs from right to left for certain: its first letter
/// does.
pub open spec fn runs_right_to_left(paragraph: Seq<char>) -> bool {
    lead(paragraph) matches Some(c) && is_kind(c, CharKind::RightToLeft)
}

/// Whether a line can be laid out: it is one paragraph, or all its paragraphs
/// run the same way.
pub open spec fn line_loads(line: Seq<char>) -> bool {
    let list = paragraphs(line);
    ||| list.len() <= 1
    ||| forall|i: int| 0 <= i < list.len() ==> runs_left_to_right(#[trigger] list[i])
    ||| forall|i: int| 0 <= i < list.len() ==> runs_right_to_left(#[trigger] list[i])
}

/// Whether all lines of `s` can be laid out.
pub open spec fn lines_load(s: Seq<char>, ends: Ends) -> bool {
    forall|i: int| 0 <= i < split(s, ends).len() ==> line_loads(#[trigger] split(s, ends)[i])
}

/// Whether a text that is shown can be laid out.
pub open spec fn shows(text: Seq<char>) -> bool {
    lines_load(text, Ends::LineFeed)
}

/// Whether the text made from `s` can be laid out.
pub open spec fn loads(s: Seq<char>) -> bool {
    lines_load(s, Ends::LineEnd)
}

/// Whether a text with the characters of `s` can be laid out, in whatever
/// order they stand: nothing separates paragraphs, or nothing runs from right
/// to left.
pub open spec fn one_direction(s: Seq<char>) -> bool {
    free_of(s, CharKind::Separator) || free_of(s, CharKind::RightToLeft)
}

/// Whether every character of `after` stands in `before`, is one of `added` or
/// is a line feed.
pub open spec fn made_of(after: Seq<char>, before: Seq<char>, added: Seq<char>) -> bool {
    forall|i: int|
        0 <= i < after.len() ==> before.contains(#[trigger] after[i]) || added.contains(after[i])
            || after[i] == '\n'
}

// ---------------------------------------------------------------------------
// Proofs
// ---------------------------------------------------------------------------

/// There is at least one part.
pub proof fn lemma_split_len(s: Seq<char>, ends: Ends)
    ensures
        split(s, ends).len() >= 1,
    decreases s.len(),
{
    if s.len() > 0 {
        lemma_split_len(s.drop_last(), ends);
    }
}

/// Two texts with a character between them at which they are split have the
/// parts of the one and those of the other.
pub proof fn lemma_split_joint(a: Seq<char>, c: char, b: Seq<char>, ends: Ends)
    requires
        is_end(c, ends),
    ensures
        split(a.push(c) + b, ends) == split(a, ends) + split(b, ends),
    decreases b.len(),
{
    let whole = a.push(c) + b;
    let left = split(a, ends);
    if b.len() == 0 {
        assert(whole =~= a.push(c));
        assert(whole.drop_last() =~= a);
        assert(split(whole, ends) =~= left + split(b, ends));
    } else {
        lemma_split_joint(a, c, b.drop_last(), ends);
        lemma_split_len(b.drop_last(), ends);
        assert(whole.drop_last() =~= a.push(c) + b.drop_last());
        assert(whole.last() == b.last());
        let front = split(b.drop_last(), ends);
        assert((left + front).last() == front.last());
        assert((left + front).drop_last() =~= left + front.drop_last());
        assert(split(whole, ends) =~= left + split(b, ends));
    }
}

/// The parts have no characters of a kind that the whole has not.
proof fn lemma_split_free(s: Seq<char>, ends: Ends, kind: CharKind)
    requires
        free_of(s, kind),
    ensures
        all_free_of(split(s, ends), kind),
    decreases s.len(),
{
    if s.len() > 0 {
        let init = s.drop_last();
        assert(free_of(init, kind)) by {
            assert forall|i: int| 0 <= i < init.len() implies !is_kind(#[trigger] init[i], kind) by {
                assert(init[i] == s[i]);
            }
        }
        lemma_split_free(init, ends, kind);
        lemma_split_len(init, ends);
        let front = split(init, ends);
        let list = split(s, ends);
        assert(!is_kind(s[s.len() - 1], kind));
        assert(free_of(front[front.len() - 1], kind));
        assert forall|i: int| 0 <= i < list.len() implies free_of(#[trigger] list[i], kind) by {
            if i < list.len() - 1 {
                assert(list[i] == front[i]);
            }
        }
    }
}

/// A text without a character at which it is split is the one part.
pub proof fn lemma_unsplit(s: Seq<char>, ends: Ends)
    requires
        forall|i: int| 0 <= i < s.len() ==> !is_end(#[trigger] s[i], ends),
    ensures
        split(s, ends) == seq![s],
    decreases s.len(),
{
    if s.len() > 0 {
        let init = s.drop_last();
        assert forall|i: int| 0 <= i < init.len() implies !is_end(#[trigger] init[i], ends) by {
            assert(init[i] == s[i]);
        }
        lemma_unsplit(init, ends);
        assert(!is_end(s[s.len() - 1], ends));
        assert(init.push(s.last()) =~= s);
        assert(split(s, ends) =~= seq![s]);
    } else {
        assert(s =~= Seq::empty());
    }
}

/// A line in which nothing separates paragraphs, or nothing runs from right to
/// left, can be laid out.
pub proof fn lemma_line_of_one_direction(line: Seq<char>)
    requires
        one_direction(line),
    ensures
        line_loads(line),
{
    lemma_split_len(line, Ends::Separator);
    let parts = split(line, Ends::Separator);
    if free_of(line, CharKind::Separator) {
        lemma_unsplit(line, Ends::Separator);
    } else {
        lemma_split_free(line, Ends::Separator, CharKind::RightToLeft);
        let list = paragraphs(line);
        assert forall|i: int| 0 <= i < list.len() implies runs_left_to_right(
            #[trigger] list[i],
        ) by {
            assert(list[i] == parts[i]);
        }
    }
}

/// A character that ends a paragraph does not hinder at the end of a line, as
/// carriage returns stand there.
pub proof fn law_separator_at_the_end_is_harmless(line: Seq<char>)
    requires
        forall|i: int|
            0 <= i < line.len() - 1 ==> !is_kind(#[trigger] line[i], CharKind::Separator),
    ensures
        line_loads(line),
{
    if line.len() > 0 && is_kind(line.last(), CharKind::Separator) {
        let front = line.drop_last();
        assert forall|i: int| 0 <= i < front.len() implies !is_end(
            #[trigger] front[i],
            Ends::Separator,
        ) by {
            assert(front[i] == line[i]);
        }
        lemma_unsplit(front, Ends::Separator);
        assert(split(line, Ends::Separator) =~= seq![front, Seq::empty()]);
    } else {
        assert forall|i: int| 0 <= i < line.len() implies !is_kind(
            #[trigger] line[i],
            CharKind::Separator,
        ) by {
            if i == line.len() - 1 {
                assert(line[i] == line.last());
            }
        }
        assert(free_of(line, CharKind::Separator));
        lemma_line_of_one_direction(line);
    }
}

/// A text in which nothing separates paragraphs, or nothing runs from right to
/// left, can be laid out.
pub proof fn lemma_one_direction(s: Seq<char>, ends: Ends)
    requires
        one_direction(s),
    ensures
        lines_load(s, ends),
{
    let kind = if free_of(s, CharKind::Separator) {
        CharKind::Separator
    } else {
        CharKind::RightToLeft
    };
    lemma_split_free(s, ends, kind);
    let list = split(s, ends);
    assert forall|i: int| 0 <= i < list.len() implies line_loads(#[trigger] list[i]) by {
        assert(free_of(list[i], kind));
        lemma_line_of_one_direction(list[i]);
    }
}

/// What is made of the characters of a text that can be laid out in whatever
/// order can be laid out too.
pub proof fn lemma_made_of(after: Seq<char>, before: Seq<char>, added: Seq<char>)
    requires
        made_of(after, before, added),
        one_direction(before + added),
    ensures
        shows(after),
{
    let all = before + added;
    let kind = if free_of(all, CharKind::Separator) {
        CharKind::Separator
    } else {
        CharKind::RightToLeft
    };
    assert forall|i: int| 0 <= i < after.len() implies !is_kind(#[trigger] after[i], kind) by {
        if before.contains(after[i]) {
            let k = before.index_of(after[i]);
            assert(all[k] == after[i]);
        } else if added.contains(after[i]) {
            let k = added.index_of(after[i]);
            assert(all[before.len() + k] == after[i]);
        }
    }
    assert(free_of(after, kind));
    lemma_one_direction(after, Ends::LineFeed);
}

/// Two texts, one behind the other with an end of a line between them, can be
/// laid out exactly where each can.
pub proof fn lemma_joint_loads(a: Seq<char>, c: char, b: Seq<char>, ends: Ends)
    requires
        is_end(c, ends),
    ensures
        lines_load(a.push(c) + b, ends) == (lines_load(a, ends) && lines_load(b, ends)),
{
    lemma_split_joint(a, c, b, ends);
    let whole = split(a.push(c) + b, ends);
    let left = split(a, ends);
    let right = split(b, ends);
    if lines_load(a.push(c) + b, ends) {
        assert forall|i: int| 0 <= i < left.len() implies line_loads(#[trigger] left[i]) by {
            assert(whole[i] == left[i]);
        }
        assert forall|i: int| 0 <= i < right.len() implies line_loads(#[trigger] right[i]) by {
            assert(whole[left.len() + i] == right[i]);
        }
    }
    if lines_load(a, ends) && lines_load(b, ends) {
        assert forall|i: int| 0 <= i < whole.len() implies line_loads(#[trigger] whole[i]) by {
            if i < left.len() {
                assert(whole[i] == left[i]);
            } else {
                assert(whole[i] == right[i - left.len()]);
            }
        }
    }
}

/// An empty text can be laid out.
pub proof fn lemma_empty_loads(ends: Ends)
    ensures
        lines_load(Seq::empty(), ends),
{
    lemma_one_direction(Seq::empty(), ends);
}

/// A line feed at the end makes no difference.
pub proof fn lemma_last_line_feed(t: Seq<char>)
    ensures
        shows(t.push('\n')) == shows(t),
{
    lemma_joint_loads(t, '\n', Seq::empty(), Ends::LineFeed);
    lemma_empty_loads(Ends::LineFeed);
    assert(t.push('\n') + Seq::<char>::empty() =~= t.push('\n'));
}

/// Texts that can be laid out can be when joined.
pub proof fn lemma_joined_loads(lines: Seq<Seq<char>>, ends: Ends)
    requires
        is_end('\n', ends),
        forall|i: int| 0 <= i < lines.len() ==> lines_load(#[trigger] lines[i], ends),
    ensures
        lines_load(joined_lines(lines), ends),
    decreases lines.len(),
{
    reveal_strlit("\n");
    if lines.len() == 0 {
        lemma_empty_loads(ends);
    } else if lines.len() == 1 {
        assert(lines_load(lines[0], ends));
    } else {
        let init = lines.drop_last();
        assert forall|i: int| 0 <= i < init.len() implies lines_load(#[trigger] init[i], ends) by {
            assert(init[i] == lines[i]);
        }
        lemma_joined_loads(init, ends);
        let last = lines[lines.len() - 1];
        assert(lines_load(last, ends));
        let front = joined_lines(init);
        lemma_joint_loads(front, '\n', last, ends);
        assert(front + "\n"@ + last =~= front.push('\n') + last);
    }
}

/// A line ends in front of the first line feed or carriage return.
proof fn lemma_line_has_no_end(s: Seq<char>)
    ensures
        line_len(s) <= s.len(),
        forall|i: int| 0 <= i < line_len(s) ==> !is_end(#[trigger] s[i], Ends::LineEnd),
        line_len(s) < s.len() ==> is_end(s[line_len(s) as int], Ends::LineEnd),
    decreases s.len(),
{
    if s.len() > 0 && s[0] != '\r' && s[0] != '\n' {
        let rest = s.skip(1);
        lemma_line_has_no_end(rest);
        assert forall|i: int| 0 <= i < line_len(s) implies !is_end(
            #[trigger] s[i],
            Ends::LineEnd,
        ) by {
            if i > 0 {
                assert(s[i] == rest[i - 1]);
            }
        }
    }
}

/// Each line of a text that loads can be laid out, as a text of its own.
proof fn lemma_lines_load(s: Seq<char>)
    requires
        loads(s),
    ensures
        forall|i: int|
            0 <= i < lines_of(s).len() ==> lines_load(#[trigger] lines_of(s)[i], Ends::LineFeed),
    decreases s.len(),
{
    lemma_line_has_no_end(s);
    let n = line_len(s) as int;
    if s.len() > 0 {
        let first = s.take(n);
        let lines = lines_of(s);
        assert forall|i: int| 0 <= i < first.len() implies !is_end(
            #[trigger] first[i],
            Ends::LineEnd,
        ) && !is_end(first[i], Ends::LineFeed) by {
            assert(first[i] == s[i]);
        }
        lemma_unsplit(first, Ends::LineEnd);
        lemma_unsplit(first, Ends::LineFeed);
        if n >= s.len() {
            assert(first =~= s);
            assert(lines =~= seq![s]);
        } else {
            let behind = s.skip(n + 1);
            assert(s =~= first.push(s[n]) + behind);
            lemma_joint_loads(first, s[n], behind, Ends::LineEnd);
            let skipped = n + ending_len(s.skip(n));
            let rest = s.skip(skipped);
            if skipped == n + 1 {
                assert(rest =~= behind);
            } else {
                assert(s.skip(n)[1] == s[n + 1]);
                assert(behind =~= Seq::<char>::empty().push(s[n + 1]) + rest);
                lemma_joint_loads(Seq::empty(), s[n + 1], rest, Ends::LineEnd);
            }
            lemma_lines_load(rest);
            assert(lines == seq![first] + lines_of(rest));
            assert forall|i: int| 0 <= i < lines.len() implies lines_load(
                #[trigger] lines[i],
                Ends::LineFeed,
            ) by {
                if i > 0 {
                    assert(lines[i] == lines_of(rest)[i - 1]);
                }
            }
        }
        assert(split(first, Ends::LineEnd)[0] == first);
    }
}

/// A text that loads can be shown.
pub proof fn lemma_loaded(s: Seq<char>)
    requires
        loads(s),
    ensures
        shows(loaded_text(s)),
{
    lemma_lines_load(s);
    lemma_joined_loads(lines_of(s), Ends::LineFeed);
    let joined = joined_lines(lines_of(s));
    lemma_last_line_feed(joined);
    assert(with_line_feed(joined) == loaded_text(s));
}

// ---------------------------------------------------------------------------
// Testing
// ---------------------------------------------------------------------------

/// Whether a text is split at `c`.
fn ends_at(c: char, ends: Ends) -> (r: bool)
    ensures
        r == is_end(c, ends),
{
    match ends {
        Ends::LineFeed => c == '\n',
        Ends::LineEnd => c == '\n' || c == '\r',
        Ends::Separator => has_kind(c, CharKind::Separator),
    }
}

/// What a list of texts holds.
pub open spec fn views(list: Seq<Vec<char>>) -> Seq<Seq<char>> {
    list.map_values(|v: Vec<char>| v@)
}

/// The parts of `v` between the characters at which it is split.
fn split_at_ends(v: &Vec<char>, ends: Ends) -> (r: Vec<Vec<char>>)
    ensures
        views(r@) == split(v@, ends),
{
    let mut done: Vec<Vec<char>> = Vec::new();
    let mut current: Vec<char> = Vec::new();
    let mut i: usize = 0;
    assert(v@.take(0) =~= Seq::<char>::empty());
    assert(views(done@).push(current@) =~= split(v@.take(0), ends));
    while i < v.len()
        invariant
            i <= v@.len(),
            views(done@).push(current@) == split(v@.take(i as int), ends),
        decreases v@.len() - i,
    {
        let c: char = v[i];
        let ghost before = views(done@);
        let ghost old_current = current@;
        proof {
            let more = v@.take(i + 1);
            assert(more.drop_last() =~= v@.take(i as int));
            assert(more.last() == c);
        }
        if ends_at(c, ends) {
            done.push(current);
            current = Vec::new();
            assert(views(done@) =~= before.push(old_current));
            assert(views(done@).push(current@) =~= split(v@.take(i + 1), ends));
        } else {
            current.push(c);
            assert(before.push(old_current).drop_last() =~= before);
            assert(views(done@).push(current@) =~= split(v@.take(i + 1), ends));
        }
        i += 1;
    }
    assert(v@.take(v@.len() as int) =~= v@);
    let ghost before = views(done@);
    let ghost last = current@;
    done.push(current);
    assert(views(done@) =~= before.push(last));
    done
}

/// The first character of `v` that is not neutral.
fn first_letter(v: &Vec<char>) -> (r: Option<char>)
    ensures
        r == lead(v@),
{
    let mut i: usize = 0;
    assert(v@.skip(0) =~= v@);
    while i < v.len()
        invariant
            i <= v@.len(),
            lead(v@) == lead(v@.skip(i as int)),
        decreases v@.len() - i,
    {
        let ghost rest = v@.skip(i as int);
        assert(rest[0] == v@[i as int]);
        assert(rest.skip(1) =~= v@.skip(i + 1));
        if !has_kind(v[i], CharKind::Neutral) {
            return Some(v[i]);
        }
        i += 1;
    }
    None
}

/// Whether a line can be laid out.
fn line_can_load(line: &Vec<char>) -> (r: bool)
    ensures
        r == line_loads(line@),
{
    let parts: Vec<Vec<char>> = split_at_ends(line, Ends::Separator);
    let ghost list = paragraphs(line@);
    proof {
        lemma_split_len(line@, Ends::Separator);
        assert(views(parts@).len() == parts@.len());
        assert(views(parts@).last() == parts@[parts@.len() - 1]@);
    }
    let n: usize = if parts[parts.len() - 1].len() == 0 {
        parts.len() - 1
    } else {
        parts.len()
    };
    assert(list.len() == n);
    assert(forall|k: int| 0 <= k < n ==> list[k] == #[trigger] parts@[k]@);
    if n <= 1 {
        return true;
    }
    let mut left: bool = true;
    let mut right: bool = true;
    let mut i: usize = 0;
    while i < n
        invariant
            i <= n <= parts@.len(),
            list == paragraphs(line@),
            list.len() == n,
            forall|k: int| 0 <= k < n ==> list[k] == #[trigger] parts@[k]@,
            left == forall|k: int| 0 <= k < i ==> runs_left_to_right(#[trigger] list[k]),
            right == forall|k: int| 0 <= k < i ==> runs_right_to_left(#[trigger] list[k]),
        decreases n - i,
    {
        let part: &Vec<char> = &parts[i];
        assert(list[i as int] == part@);
        let letter: Option<char> = first_letter(part);
        let latin: bool = match letter {
            Some(c) => has_kind(c, CharKind::Latin),
            None => false,
        };
        let turned: bool = match letter {
            Some(c) => has_kind(c, CharKind::RightToLeft),
            None => false,
        };
        left = left && (latin || is_free_of(part, CharKind::RightToLeft));
        right = right && turned;
        i += 1;
    }
    left || right
}

/// Whether all lines of `v` can be laid out.
fn lines_can_load(v: &Vec<char>, ends: Ends) -> (r: bool)
    ensures
        r == lines_load(v@, ends),
{
    if is_free_of(v, CharKind::RightToLeft) || is_free_of(v, CharKind::Separator) {
        proof {
            lemma_one_direction(v@, ends);
        }
        return true;
    }
    let lines: Vec<Vec<char>> = split_at_ends(v, ends);
    let ghost list = split(v@, ends);
    assert(list.len() == lines@.len());
    assert(forall|k: int| 0 <= k < lines@.len() ==> list[k] == #[trigger] lines@[k]@);
    let mut i: usize = 0;
    while i < lines.len()
        invariant
            i <= lines@.len(),
            list == split(v@, ends),
            list.len() == lines@.len(),
            forall|k: int| 0 <= k < lines@.len() ==> list[k] == #[trigger] lines@[k]@,
            forall|k: int| 0 <= k < i ==> line_loads(#[trigger] list[k]),
        decreases lines@.len() - i,
    {
        assert(list[i as int] == lines@[i as int]@);
        if !line_can_load(&lines[i]) {
            return false;
        }
        i += 1;
    }
    true
}

/// Whether a text that is shown can be laid out.
pub fn can_show(text: &Vec<char>) -> (r: bool)
    ensures
        r == shows(text@),
{
    lines_can_load(text, Ends::LineFeed)
}

/// Whether the text made from `text` can be laid out.
pub fn can_load(text: &str) -> (r: bool)
    ensures
        r == loads(text@),
{
    lines_can_load(&to_chars(text), Ends::LineEnd)
}

/// Whether a text with the characters of `text` and `added` can be laid out, in
/// whatever order they stand.
pub fn can_mix(text: &Vec<char>, added: &Vec<char>) -> (r: bool)
    ensures
        r == one_direction(text@ + added@),
{
    proof {
        lemma_both_free(text@, added@, CharKind::Separator);
        lemma_both_free(text@, added@, CharKind::RightToLeft);
    }
    (is_free_of(added, CharKind::RightToLeft) && is_free_of(text, CharKind::RightToLeft)) || (
    is_free_of(added, CharKind::Separator) && is_free_of(text, CharKind::Separator))
}

/// Two texts joined have no characters of a kind where neither has.
pub proof fn lemma_both_free(a: Seq<char>, b: Seq<char>, kind: CharKind)
    ensures
        free_of(a + b, kind) == (free_of(a, kind) && free_of(b, kind)),
{
    let both = a + b;
    if free_of(both, kind) {
        assert forall|i: int| 0 <= i < a.len() implies !is_kind(#[trigger] a[i], kind) by {
            assert(both[i] == a[i]);
        }
        assert forall|i: int| 0 <= i < b.len() implies !is_kind(#[trigger] b[i], kind) by {
            assert(both[a.len() + i] == b[i]);
        }
    }
}

} // verus!
