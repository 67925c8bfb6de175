//! What holds of the texts that are read and made.

use vstd::prelude::*;

use crate::content::joined_lines;
use crate::output::shown_text;
use crate::paths::marked;
use crate::search::{
    all_matches, byte_len, char_len, find_status, last_line_len, match_lines, match_position, matches_from,
    newlines, occurs_at, replaced_all, replaced_at, replaced_from,
};
use crate::strings::{
    decimal, digits_value, is_digit, is_white_space, lemma_decimal, lemma_word_len, number,
    trim_end, trim_start, trimmed, unsigned, word_len, words,
};

verus! {

// ---------------------------------------------------------------------------
// White space and words
// ---------------------------------------------------------------------------

proof fn lemma_trim_start(front: Seq<char>, rest: Seq<char>)
    requires
        forall|i: int| 0 <= i < front.len() ==> is_white_space(#[trigger] front[i]),
        rest.len() > 0 ==> !is_white_space(rest[0]),
    ensures
        trim_start(front + rest) == rest,
    decreases front.len(),
{
    if front.len() == 0 {
        assert(front + rest =~= rest);
    } else {
        assert((front + rest).skip(1) =~= front.skip(1) + rest);
        assert((front + rest)[0] == front[0]);
        lemma_trim_start(front.skip(1), rest);
    }
}

proof fn lemma_trim_end(rest: Seq<char>, back: Seq<char>)
    requires
        forall|i: int| 0 <= i < back.len() ==> is_white_space(#[trigger] back[i]),
        rest.len() > 0 ==> !is_white_space(rest.last()),
    ensures
        trim_end(rest + back) == rest,
    decreases back.len(),
{
    if back.len() == 0 {
        assert(rest + back =~= rest);
    } else {
        assert((rest + back).drop_last() =~= rest + back.drop_last());
        assert((rest + back).last() == back.last());
        lemma_trim_end(rest, back.drop_last());
    }
}

/// Trimming takes away the white space in front of a text and behind it, and
/// nothing else.
pub proof fn law_trimming(front: Seq<char>, text: Seq<char>, back: Seq<char>)
    requires
        forall|i: int| 0 <= i < front.len() ==> is_white_space(#[trigger] front[i]),
        forall|i: int| 0 <= i < back.len() ==> is_white_space(#[trigger] back[i]),
        text.len() > 0 ==> !is_white_space(text[0]) && !is_white_space(text.last()),
    ensures
        trimmed(front + text + back) == text,
{
    if text.len() == 0 {
        let all = front + back;
        assert(front + text + back =~= all + Seq::<char>::empty());
        assert forall|i: int| 0 <= i < all.len() implies is_white_space(#[trigger] all[i]) by {
            if i >= front.len() {
                assert(all[i] == back[i - front.len()]);
            }
        }
        lemma_trim_start(all, Seq::empty());
        assert(trim_end(Seq::<char>::empty()) =~= text);
    } else {
        assert(front + text + back =~= front + (text + back));
        lemma_trim_start(front, text + back);
        lemma_trim_end(text, back);
    }
}

/// White space is what Unicode calls so: some of the control characters, the
/// space, and the spaces and separators beyond ASCII.
pub proof fn law_white_space(c: char)
    ensures
        is_white_space(c) <==> {
            let n = c as u32;
            ||| 9 <= n <= 13
            ||| n == 32
            ||| n == 0x85
            ||| n == 0xa0
            ||| n == 0x1680
            ||| 0x2000 <= n <= 0x200a
            ||| 0x2028 <= n <= 0x2029
            ||| n == 0x202f
            ||| n == 0x205f
            ||| n == 0x3000
        },
{
}

proof fn lemma_whole_word(word: Seq<char>, rest: Seq<char>)
    requires
        forall|i: int| 0 <= i < word.len() ==> !is_white_space(#[trigger] word[i]),
        rest.len() > 0 ==> is_white_space(rest[0]),
    ensures
        word_len(word + rest) == word.len(),
    decreases word.len(),
{
    if word.len() == 0 {
        assert(word + rest =~= rest);
    } else {
        assert((word + rest).skip(1) =~= word.skip(1) + rest);
        assert((word + rest)[0] == word[0]);
        lemma_whole_word(word.skip(1), rest);
    }
}

/// A text without white space is one word, and the empty text has none.
pub proof fn law_a_word_is_one_word(word: Seq<char>)
    requires
        forall|i: int| 0 <= i < word.len() ==> !is_white_space(#[trigger] word[i]),
    ensures
        word.len() > 0 ==> words(word) == seq![word],
        word.len() == 0 ==> words(word).len() == 0,
{
    if word.len() > 0 {
        let none = Seq::<char>::empty();
        lemma_whole_word(word, none);
        assert(word + none =~= word);
        assert(word.take(word.len() as int) =~= word);
        assert(word.skip(word.len() as int) =~= none);
        assert(words(none) =~= Seq::empty());
        assert(words(word) =~= seq![word]);
    }
}

proof fn lemma_word_len_stops(a: Seq<char>, rest: Seq<char>)
    requires
        rest.len() > 0,
        is_white_space(rest[0]),
    ensures
        word_len(a + rest) == word_len(a),
    decreases a.len(),
{
    if a.len() == 0 {
        assert(a + rest =~= rest);
    } else if !is_white_space(a[0]) {
        assert((a + rest)[0] == a[0]);
        assert((a + rest).skip(1) =~= a.skip(1) + rest);
        lemma_word_len_stops(a.skip(1), rest);
    } else {
        assert((a + rest)[0] == a[0]);
    }
}

/// White space parts words: the words of a text are those in front of it and
/// then those behind it.
pub proof fn law_white_space_parts_words(a: Seq<char>, c: char, b: Seq<char>)
    requires
        is_white_space(c),
    ensures
        words(a.push(c) + b) == words(a) + words(b),
    decreases a.len(),
{
    let all = a.push(c) + b;
    let rest = seq![c] + b;
    assert(all =~= a + rest);
    if a.len() == 0 {
        assert(all =~= rest);
        assert(rest.skip(1) =~= b);
        assert(words(a) + words(b) =~= words(b));
    } else if is_white_space(a[0]) {
        assert(all[0] == a[0]);
        assert(all.skip(1) =~= a.skip(1).push(c) + b);
        law_white_space_parts_words(a.skip(1), c, b);
    } else {
        let n = word_len(a) as int;
        lemma_word_len(a);
        lemma_word_len_stops(a, rest);
        assert(word_len(a.skip(1)) >= 0);
        assert(all[0] == a[0]);
        assert(all.take(n) =~= a.take(n));
        assert(all.skip(n) =~= a.skip(n).push(c) + b);
        law_white_space_parts_words(a.skip(n), c, b);
        assert(seq![a.take(n)] + (words(a.skip(n)) + words(b)) =~= seq![a.take(n)] + words(
            a.skip(n),
        ) + words(b));
    }
}

// ---------------------------------------------------------------------------
// Numbers
// ---------------------------------------------------------------------------

/// A number below ten is written as its digit; a digit more behind a number
/// makes ten times the number and that digit.
pub proof fn law_decimal_digits(n: nat, d: nat)
    requires
        d < 10,
    ensures
        decimal(d).len() == 1,
        decimal(d)[0] as u32 == '0' as u32 + d,
        n > 0 ==> decimal(10 * n + d) == decimal(n) + decimal(d),
{
    if n > 0 {
        let m = 10 * n + d;
        assert(m / 10 == n && m % 10 == d) by (nonlinear_arith)
            requires
                m == 10 * n + d,
                d < 10,
        ;
        assert(decimal(m) =~= decimal(n) + decimal(d));
    }
}

/// A plus sign in front of digits changes nothing, and neither does a zero.
/// A text without digits, or with anything else in it, is no number.
pub proof fn law_numbers_are_digits(s: Seq<char>)
    ensures
        s.len() > 0 && s[0] != '+' ==> number(seq!['+'] + s) == number(s),
        s.len() > 0 && s[0] != '+' ==> number(seq!['0'] + s) == number(s),
        s.len() == 0 ==> number(s) is None,
        number(s) is Some ==> forall|i: int|
            0 <= i < s.len() ==> '0' <= #[trigger] s[i] <= '9' || (i == 0 && s[i] == '+' && s.len()
                > 1),
{
    let plus = seq!['+'] + s;
    let zero = seq!['0'] + s;
    assert(unsigned(plus) =~= s);
    if s.len() > 0 && s[0] != '+' {
        assert(unsigned(s) == s);
        assert(unsigned(zero) == zero);
        lemma_leading_zero(s);
        assert forall|i: int| 0 <= i < s.len() implies s[i] == #[trigger] zero[i + 1] by {}
        if forall|i: int| 0 <= i < zero.len() ==> is_digit(#[trigger] zero[i]) {
            assert forall|i: int| 0 <= i < s.len() implies is_digit(#[trigger] s[i]) by {
                assert(is_digit(zero[i + 1]));
            }
        }
        if forall|i: int| 0 <= i < s.len() ==> is_digit(#[trigger] s[i]) {
            assert forall|i: int| 0 <= i < zero.len() implies is_digit(#[trigger] zero[i]) by {
                if i > 0 {
                    assert(zero[i] == s[i - 1]);
                }
            }
        }
    }
    if number(s) is Some {
        assert forall|i: int| 0 <= i < s.len() implies '0' <= #[trigger] s[i] <= '9' || (i == 0
            && s[i] == '+' && s.len() > 1) by {
            let digits = unsigned(s);
            if s[0] == '+' {
                if i > 0 {
                    assert(is_digit(digits[i - 1]));
                }
            } else {
                assert(is_digit(digits[i]));
            }
        }
    }
}

proof fn lemma_leading_zero(s: Seq<char>)
    ensures
        digits_value(seq!['0'] + s) == digits_value(s),
    decreases s.len(),
{
    let zero = seq!['0'] + s;
    if s.len() == 0 {
        assert(zero.drop_last() =~= Seq::<char>::empty());
        assert(digits_value(Seq::<char>::empty()) == 0);
    } else {
        assert(zero.drop_last() =~= seq!['0'] + s.drop_last());
        lemma_leading_zero(s.drop_last());
    }
}

/// A number written in decimal reads back as itself, as long as it can be held.
pub proof fn law_decimal_reads_back(n: nat)
    ensures
        n <= usize::MAX ==> number(decimal(n)) == Some(n as usize),
        n > usize::MAX ==> number(decimal(n)) is None,
{
    lemma_decimal(n);
    assert(is_digit(decimal(n)[0]));
}

// ---------------------------------------------------------------------------
// Finding and replacing
// ---------------------------------------------------------------------------

/// A text has as many line breaks as its parts have together, and one character
/// has one where it is a line feed. Behind a line feed a line starts anew.
pub proof fn law_line_breaks_add_up(a: Seq<char>, c: char, b: Seq<char>)
    ensures
        newlines(a + b) == newlines(a) + newlines(b),
        newlines(a.push(c)) == newlines(a) + if c == '\n' {
            1nat
        } else {
            0nat
        },
        last_line_len(a.push(c)) == if c == '\n' {
            0
        } else {
            last_line_len(a) + 1
        },
        last_line_len(Seq::empty()) == 0,
        newlines(Seq::empty()) == 0,
    decreases b.len(),
{
    assert(a.push(c).drop_last() =~= a);
    if b.len() == 0 {
        assert(a + b =~= a);
    } else {
        law_line_breaks_add_up(a, c, b.drop_last());
        assert((a + b).drop_last() =~= a + b.drop_last());
    }
}

/// The line of each match is the number of line breaks in front of it, and its
/// column the number of characters behind the last of them.
pub proof fn law_matches_have_places(text: Seq<char>, needle: Seq<char>, k: int)
    requires
        0 <= k < all_matches(text, needle).len(),
    ensures
        match_lines(text, needle)[k] == newlines(text.take(all_matches(text, needle)[k])),
        match_position(text, needle, k) == Some(
            (
                newlines(text.take(all_matches(text, needle)[k])),
                last_line_len(text.take(all_matches(text, needle)[k])),
            ),
        ),
        match_position(text, needle, all_matches(text, needle).len() as int) is None,
{
}

/// A text occurs where its characters stand, one by one; an empty text is
/// found nowhere.
pub proof fn law_occurrences_are_letter_by_letter(text: Seq<char>, needle: Seq<char>, at: int)
    requires
        0 <= at <= text.len() - needle.len(),
    ensures
        occurs_at(text, needle, at) <==> forall|i: int|
            0 <= i < needle.len() ==> #[trigger] needle[i] == text[at + i],
        needle.len() == 0 ==> all_matches(text, needle).len() == 0,
{
    let part = text.subrange(at, at + needle.len());
    if forall|i: int| 0 <= i < needle.len() ==> #[trigger] needle[i] == text[at + i] {
        assert(part =~= needle);
    }
    if occurs_at(text, needle, at) {
        assert forall|i: int| 0 <= i < needle.len() implies #[trigger] needle[i] == text[at
            + i] by {
            assert(part[i] == needle[i]);
        }
    }
}

/// Replacing one occurrence leaves what stands in front of it and behind it,
/// letter by letter, and puts the replacement between them.
pub proof fn law_one_replacement_leaves_the_rest(
    text: Seq<char>,
    needle: Seq<char>,
    by: Seq<char>,
    at: int,
    i: int,
)
    requires
        occurs_at(text, needle, at),
    ensures
        ({
            let new = replaced_at(text, needle, by, at);
            &&& new.len() == text.len() - needle.len() + by.len()
            &&& 0 <= i < at ==> new[i] == text[i]
            &&& 0 <= i < by.len() ==> new[at + i] == by[i]
            &&& at + needle.len() <= i < text.len() ==> new[i - needle.len() + by.len()] == text[i]
        }),
{
}

/// A text takes as many bytes as its parts together, and a character from one
/// to four of them, as its code point needs.
pub proof fn law_bytes_add_up(a: Seq<char>, c: char)
    ensures
        byte_len(Seq::empty()) == 0,
        byte_len(a.push(c)) == byte_len(a) + char_len(c),
        (c as u32) < 0x80 ==> char_len(c) == 1,
        0x80 <= (c as u32) < 0x800 ==> char_len(c) == 2,
        0x800 <= (c as u32) < 0x10000 ==> char_len(c) == 3,
        0x10000 <= (c as u32) ==> char_len(c) == 4,
{
    let all = a.push(c);
    crate::search::lemma_byte_len_prefix(all, a.len() as int);
    assert(all.take(a.len() as int) =~= a);
    assert(all.take(a.len() as int + 1) =~= all);
    vstd::utf8::encode_utf8_valid_utf8(Seq::empty());
}

proof fn lemma_scan_from(text: Seq<char>, needle: Seq<char>, by: Seq<char>, from: int, at: int)
    requires
        0 <= from <= at <= text.len(),
    ensures
        replaced_from(text, needle, by, at) == replaced_from(
            text.skip(from),
            needle,
            by,
            at - from,
        ),
        matches_from(text.skip(from), needle, at - from) == matches_from(
            text,
            needle,
            at,
        ).map_values(|x: int| x - from),
    decreases text.len() - at,
{
    let rest = text.skip(from);
    let n = needle.len();
    if n == 0 || at + n > text.len() {
        assert(text.skip(at) =~= rest.skip(at - from));
        assert(matches_from(text, needle, at).map_values(|x: int| x - from) =~= Seq::empty());
    } else {
        assert(text.subrange(at, at + n) =~= rest.subrange(at - from, at - from + n));
        if occurs_at(text, needle, at) {
            lemma_scan_from(text, needle, by, from, at + n);
            assert(matches_from(text, needle, at).map_values(|x: int| x - from) =~= seq![at - from]
                + matches_from(text, needle, at + n).map_values(|x: int| x - from));
        } else {
            lemma_scan_from(text, needle, by, from, at + 1);
            assert(rest[at - from] == text[at]);
        }
    }
}

proof fn lemma_up_to_first(text: Seq<char>, needle: Seq<char>, by: Seq<char>, from: int)
    requires
        0 <= from <= text.len(),
        matches_from(text, needle, from).len() > 0,
    ensures
        ({
            let p = matches_from(text, needle, from)[0];
            &&& from <= p <= text.len() - needle.len()
            &&& replaced_from(text, needle, by, from) == text.subrange(from, p) + by
                + replaced_from(text, needle, by, p + needle.len())
            &&& matches_from(text, needle, from) == seq![p] + matches_from(
                text,
                needle,
                p + needle.len(),
            )
        }),
    decreases text.len() - from,
{
    if occurs_at(text, needle, from) {
        assert(text.subrange(from, from) + by =~= by);
    } else {
        lemma_up_to_first(text, needle, by, from + 1);
        let p = matches_from(text, needle, from)[0];
        let behind = replaced_from(text, needle, by, p + needle.len());
        assert(seq![text[from]] + (text.subrange(from + 1, p) + by + behind) =~= text.subrange(
            from,
            p,
        ) + by + behind);
    }
}

/// Replacing all matches leaves the text in front of the first one, puts the
/// replacement in its place, and goes on the same way behind it. Where nothing
/// matches, the text stays as it is.
pub proof fn law_replace_all_goes_on_behind_each_match(
    text: Seq<char>,
    needle: Seq<char>,
    by: Seq<char>,
)
    ensures
        all_matches(text, needle).len() == 0 ==> replaced_all(text, needle, by) == text,
        all_matches(text, needle).len() > 0 ==> ({
            let p = all_matches(text, needle)[0];
            let rest = text.skip(p + needle.len());
            &&& replaced_all(text, needle, by) == text.take(p) + by + replaced_all(rest, needle, by)
            &&& all_matches(text, needle).len() == 1 + all_matches(rest, needle).len()
        }),
{
    if all_matches(text, needle).len() > 0 {
        let p = all_matches(text, needle)[0];
        lemma_up_to_first(text, needle, by, 0);
        lemma_scan_from(text, needle, by, p + needle.len(), p + needle.len());
        assert(text.subrange(0, p) =~= text.take(p));
    } else {
        crate::search::law_replace_all_without_match(text, needle, by);
    }
}

// ---------------------------------------------------------------------------
// The output
// ---------------------------------------------------------------------------

proof fn lemma_joined_from_the_front(first: Seq<char>, rest: Seq<Seq<char>>)
    requires
        rest.len() > 0,
    ensures
        joined_lines(seq![first] + rest) == first + "\n"@ + joined_lines(rest),
    decreases rest.len(),
{
    let all = seq![first] + rest;
    assert(all.last() == rest.last());
    if rest.len() == 1 {
        assert(all.drop_last() =~= seq![first]);
        assert(joined_lines(seq![first]) == first);
    } else {
        assert(all.drop_last() =~= seq![first] + rest.drop_last());
        lemma_joined_from_the_front(first, rest.drop_last());
        assert(first + "\n"@ + joined_lines(rest.drop_last()) + "\n"@ + rest.last() =~= first
            + "\n"@ + (joined_lines(rest.drop_last()) + "\n"@ + rest.last()));
    }
}

/// A new line is shown on top of all that was shown before. Where lines were
/// dropped, the notice stands below them; without lines nothing else is shown.
pub proof fn law_a_new_line_is_shown_on_top(
    lines: Seq<Seq<char>>,
    line: Seq<char>,
    trimmed: bool,
)
    ensures
        lines.len() > 0 || trimmed ==> shown_text(lines.push(line), trimmed) == line + "\n"@
            + shown_text(lines, trimmed),
        shown_text(seq![line], false) == line,
        shown_text(Seq::empty(), true)
            == "⚠ Hinweis: ältere Ausgabe wurde verworfen – max. 5000 Zeilen"@,
        shown_text(Seq::empty(), false).len() == 0,
{
    let notice = if trimmed {
        seq![crate::output::TRIM_NOTICE@]
    } else {
        Seq::empty()
    };
    let rest = lines.reverse() + notice;
    assert(lines.push(line).reverse() + notice =~= seq![line] + rest);
    if rest.len() > 0 {
        lemma_joined_from_the_front(line, rest);
    }
    let none = Seq::<Seq<char>>::empty();
    assert(none.reverse() + seq![crate::output::TRIM_NOTICE@]
        =~= seq![crate::output::TRIM_NOTICE@]);
    assert(none.reverse() + none =~= none);
    assert(seq![line].reverse() + none =~= seq![line]);
}

// ---------------------------------------------------------------------------
// Marks and states
// ---------------------------------------------------------------------------

/// One mark more is one apostrophe more behind the text.
pub proof fn law_marks_are_apostrophes(text: Seq<char>, n: nat)
    ensures
        marked(text, 0) == text,
        marked(text, n + 1) == marked(text, n).push('\''),
{
    assert(marked(text, 0) =~= text);
    assert(marked(text, n + 1) =~= marked(text, n).push('\''));
}

/// The status of a find panel tells the match and its line, counted from 1, and
/// how many matches there are; without a line it tells that it is at none.
pub proof fn law_find_status_counts_from_one(current: nat, total: nat, line: nat)
    ensures
        find_status(current, total, Some(line)) == "Treffer "@ + decimal(current + 1) + " von "@
            + decimal(total) + " \u{2014} Zeile "@ + decimal(line + 1),
        find_status(current, total, None) == "Treffer 0 von "@ + decimal(total),
{
}

} // verus!
