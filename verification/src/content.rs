//! The text that an editor widget shows.
//!
//! The text lives in a widget content of the `iced` crate, which also holds
//! the cursor and the selection. What is stated of it is its text, its cursor,
//! its selection and what it was made to perform, in order. Where a motion
//! leaves the cursor depends on how the widget is laid out, and is not stated.

use iced::widget::text_editor;
use vstd::prelude::*;

use crate::direction::{
    can_mix, can_show, has_hebrew_or_arabic, has_kind, is_hebrew_or_arabic, is_kind, lemma_empty_loads, lemma_joint_loads, lemma_last_line_feed, lemma_loaded, lemma_made_of, loads,
    made_of, one_direction, shows, CharKind, Ends,
};
use crate::search::{char_len, char_width, find_match_position, match_position, occurs_at};
use crate::strings::{has_at, text_of, to_chars};

verus! {

/// `iced::widget::text_editor::Motion`: a motion of the cursor that the widget
/// reports. It is only handed back to the widget.
#[verifier::external_type_specification]
#[verifier::external_body]
pub struct ExMotion(iced::widget::text_editor::Motion);

/// `iced::Point`: a place that the widget or the window reports. It is only
/// handed on.
#[verifier::external_type_specification]
#[verifier::external_body]
#[verifier::reject_recursive_types(T)]
pub struct ExPoint<T>(iced::Point<T>);

/// An `iced::widget::text_editor::Content`: a text, kept line by line, with a
/// cursor and a selection. It is changed only through the functions below.
#[verifier::external_body]
pub struct Widget {
    /// The content itself, for the widget that draws it.
    pub inner: text_editor::Content,
}

/// A change of the text at the cursor.
#[derive(Debug, Clone)]
pub enum Edit {
    Insert(char),
    Paste(String),
    Enter,
    Backspace,
    Delete,
}

/// A motion of the cursor or the view that the user made in the widget.
#[derive(Debug, Clone, Copy)]
pub enum Navigation {
    Move(iced::widget::text_editor::Motion),
    Select(iced::widget::text_editor::Motion),
    SelectWord,
    SelectLine,
    SelectAll,
    Click(iced::Point),
    Drag(iced::Point),
    Scroll(i32),
}

/// What the user did in the widget.
#[derive(Debug, Clone)]
pub enum Action {
    Navigate(Navigation),
    Edit(Edit),
}

/// A motion of the cursor that the program makes.
#[derive(Debug, Clone, Copy, PartialEq, Eq, Structural)]
pub enum CursorStep {
    DocumentStart,
    Down,
    Home,
    Right,
    SelectRight,
    SelectAll,
}

/// Something that a content is made to perform.
pub enum Request {
    Step(CursorStep),
    User(Action),
}

/// The text of a widget content.
pub uninterp spec fn content_text(c: Widget) -> Seq<char>;

/// The selected text of a widget content.
pub uninterp spec fn content_selection(c: Widget) -> Option<Seq<char>>;

/// The cursor of a widget content: its line, and its place in it, in bytes.
pub uninterp spec fn content_cursor(c: Widget) -> (nat, nat);

/// The text of a widget content after an edit at its cursor.
pub uninterp spec fn text_after(c: Widget, e: Edit) -> Seq<char>;

/// What a widget content has performed since it was made, in order.
pub uninterp spec fn performed(c: Widget) -> Seq<Request>;

/// The characters that an edit brings in.
pub open spec fn brought_in(e: Edit) -> Seq<char> {
    match e {
        Edit::Insert(c) => seq![c],
        Edit::Paste(text) => text@,
        Edit::Enter | Edit::Backspace | Edit::Delete => Seq::empty(),
    }
}

/// The number of characters of `s` in front of its first line ending.
pub open spec fn line_len(s: Seq<char>) -> nat
    decreases s.len(),
{
    if s.len() == 0 || s[0] == '\r' || s[0] == '\n' {
        0
    } else {
        1 + line_len(s.skip(1))
    }
}

/// The length of the line ending that `s` starts with.
pub open spec fn ending_len(s: Seq<char>) -> nat {
    if s.len() >= 2 && (s[0] == '\r' && s[1] == '\n' || s[0] == '\n' && s[1] == '\r') {
        2
    } else {
        1
    }
}

/// The lines of `s`, each ended by a carriage return, a line feed, or one of
/// each; there is no line behind the last ending.
pub open spec fn lines_of(s: Seq<char>) -> Seq<Seq<char>>
    decreases s.len(),
{
    let n = line_len(s);
    if s.len() == 0 {
        Seq::empty()
    } else if n >= s.len() {
        seq![s]
    } else {
        seq![s.take(n as int)] + lines_of(s.skip((n + ending_len(s.skip(n as int))) as int))
    }
}

/// The given lines, joined with line feeds.
pub open spec fn joined_lines(lines: Seq<Seq<char>>) -> Seq<char>
    decreases lines.len(),
{
    if lines.len() == 0 {
        Seq::empty()
    } else if lines.len() == 1 {
        lines[0]
    } else {
        joined_lines(lines.drop_last()) + "\n"@ + lines.last()
    }
}

/// `t` with a line feed at its end where there is none.
pub open spec fn with_line_feed(t: Seq<char>) -> Seq<char> {
    if t.len() > 0 && t.last() == '\n' {
        t
    } else {
        t.push('\n')
    }
}

/// The text that a content made from `s` has: its lines joined with line
/// feeds, and a line feed at the end where there is none.
pub open spec fn loaded_text(s: Seq<char>) -> Seq<char> {
    with_line_feed(joined_lines(lines_of(s)))
}

/// Whether `lines` is the whole of `text`, with or without the line feed at its
/// end.
pub open spec fn is_whole_text(lines: Seq<char>, text: Seq<char>) -> bool {
    lines == text || lines.push('\n') == text
}

/// Whether `after` is what is left of `before` without one occurrence of
/// `part`.
pub open spec fn is_without(after: Seq<char>, before: Seq<char>, part: Seq<char>) -> bool {
    exists|lines: Seq<char>, at: int|
        {
            &&& is_whole_text(lines, before)
            &&& #[trigger] occurs_at(lines, part, at)
            &&& after == with_line_feed(lines.take(at) + lines.skip(at + part.len()))
        }
}

// ---------------------------------------------------------------------------
// Edits
// ---------------------------------------------------------------------------

/// A place one character further on.
pub open spec fn behind(at: Option<nat>) -> Option<nat> {
    match at {
        Some(n) => Some(n + 1),
        None => None,
    }
}

/// The place in `text`, counted in characters, that is `index` bytes into line
/// `line`.
pub open spec fn place(text: Seq<char>, line: nat, index: nat) -> Option<nat>
    decreases text.len(),
{
    if line == 0 && index == 0 {
        Some(0)
    } else if text.len() == 0 {
        None
    } else if line > 0 {
        behind(
            place(
                text.skip(1),
                if text[0] == '\n' {
                    (line - 1) as nat
                } else {
                    line
                },
                index,
            ),
        )
    } else if text[0] == '\n' || char_len(text[0]) > index {
        None
    } else {
        behind(place(text.skip(1), 0, (index - char_len(text[0])) as nat))
    }
}

/// Whether `c` is a control character.
pub open spec fn is_control(c: char) -> bool {
    c <= '\u{1f}' || '\u{7f}' <= c <= '\u{9f}'
}

/// `s` without a control character at its end; a line feed stays.
pub open spec fn cleaned(s: Seq<char>) -> Seq<char> {
    if s.len() > 0 && is_control(s.last()) && s.last() != '\n' {
        s.drop_last()
    } else {
        s
    }
}

/// Whether a widget ignores an edit: most control characters cannot be typed.
pub open spec fn is_ignored(e: Edit) -> bool {
    e matches Edit::Insert(c) && is_control(c) && c != '\t' && c != '\n' && c != '\u{92}'
}

/// What an edit puts into the text.
pub open spec fn typed(e: Edit) -> Seq<char> {
    match e {
        Edit::Insert(c) => cleaned(seq![c]),
        Edit::Paste(text) => cleaned(text@),
        Edit::Enter => seq!['\n'],
        Edit::Backspace | Edit::Delete => Seq::empty(),
    }
}

/// Whether `c` begins a letter of its own, unless a prefixed mark stands in
/// front of it: ASCII, Latin, Hebrew and Arabic characters do.
pub open spec fn is_base(c: char) -> bool {
    ||| is_kind(c, CharKind::Neutral)
    ||| is_kind(c, CharKind::Latin)
    ||| is_hebrew_or_arabic(c) && c != '\u{70f}'
}

/// Whether `c` may be a mark that belongs to what follows it.
pub open spec fn may_be_prefixed(c: char) -> bool {
    ||| '\u{600}' <= c <= '\u{605}'
    ||| c == '\u{6dd}'
    ||| c == '\u{70f}'
    ||| '\u{890}' <= c <= '\u{891}'
    ||| c == '\u{8e2}'
    ||| '\u{d4e}' <= c
}

/// Whether `text` from `a` to `b` may be a letter with its marks: one
/// character, or several of which none ends a line or a paragraph and none but
/// the first begins a letter of its own.
pub open spec fn may_be_letter(text: Seq<char>, a: int, b: int) -> bool {
    ||| b == a + 1
    ||| {
        &&& forall|i: int|
            a <= i < b ==> #[trigger] text[i] != '\n' && !is_kind(text[i], CharKind::Separator)
        &&& forall|i: int|
            a < i < b && is_base(#[trigger] text[i]) ==> may_be_prefixed(text[i - 1])
    }
}

/// Whether an edit with the cursor at `at` can take away `text` from `a` to
/// `b`: the selected text round the cursor, or the character in front of the
/// cursor, or the letter at the cursor with all its marks, or nothing.
pub open spec fn takes_away(
    text: Seq<char>,
    at: nat,
    selection: Option<Seq<char>>,
    e: Edit,
    a: int,
    b: int,
) -> bool {
    &&& 0 <= a <= at <= b <= text.len()
    &&& match selection {
        Some(part) => text.subrange(a, b) == part,
        None => match e {
            Edit::Insert(_) | Edit::Paste(_) | Edit::Enter => a == b,
            Edit::Backspace => b == at && (a == at - 1 || at == 0),
            Edit::Delete => a == b || (at < b && may_be_letter(text, a, b)),
        },
    }
}

/// `text` with `s` in the place of what stands from `a` to `b`.
pub open spec fn spliced(text: Seq<char>, a: int, b: int, s: Seq<char>) -> Seq<char> {
    text.take(a) + s + text.skip(b)
}

/// Whether `after` can come of an edit of `text` with the cursor at `at`.
pub open spec fn is_edited(
    after: Seq<char>,
    text: Seq<char>,
    at: nat,
    selection: Option<Seq<char>>,
    e: Edit,
) -> bool {
    if is_ignored(e) {
        after == text
    } else {
        exists|lines: Seq<char>, a: int, b: int|
            {
                &&& is_whole_text(lines, text)
                &&& #[trigger] takes_away(lines, at, selection, e, a, b)
                &&& after == with_line_feed(spliced(lines, a, b, typed(e)))
            }
    }
}

/// Whether `text` can be laid out with what an edit types in the place of
/// whatever it can take away at `at`.
pub open spec fn always_shows(
    text: Seq<char>,
    at: nat,
    selection: Option<Seq<char>>,
    e: Edit,
) -> bool {
    forall|a: int, b: int| #[trigger]
        takes_away(text, at, selection, e, a, b) ==> shows(spliced(text, a, b, typed(e)))
}

/// Whether whatever comes of an edit of `text` at the cursor can be laid out.
pub open spec fn edit_shows(
    text: Seq<char>,
    cursor: (nat, nat),
    selection: Option<Seq<char>>,
    e: Edit,
) -> bool {
    match place(text, cursor.0, cursor.1) {
        Some(at) => is_ignored(e) || always_shows(text, at, selection, e),
        None => false,
    }
}

/// Whether a text can be laid out after an edit: its characters and those
/// brought in can be in whatever order, or whatever comes of the edit at the
/// cursor can.
pub open spec fn takes_edit(
    text: Seq<char>,
    cursor: (nat, nat),
    selection: Option<Seq<char>>,
    e: Edit,
) -> bool {
    one_direction(text + brought_in(e)) || edit_shows(text, cursor, selection, e)
}

/// What comes of an edit that can be laid out shows.
proof fn lemma_edited_shows(
    after: Seq<char>,
    text: Seq<char>,
    cursor: (nat, nat),
    selection: Option<Seq<char>>,
    e: Edit,
)
    requires
        shows(text),
        edit_shows(text, cursor, selection, e),
        is_edited(after, text, place(text, cursor.0, cursor.1)->0, selection, e),
    ensures
        shows(after),
{
    let at = place(text, cursor.0, cursor.1)->0;
    if !is_ignored(e) {
        let (lines, a, b) = choose|lines: Seq<char>, a: int, b: int|
            {
                &&& is_whole_text(lines, text)
                &&& #[trigger] takes_away(lines, at, selection, e, a, b)
                &&& after == with_line_feed(spliced(lines, a, b, typed(e)))
            };
        let part = spliced(lines, a, b, typed(e));
        assert(text.subrange(a, b) =~= lines.subrange(a, b));
        assert(forall|i: int| 0 <= i < lines.len() ==> #[trigger] text[i] == lines[i]);
        assert(may_be_letter(lines, a, b) ==> may_be_letter(text, a, b)) by {
            if may_be_letter(lines, a, b) && b != a + 1 {
                assert forall|i: int| a < i < b && is_base(#[trigger] text[i]) implies
                    may_be_prefixed(text[i - 1]) by {
                    assert(text[i] == lines[i]);
                }
            }
        }
        assert(takes_away(text, at, selection, e, a, b));
        lemma_last_line_feed(part);
        if lines != text {
            assert(spliced(text, a, b, typed(e)) =~= part.push('\n'));
        }
    }
}

impl Widget {
    /// `text_editor::Content::with_text`: its text is made of the lines of
    /// `text`, as [`loaded_text`] says, the cursor stands at its start, nothing
    /// is selected and nothing was performed yet. It panics where the
    /// paragraphs of a line run in different directions, which [`loads`] rules
    /// out.
    #[verifier::external_body]
    fn with_text(text: &str) -> (r: Widget)
        requires
            loads(text@),
        ensures
            content_text(r) == loaded_text(text@),
            content_cursor(r) == (0nat, 0nat),
            content_selection(r) is None,
            performed(r) == Seq::<Request>::empty(),
    {
        Widget { inner: text_editor::Content::with_text(text) }
    }

    /// `text_editor::Content::text`: the text, which always ends with a line
    /// feed.
    #[verifier::external_body]
    fn text(&self) -> (r: String)
        ensures
            r@ == content_text(*self),
            r@.len() > 0 && r@.last() == '\n',
    {
        self.inner.text()
    }

    /// `text_editor::Content::selection`: the selected text, where there is a
    /// selection.
    #[verifier::external_body]
    fn selection(&self) -> (r: Option<String>)
        ensures
            text_of(r) == content_selection(*self),
    {
        self.inner.selection()
    }

    /// `text_editor::Content::cursor_position`: the line of the cursor, and its
    /// place in it, in bytes.
    #[verifier::external_body]
    fn cursor(&self) -> (r: (usize, usize))
        ensures
            (r.0 as nat, r.1 as nat) == content_cursor(*self),
    {
        self.inner.cursor_position()
    }

    /// `text_editor::Content::perform` with a motion, which leaves the text
    /// alone. Selecting all of a text that has any selects its lines. Where
    /// the other motions leave the cursor and the selection depends on the
    /// layout, and nothing is said of it. It panics where the paragraphs of a
    /// line run in different directions, which the text rules out.
    #[verifier::external_body]
    fn step(&mut self, step: CursorStep)
        requires
            shows(content_text(*old(self))),
        ensures
            content_text(*final(self)) == content_text(*old(self)),
            performed(*final(self)) == performed(*old(self)) + seq![Request::Step(step)],
            step == CursorStep::SelectAll && content_text(*old(self)).len() > 1 ==> (
            content_selection(*final(self)) matches Some(part) && is_whole_text(
                part,
                content_text(*old(self)),
            )),
    {
        self.inner.perform(match step {
            CursorStep::DocumentStart => text_editor::Action::Move(text_editor::Motion::DocumentStart),
            CursorStep::Down => text_editor::Action::Move(text_editor::Motion::Down),
            CursorStep::Home => text_editor::Action::Move(text_editor::Motion::Home),
            CursorStep::Right => text_editor::Action::Move(text_editor::Motion::Right),
            CursorStep::SelectRight => text_editor::Action::Select(text_editor::Motion::Right),
            CursorStep::SelectAll => text_editor::Action::SelectAll,
        });
    }

    /// `text_editor::Content::perform` with what the user did without changing
    /// the text. The text stays; nothing is said of the cursor, the selection
    /// and the scroll position, which depend on the layout. It panics where
    /// the paragraphs of a line run in different directions, which the text
    /// rules out.
    #[verifier::external_body]
    fn navigate(&mut self, navigation: Navigation)
        requires
            shows(content_text(*old(self))),
        ensures
            content_text(*final(self)) == content_text(*old(self)),
            performed(*final(self)) == performed(*old(self)) + seq![
                Request::User(Action::Navigate(navigation)),
            ],
    {
        self.inner.perform(match navigation {
            Navigation::Move(motion) => text_editor::Action::Move(motion),
            Navigation::Select(motion) => text_editor::Action::Select(motion),
            Navigation::SelectWord => text_editor::Action::SelectWord,
            Navigation::SelectLine => text_editor::Action::SelectLine,
            Navigation::SelectAll => text_editor::Action::SelectAll,
            Navigation::Click(point) => text_editor::Action::Click(point),
            Navigation::Drag(point) => text_editor::Action::Drag(point),
            Navigation::Scroll(lines) => text_editor::Action::Scroll { lines },
        });
    }

    /// `text_editor::Content::perform` with an edit: the text afterwards is a
    /// function of the content, its cursor and selection included, and of the
    /// edit. It holds no characters but those of the text before, those that
    /// the edit brings in, and line feeds. Where the cursor is a place in the
    /// text, what the edit types stands there, for what it takes away, as
    /// [`is_edited`] says; which marks belong to the letter that is deleted at
    /// the cursor is left open, as far as [`may_be_letter`] allows. Backspace removes the selection, where there
    /// is one. It panics where the paragraphs of a line then run in different
    /// directions, which [`takes_edit`] rules out.
    #[verifier::external_body]
    fn edit(&mut self, edit: Edit)
        requires
            shows(content_text(*old(self))),
            takes_edit(
                content_text(*old(self)),
                content_cursor(*old(self)),
                content_selection(*old(self)),
                edit,
            ),
        ensures
            content_text(*final(self)) == text_after(*old(self), edit),
            performed(*final(self)) == performed(*old(self)) + seq![
                Request::User(Action::Edit(edit)),
            ],
            made_of(content_text(*final(self)), content_text(*old(self)), brought_in(edit)),
            place(
                content_text(*old(self)),
                content_cursor(*old(self)).0,
                content_cursor(*old(self)).1,
            ) matches Some(at) ==> is_edited(
                content_text(*final(self)),
                content_text(*old(self)),
                at,
                content_selection(*old(self)),
                edit,
            ),
            edit is Backspace ==> (content_selection(*old(self)) matches Some(part) ==> is_without(
                content_text(*final(self)),
                content_text(*old(self)),
                part,
            )),
    {
        self.inner.perform(text_editor::Action::Edit(match edit {
            Edit::Insert(c) => text_editor::Edit::Insert(c),
            Edit::Paste(text) => text_editor::Edit::Paste(std::sync::Arc::new(text)),
            Edit::Enter => text_editor::Edit::Enter,
            Edit::Backspace => text_editor::Edit::Backspace,
            Edit::Delete => text_editor::Edit::Delete,
        }));
    }
}

/// The place in `text` that is `index` bytes into line `line`.
fn place_of(text: &Vec<char>, line: usize, index: usize) -> (r: Option<usize>)
    ensures
        match r {
            Some(at) => place(text@, line as nat, index as nat) == Some(at as nat) && at
                <= text@.len(),
            None => place(text@, line as nat, index as nat) is None,
        },
{
    let mut lines: usize = line;
    let mut bytes: usize = index;
    let mut i: usize = 0;
    assert(text@.skip(0) =~= text@);
    while lines > 0 || bytes > 0
        invariant
            i <= text@.len(),
            place(text@, line as nat, index as nat) == match place(
                text@.skip(i as int),
                lines as nat,
                bytes as nat,
            ) {
                Some(n) => Some(n + i as nat),
                None => None,
            },
        decreases text@.len() - i,
    {
        if i >= text.len() {
            return None;
        }
        let c: char = text[i];
        let ghost rest = text@.skip(i as int);
        assert(rest[0] == c);
        assert(rest.skip(1) =~= text@.skip(i + 1));
        if lines > 0 {
            if c == '\n' {
                lines -= 1;
            }
        } else {
            if c == '\n' {
                return None;
            }
            let width: usize = char_width(c);
            if width > bytes {
                return None;
            }
            bytes -= width;
        }
        i += 1;
    }
    Some(i)
}

/// Whether `c` is a control character.
fn control(c: char) -> (r: bool)
    ensures
        r == is_control(c),
{
    c <= '\u{1f}' || ('\u{7f}' <= c && c <= '\u{9f}')
}

/// `text` with `s` in the place of what stands from `a` to `b`.
fn splice(text: &Vec<char>, a: usize, b: usize, s: &Vec<char>) -> (r: Vec<char>)
    requires
        a <= b <= text@.len(),
    ensures
        r@ == spliced(text@, a as int, b as int, s@),
{
    let mut r: Vec<char> = Vec::new();
    for i in 0..a
        invariant
            a <= text@.len(),
            r@ == text@.take(i as int),
    {
        r.push(text[i]);
        assert(r@ =~= text@.take(i + 1));
    }
    let ghost front = r@;
    for i in 0..s.len()
        invariant
            r@ == front + s@.take(i as int),
    {
        r.push(s[i]);
        assert(r@ =~= front + s@.take(i + 1));
    }
    let ghost middle = r@;
    assert(middle =~= text@.take(a as int) + s@);
    let mut k: usize = b;
    while k < text.len()
        invariant
            b <= k <= text@.len(),
            r@ == middle + text@.subrange(b as int, k as int),
        decreases text@.len() - k,
    {
        r.push(text[k]);
        k += 1;
        assert(r@ =~= middle + text@.subrange(b as int, k as int));
    }
    assert(text@.subrange(b as int, text@.len() as int) =~= text@.skip(b as int));
    r
}

/// Whether `line` from `a` to `b` may be a letter with its marks.
fn letter(line: &Vec<char>, a: usize, b: usize) -> (r: bool)
    requires
        a < b <= line@.len(),
    ensures
        r == may_be_letter(line@, a as int, b as int),
{
    if b - a == 1 {
        return true;
    }
    let mut i: usize = a;
    while i < b
        invariant
            a <= i <= b <= line@.len(),
            b != a + 1,
            forall|k: int|
                a <= k < i ==> #[trigger] line@[k] != '\n' && !is_kind(
                    line@[k],
                    CharKind::Separator,
                ),
            forall|k: int|
                a < k < i && is_base(#[trigger] line@[k]) ==> may_be_prefixed(line@[k - 1]),
        decreases b - i,
    {
        let c: char = line[i];
        if c == '\n' || has_kind(c, CharKind::Separator) {
            assert(!(line@[i as int] != '\n' && !is_kind(line@[i as int], CharKind::Separator)));
            return false;
        }
        if i > a && begins_letter(c) && !prefixed(line[i - 1]) {
            assert(is_base(line@[i as int]) && !may_be_prefixed(line@[i - 1]));
            return false;
        }
        i += 1;
    }
    true
}

fn begins_letter(c: char) -> (r: bool)
    ensures
        r == is_base(c),
{
    has_kind(c, CharKind::Neutral) || has_kind(c, CharKind::Latin) || (has_hebrew_or_arabic(c) && c
        != '\u{70f}')
}

fn prefixed(c: char) -> (r: bool)
    ensures
        r == may_be_prefixed(c),
{
    ('\u{600}' <= c && c <= '\u{605}') || c == '\u{6dd}' || c == '\u{70f}' || ('\u{890}' <= c && c
        <= '\u{891}') || c == '\u{8e2}' || '\u{d4e}' <= c
}

/// A part of a letter with its marks may be one too.
proof fn lemma_shorter_letter(line: Seq<char>, a: int, b: int, i: int, j: int)
    requires
        may_be_letter(line, a, b),
        a <= i < j <= b,
    ensures
        may_be_letter(line, i, j),
{
}

/// A line of a text has the letters that the text has there.
proof fn lemma_same_letter(text: Seq<char>, a: int, b: int, line: Seq<char>, from: int)
    requires
        0 <= from <= a < b <= from + line.len() <= text.len(),
        forall|i: int| 0 <= i < line.len() ==> #[trigger] line[i] == text[i + from],
    ensures
        may_be_letter(text, a, b) == may_be_letter(line, a - from, b - from),
{
    if may_be_letter(text, a, b) && b != a + 1 {
        assert forall|i: int| a - from < i < b - from && is_base(#[trigger] line[i]) implies
            may_be_prefixed(line[i - 1]) by {
            assert(text[i + from] == line[i]);
            assert(text[i + from - 1] == line[i - 1]);
        }
        assert forall|i: int| a - from <= i < b - from implies #[trigger] line[i] != '\n'
            && !is_kind(line[i], CharKind::Separator) by {
            assert(text[i + from] == line[i]);
        }
    }
    if may_be_letter(line, a - from, b - from) && b != a + 1 {
        assert forall|i: int| a < i < b && is_base(#[trigger] text[i]) implies may_be_prefixed(
            text[i - 1],
        ) by {
            assert(text[i] == line[i - from]);
            assert(text[i - 1] == line[i - 1 - from]);
        }
        assert forall|i: int| a <= i < b implies #[trigger] text[i] != '\n' && !is_kind(
            text[i],
            CharKind::Separator,
        ) by {
            assert(text[i] == line[i - from]);
        }
    }
}

/// Another line in a text that can be laid out leaves it so exactly where that
/// line can be laid out.
proof fn lemma_line_replaced(text: Seq<char>, from: int, to: int, line: Seq<char>)
    requires
        shows(text),
        0 <= from <= to <= text.len(),
        from == 0 || text[from - 1] == '\n',
        to == text.len() || text[to] == '\n',
    ensures
        shows(spliced(text, from, to, line)) == shows(line),
{
    let old_line = text.subrange(from, to);
    let after = spliced(text, from, to, line);
    let tail = text.skip(to);
    if to < text.len() {
        let rest = text.skip(to + 1);
        assert(old_line + tail =~= old_line.push('\n') + rest);
        assert(line + tail =~= line.push('\n') + rest);
        lemma_joint_loads(old_line, '\n', rest, Ends::LineFeed);
        lemma_joint_loads(line, '\n', rest, Ends::LineFeed);
    } else {
        assert(line + tail =~= line);
    }
    if from > 0 {
        let head = text.take(from - 1);
        assert(text =~= head.push('\n') + (old_line + tail));
        assert(after =~= head.push('\n') + (line + tail));
        lemma_joint_loads(head, '\n', old_line + tail, Ends::LineFeed);
        lemma_joint_loads(head, '\n', line + tail, Ends::LineFeed);
    } else {
        assert(text =~= old_line + tail);
        assert(after =~= line + tail);
    }
}

/// Where the line round `at` starts and ends.
fn line_round(text: &Vec<char>, at: usize) -> (r: (usize, usize))
    requires
        at <= text@.len(),
    ensures
        is_line(text@, r.0 as int, r.1 as int),
        r.0 <= at <= r.1,
{
    let total: usize = text.len();
    let mut from: usize = at;
    while from > 0 && text[from - 1] != '\n'
        invariant
            from <= at <= total,
            total == text@.len(),
            forall|i: int| from <= i < at ==> #[trigger] text@[i] != '\n',
        decreases from,
    {
        from -= 1;
    }
    let mut to: usize = at;
    while to < total && text[to] != '\n'
        invariant
            at <= to <= total,
            total == text@.len(),
            forall|i: int| at <= i < to ==> #[trigger] text@[i] != '\n',
        decreases total - to,
    {
        to += 1;
    }
    (from, to)
}

/// The characters of `text` from `from` to `to`.
fn part_of(text: &Vec<char>, from: usize, to: usize) -> (r: Vec<char>)
    requires
        from <= to <= text@.len(),
    ensures
        r@ == text@.subrange(from as int, to as int),
{
    let mut r: Vec<char> = Vec::new();
    let mut k: usize = from;
    while k < to
        invariant
            from <= k <= to <= text@.len(),
            r@ == text@.subrange(from as int, k as int),
        decreases to - k,
    {
        r.push(text[k]);
        k += 1;
        assert(r@ =~= text@.subrange(from as int, k as int));
    }
    r
}

/// Whether a line of `text` goes from `from` to `to`.
spec fn is_line(text: Seq<char>, from: int, to: int) -> bool {
    &&& 0 <= from <= to <= text.len()
    &&& from == 0 || text[from - 1] == '\n'
    &&& to == text.len() || text[to] == '\n'
    &&& forall|i: int| from <= i < to ==> #[trigger] text[i] != '\n'
}

/// Whether a line can be laid out without any letter with its marks that stands
/// at `at`.
spec fn letters_show(line: Seq<char>, at: int) -> bool {
    forall|a: int, b: int| #[trigger]
        may_be_letter(line, a, b) && 0 <= a <= at < b <= line.len() ==> shows(
            spliced(line, a, b, Seq::empty()),
        )
}

/// A letter of a line is taken from the text as it is taken from the line.
proof fn lemma_letter_in_line(text: Seq<char>, from: int, to: int, a: int, b: int)
    requires
        shows(text),
        is_line(text, from, to),
        from <= a < b <= to,
    ensures
        shows(spliced(text, a, b, Seq::empty())) == shows(
            spliced(text.subrange(from, to), a - from, b - from, Seq::empty()),
        ),
        may_be_letter(text, a, b) == may_be_letter(text.subrange(from, to), a - from, b - from),
{
    let line = text.subrange(from, to);
    let shorter = spliced(line, a - from, b - from, Seq::empty());
    lemma_line_replaced(text, from, to, shorter);
    assert(spliced(text, from, to, shorter) =~= spliced(text, a, b, Seq::empty()));
    lemma_same_letter(text, a, b, line, from);
}

/// Deleting at the cursor is judged by the letters of its line.
proof fn lemma_letters_of_line(text: Seq<char>, at: int, from: int, to: int)
    requires
        shows(text),
        is_line(text, from, to),
        from <= at < to,
    ensures
        always_shows(text, at as nat, None, Edit::Delete) == letters_show(
            text.subrange(from, to),
            at - from,
        ),
{
    let line = text.subrange(from, to);
    assert(spliced(text, at, at, Seq::empty()) =~= text);
    if letters_show(line, at - from) {
        assert forall|a: int, b: int| #[trigger]
            takes_away(text, at as nat, None, Edit::Delete, a, b) implies shows(
            spliced(text, a, b, Seq::empty()),
        ) by {
            if a != b {
                if b != a + 1 {
                    if a < from {
                        assert(text[from - 1] != '\n');
                    }
                    if b > to {
                        assert(text[to] != '\n');
                    }
                }
                lemma_letter_in_line(text, from, to, a, b);
                assert(may_be_letter(line, a - from, b - from));
            }
        }
    }
    if always_shows(text, at as nat, None, Edit::Delete) {
        assert forall|a: int, b: int| #[trigger]
            may_be_letter(line, a, b) && 0 <= a <= at - from < b <= line.len() implies shows(
            spliced(line, a, b, Seq::empty()),
        ) by {
            lemma_letter_in_line(text, from, to, a + from, b + from);
            assert(takes_away(text, at as nat, None, Edit::Delete, a + from, b + from));
        }
    }
}

impl Edit {
    /// The characters that the edit brings in.
    fn added(&self) -> (r: Vec<char>)
        ensures
            r@ == brought_in(*self),
    {
        match self {
            Edit::Insert(c) => {
                let mut r: Vec<char> = Vec::new();
                r.push(*c);
                assert(r@ =~= brought_in(*self));
                r
            },
            Edit::Paste(text) => to_chars(text.as_str()),
            Edit::Enter | Edit::Backspace | Edit::Delete => Vec::new(),
        }
    }

    /// Whether the widget ignores the edit.
    fn ignored(&self) -> (r: bool)
        ensures
            r == is_ignored(*self),
    {
        match self {
            Edit::Insert(c) => control(*c) && *c != '\t' && *c != '\n' && *c != '\u{92}',
            _ => false,
        }
    }

    /// What the edit puts into the text.
    fn typing(&self) -> (r: Vec<char>)
        ensures
            r@ == typed(*self),
    {
        let mut r: Vec<char> = self.added();
        if let Edit::Enter = self {
            r.push('\n');
            assert(r@ =~= typed(*self));
            return r;
        }
        let n: usize = r.len();
        if n > 0 && control(r[n - 1]) && r[n - 1] != '\n' {
            let dropped: Option<char> = r.pop();
            assert(r@ =~= brought_in(*self).drop_last());
        }
        r
    }

    /// Whether `text` can be laid out without the selected text, where that
    /// stands at `a` and round the cursor, and with what the edit types.
    fn shows_from(&self, text: &Vec<char>, at: usize, part: &Vec<char>, a: usize) -> (r: bool)
        requires
            a <= at <= text@.len(),
        ensures
            r == forall|b: int| #[trigger]
                takes_away(text@, at as nat, Some(part@), *self, a as int, b) ==> shows(
                    spliced(text@, a as int, b, typed(*self)),
                ),
    {
        let n: usize = part.len();
        let total: usize = text.len();
        let there: bool = at - a <= n && has_at(text, a, part);
        proof {
            let tail = text@.skip(a as int);
            assert forall|b: int| takes_away(text@, at as nat, Some(part@), *self, a as int, b)
                implies b == a + n && there by {
                assert(text@.subrange(a as int, b).len() == b - a);
                assert(tail.subrange(0, n as int) =~= text@.subrange(a as int, a + n));
            }
        }
        if !there {
            return true;
        }
        proof {
            let tail = text@.skip(a as int);
            assert(tail.subrange(0, n as int) =~= text@.subrange(a as int, a + n));
            assert(takes_away(text@, at as nat, Some(part@), *self, a as int, a + n));
        }
        can_show(&splice(text, a, a + n, &self.typing()))
    }

    /// Whether `text` can be laid out without the selected text round the
    /// cursor, wherever that stands, and with what the edit types.
    fn shows_for(&self, text: &Vec<char>, at: usize, part: &Vec<char>) -> (r: bool)
        requires
            at <= text@.len(),
        ensures
            r == always_shows(text@, at as nat, Some(part@), *self),
    {
        for a in 0..at
            invariant
                at <= text@.len(),
                forall|k: int, b: int|
                    k < a && #[trigger] takes_away(text@, at as nat, Some(part@), *self, k, b)
                        ==> shows(spliced(text@, k, b, typed(*self))),
        {
            if !self.shows_from(text, at, part, a) {
                return false;
            }
        }
        self.shows_from(text, at, part, at)
    }

    /// Whether a line can be laid out without any letter with its marks that
    /// starts at `a` and ends behind `at`.
    fn shows_without_any(line: &Vec<char>, a: usize, at: usize) -> (r: bool)
        requires
            a <= at < line@.len(),
        ensures
            r == forall|b: int| #[trigger]
                may_be_letter(line@, a as int, b) && at < b <= line@.len() ==> shows(
                    spliced(line@, a as int, b, Seq::empty()),
                ),
    {
        let nothing: Vec<char> = Vec::new();
        assert(nothing@ =~= Seq::empty());
        let total: usize = line.len();
        let mut b: usize = at + 1;
        while letter(line, a, b)
            invariant
                a <= at < b <= line@.len(),
                nothing@ == Seq::<char>::empty(),
                forall|k: int| #[trigger]
                    may_be_letter(line@, a as int, k) && at < k < b ==> shows(
                        spliced(line@, a as int, k, Seq::empty()),
                    ),
            decreases line@.len() - b,
        {
            if !can_show(&splice(line, a, b, &nothing)) {
                assert(may_be_letter(line@, a as int, b as int));
                return false;
            }
            if b == line.len() {
                return true;
            }
            b += 1;
        }
        assert forall|k: int| #[trigger]
            may_be_letter(line@, a as int, k) && at < k <= line@.len() implies shows(
            spliced(line@, a as int, k, Seq::empty()),
        ) by {
            if k >= b {
                lemma_shorter_letter(line@, a as int, k, a as int, b as int);
            }
        }
        true
    }

    /// Whether a line can be laid out without any letter with its marks that
    /// stands at `at`.
    fn shows_without_part(line: &Vec<char>, at: usize) -> (r: bool)
        requires
            at < line@.len(),
        ensures
            r == letters_show(line@, at as int),
    {
        let total: usize = line.len();
        let mut a: usize = at;
        while a > 0 && letter(line, a - 1, at + 1)
            invariant
                a <= at < total,
                total == line@.len(),
                forall|k: int, b: int| #[trigger]
                    may_be_letter(line@, k, b) && a < k <= at < b <= line@.len() ==> shows(
                        spliced(line@, k, b, Seq::empty()),
                    ),
            decreases a,
        {
            if !Edit::shows_without_any(line, a, at) {
                return false;
            }
            a -= 1;
        }
        assert forall|k: int, b: int| #[trigger]
            may_be_letter(line@, k, b) && 0 <= k < a && at < b <= line@.len() implies false by {
            lemma_shorter_letter(line@, k, b, a - 1, at + 1);
        }
        Edit::shows_without_any(line, a, at)
    }

    /// Whether `text` can be laid out after a letter at the cursor was deleted,
    /// however many marks belong to it.
    fn shows_without_letter(text: &Vec<char>, at: usize) -> (r: bool)
        requires
            at <= text@.len(),
            shows(text@),
        ensures
            r == always_shows(text@, at as nat, None, Edit::Delete),
    {
        let nothing: Vec<char> = Vec::new();
        assert(nothing@ =~= Seq::empty());
        assert(spliced(text@, at as int, at as int, Seq::empty()) =~= text@);
        let total: usize = text.len();
        if at >= total {
            return true;
        }
        if text[at] == '\n' {
            let r: bool = can_show(&splice(text, at, at + 1, &nothing));
            assert(takes_away(text@, at as nat, None, Edit::Delete, at as int, at + 1));
            assert forall|i: int, j: int| #[trigger]
                takes_away(text@, at as nat, None, Edit::Delete, i, j) implies i == j || (i == at
                && j == at + 1) by {
                if i != j && j != i + 1 {
                    assert(text@[at as int] != '\n');
                }
            }
            return r;
        }
        let (from, to): (usize, usize) = line_round(text, at);
        let line: Vec<char> = part_of(text, from, to);
        proof {
            lemma_letters_of_line(text@, at as int, from as int, to as int);
        }
        Edit::shows_without_part(&line, at - from)
    }

    /// Whether whatever comes of the edit of `text` at the cursor can be laid
    /// out.
    fn can_be_made(
        &self,
        text: &Vec<char>,
        cursor: (usize, usize),
        selection: &Option<String>,
    ) -> (r: bool)
        requires
            shows(text@),
        ensures
            r == edit_shows(
                text@,
                (cursor.0 as nat, cursor.1 as nat),
                text_of(*selection),
                *self,
            ),
    {
        let at: usize = match place_of(text, cursor.0, cursor.1) {
            Some(at) => at,
            None => {
                return false;
            },
        };
        if self.ignored() {
            return true;
        }
        match selection {
            Some(part) => {
                let v: Vec<char> = to_chars(part.as_str());
                assert(text_of(*selection) == Some(v@));
                self.shows_for(text, at, &v)
            },
            None => match self {
                Edit::Delete => Edit::shows_without_letter(text, at),
                _ => {
                    let a: usize = match self {
                        Edit::Backspace => if at == 0 {
                            0
                        } else {
                            at - 1
                        },
                        _ => at,
                    };
                    let r: bool = can_show(&splice(text, a, at, &self.typing()));
                    assert(takes_away(text@, at as nat, None, *self, a as int, at as int));
                    assert(forall|i: int, j: int| #[trigger]
                        takes_away(text@, at as nat, None, *self, i, j) ==> i == a && j == at);
                    assert(r == always_shows(text@, at as nat, None, *self));
                    r
                },
            },
        }
    }
}

/// What is known of an [`EditorContent`].
#[verifier::ext_equal]
pub struct ContentModel {
    /// The text.
    pub text: Seq<char>,
    /// What it has performed since it was made, in order.
    pub requests: Seq<Request>,
}

/// The content of an editor.
pub struct EditorContent {
    widget: Widget,
}

impl View for EditorContent {
    type V = ContentModel;

    closed spec fn view(&self) -> ContentModel {
        ContentModel { text: content_text(self.widget), requests: performed(self.widget) }
    }
}

/// A content made from `s` that has not performed anything yet.
pub open spec fn fresh_content(s: Seq<char>) -> ContentModel {
    ContentModel { text: loaded_text(s), requests: Seq::empty() }
}

/// `step` as often as `n` says.
pub open spec fn repeated(step: CursorStep, n: nat) -> Seq<Request> {
    Seq::new(n, |i: int| Request::Step(step))
}

/// The motions that bring the cursor to a line and a column, counted from 0.
pub open spec fn goto_requests(line: nat, column: nat) -> Seq<Request> {
    seq![Request::Step(CursorStep::DocumentStart)] + repeated(CursorStep::Down, line)
        + seq![Request::Step(CursorStep::Home)] + repeated(CursorStep::Right, column)
}

impl ContentModel {
    /// The text can be laid out.
    pub open spec fn wf(self) -> bool {
        shows(self.text)
    }

    /// Whether the text can still be laid out after the user did something with
    /// the given cursor and selection.
    pub open spec fn takes(
        self,
        action: Action,
        cursor: (nat, nat),
        selection: Option<Seq<char>>,
    ) -> bool {
        match action {
            Action::Navigate(_) => true,
            Action::Edit(e) => takes_edit(self.text, cursor, selection, e),
        }
    }

    /// The content after it performed `r`, in order, with its text kept.
    pub open spec fn asked(self, r: Seq<Request>) -> ContentModel {
        ContentModel { text: self.text, requests: self.requests + r }
    }

    /// The content after the user did something that leaves `text`.
    pub open spec fn acted(self, action: Action, text: Seq<char>) -> ContentModel {
        ContentModel { text, requests: self.requests + seq![Request::User(action)] }
    }

    /// The content after the cursor was sent to the `k`-th match of `needle`
    /// and that match was selected, character by character. Without such a
    /// match nothing is performed.
    pub open spec fn with_match_selected(self, needle: Seq<char>, k: int) -> ContentModel {
        match match_position(self.text, needle, k) {
            Some((line, column)) => self.asked(
                goto_requests(line, column) + repeated(CursorStep::SelectRight, needle.len()),
            ),
            None => self,
        }
    }
}

impl EditorContent {
    /// The widget content behind it.
    pub closed spec fn inner(&self) -> Widget {
        self.widget
    }

    /// The widget content, for drawing.
    pub fn widget(&self) -> (r: &Widget)
        ensures
            *r == self.inner(),
    {
        &self.widget
    }

    /// A content with the lines of `text`.
    pub fn with_text(text: &str) -> (r: Self)
        requires
            loads(text@),
        ensures
            r@ == fresh_content(text@),
            r@.wf(),
            content_cursor(r.inner()) == (0nat, 0nat),
            content_selection(r.inner()) is None,
    {
        proof {
            lemma_loaded(text@);
        }
        EditorContent { widget: Widget::with_text(text) }
    }

    /// An empty content.
    pub fn new() -> (r: Self)
        ensures
            r@ == fresh_content(Seq::empty()),
            r@.wf(),
            content_cursor(r.inner()) == (0nat, 0nat),
            content_selection(r.inner()) is None,
    {
        proof {
            reveal_strlit("");
            assert(""@ =~= Seq::empty());
            lemma_empty_loads(Ends::LineEnd);
        }
        EditorContent::with_text("")
    }

    /// The text.
    pub fn text(&self) -> (r: String)
        ensures
            r@ == self@.text,
            r@.len() > 0 && r@.last() == '\n',
    {
        self.widget.text()
    }

    /// The selected text, where there is a selection.
    pub fn selection(&self) -> (r: Option<String>)
        ensures
            text_of(r) == content_selection(self.inner()),
    {
        self.widget.selection()
    }

    /// Moves the cursor by one step.
    pub fn step(&mut self, step: CursorStep)
        requires
            old(self)@.wf(),
        ensures
            final(self)@ == old(self)@.asked(seq![Request::Step(step)]),
            step == CursorStep::SelectAll && old(self)@.text.len() > 1 ==> (content_selection(
                final(self).inner(),
            ) matches Some(part) && is_whole_text(part, old(self)@.text)),
    {
        self.widget.step(step);
    }

    /// Moves the cursor by `n` steps of one kind.
    fn repeat(&mut self, step: CursorStep, n: usize)
        requires
            old(self)@.wf(),
        ensures
            final(self)@ == old(self)@.asked(repeated(step, n as nat)),
    {
        let ghost start = self@;
        let mut i: usize = 0;
        assert(self@ =~= start.asked(repeated(step, 0)));
        while i < n
            invariant
                i <= n,
                start.wf(),
                self@ == start.asked(repeated(step, i as nat)),
            decreases n - i,
        {
            self.step(step);
            i += 1;
            assert(self@ =~= start.asked(repeated(step, i as nat)));
        }
    }

    /// Sends the cursor to a line and a column, counted from 0.
    pub fn go_to(&mut self, line: usize, column: usize)
        requires
            old(self)@.wf(),
        ensures
            final(self)@ == old(self)@.asked(goto_requests(line as nat, column as nat)),
    {
        let ghost start = self@;
        self.step(CursorStep::DocumentStart);
        self.repeat(CursorStep::Down, line);
        self.step(CursorStep::Home);
        self.repeat(CursorStep::Right, column);
        assert(self@ =~= start.asked(goto_requests(line as nat, column as nat)));
    }

    /// Whether the text can still be laid out after the user did something.
    pub fn takes(&self, action: &Action) -> (r: bool)
        requires
            self@.wf(),
        ensures
            r == self@.takes(
                *action,
                content_cursor(self.inner()),
                content_selection(self.inner()),
            ),
    {
        match action {
            Action::Navigate(_) => true,
            Action::Edit(edit) => self.takes_edit(edit),
        }
    }

    /// Whether the text can still be laid out after an edit.
    fn takes_edit(&self, edit: &Edit) -> (r: bool)
        requires
            self@.wf(),
        ensures
            r == takes_edit(
                self@.text,
                content_cursor(self.inner()),
                content_selection(self.inner()),
                *edit,
            ),
    {
        let text: Vec<char> = to_chars(self.widget.text().as_str());
        can_mix(&text, &edit.added()) || edit.can_be_made(
            &text,
            self.widget.cursor(),
            &self.widget.selection(),
        )
    }

    /// Whether the text can still be laid out after a text was pasted.
    pub fn takes_paste(&self, pasted: &String) -> (r: bool)
        requires
            self@.wf(),
        ensures
            r == takes_edit(
                self@.text,
                content_cursor(self.inner()),
                content_selection(self.inner()),
                Edit::Paste(*pasted),
            ),
    {
        let edit: Edit = Edit::Paste(pasted.clone());
        self.takes_edit(&edit)
    }

    /// Does what the user did.
    pub fn perform(&mut self, action: Action)
        requires
            old(self)@.wf(),
            old(self)@.takes(
                action,
                content_cursor(old(self).inner()),
                content_selection(old(self).inner()),
            ),
        ensures
            final(self)@ == old(self)@.acted(
                action,
                match action {
                    Action::Navigate(_) => old(self)@.text,
                    Action::Edit(e) => text_after(old(self).inner(), e),
                },
            ),
            final(self)@.wf(),
            action == Action::Edit(Edit::Backspace) ==> (content_selection(
                old(self).inner(),
            ) matches Some(part) ==> is_without(final(self)@.text, old(self)@.text, part)),
    {
        let ghost before = *self;
        match action {
            Action::Navigate(navigation) => self.widget.navigate(navigation),
            Action::Edit(edit) => {
                self.widget.edit(edit);
                proof {
                    if one_direction(before@.text + brought_in(edit)) {
                        lemma_made_of(self@.text, before@.text, brought_in(edit));
                    } else {
                        lemma_edited_shows(
                            self@.text,
                            before@.text,
                            content_cursor(before.inner()),
                            content_selection(before.inner()),
                            edit,
                        );
                    }
                }
            },
        }
    }

    /// Sends the cursor to the `match_index`-th match of `needle` and selects
    /// as many characters from there as it has. Returns the line and the column, counted from 0, of
    /// its start; `None` where there is no such match, and the content is then
    /// left as it is, cursor and selection included.
    pub fn apply_find_selection(&mut self, needle: &str, match_index: usize) -> (r: Option<
        (usize, usize),
    >)
        requires
            old(self)@.wf(),
        ensures
            final(self)@ == old(self)@.with_match_selected(needle@, match_index as int),
            match r {
                Some(p) => match_position(old(self)@.text, needle@, match_index as int) == Some(
                    (p.0 as nat, p.1 as nat),
                ) && p.0 < usize::MAX,
                None => match_position(old(self)@.text, needle@, match_index as int) is None
                    && *final(self) == *old(self),
            },
    {
        let text: String = self.text();
        match find_match_position(text.as_str(), needle, match_index) {
            Some((line, column)) => {
                let ghost start = self@;
                let length: usize = to_chars(needle).len();
                self.go_to(line, column);
                self.repeat(CursorStep::SelectRight, length);
                assert(self@ =~= start.with_match_selected(needle@, match_index as int));
                Some((line, column))
            },
            None => None,
        }
    }
}

} // verus!
