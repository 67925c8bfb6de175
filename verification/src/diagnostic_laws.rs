//! What holds of the diagnostics that are read from cargo's output and shown.

use vstd::prelude::*;

use crate::diagnostics::{
    diagnostic_before, diagnostic_header, diagnostic_label, error_tooltip, is_sorted_listing,
    last_colon, level_label, level_word, line_level, listed_before, location, message_and_code,
    suggestion, text_before, Diagnostic, DiagnosticLevel, DiagnosticModel, EditorError,
    EditorErrorModel, HINT_E0004, HINT_E0061, HINT_E0106, HINT_E0277, HINT_E0282, HINT_E0308,
    HINT_E0369, HINT_E0382, HINT_E0425, HINT_E0499, HINT_E0502, HINT_E0505, HINT_E0507,
    HINT_E0515, HINT_E0597,
};
use crate::layout::{gutter_mark, last_error_on};
use crate::log::{first_about, LogModel};
use crate::paths::{
    absolute_path, equal_paths, joined_path, name_or, path_file_name, resolved, same_path,
    PathModel,
};
use crate::search::{all_matches, lemma_matches_from, occurs_at};
use crate::strings::{decimal, number, trimmed};

verus! {

// ---------------------------------------------------------------------------
// Header lines
// ---------------------------------------------------------------------------

/// Each level has a word in cargo's output and a label for the user.
pub proof fn law_levels_are_named(level: DiagnosticLevel)
    ensures
        level is Error ==> level_word(level) == "error"@ && level_label(level) == "FEHLER"@,
        level is Warning ==> level_word(level) == "warning"@ && level_label(level) == "WARNUNG"@,
        level is Note ==> level_word(level) == "note"@ && level_label(level) == "HINWEIS"@,
{
}

/// A header with a level and a message is read as those, unless the message
/// sums up the run.
pub proof fn law_headers_are_read(message: Seq<char>)
    requires
        !"aborting due to"@.is_prefix_of(message),
        !"could not compile"@.is_prefix_of(message),
    ensures
        diagnostic_header("error"@ + ": "@ + message) == Some(
            (DiagnosticLevel::Error, message, None::<Seq<char>>),
        ),
        diagnostic_header("warning"@ + ": "@ + message) == Some(
            (DiagnosticLevel::Warning, message, None::<Seq<char>>),
        ),
        diagnostic_header("note"@ + ": "@ + message) == Some(
            (DiagnosticLevel::Note, message, None::<Seq<char>>),
        ),
{
    crate::diagnostics::law_header_without_code(DiagnosticLevel::Error, message);
    crate::diagnostics::law_header_without_code(DiagnosticLevel::Warning, message);
    crate::diagnostics::law_header_without_code(DiagnosticLevel::Note, message);
}

/// What a header is read as is what stands in it: its level's word, then the
/// code in brackets or none, then the message up to the end. A message that
/// sums up a run is never read.
pub proof fn law_headers_hold_what_is_read(
    line: Seq<char>,
    level: DiagnosticLevel,
    message: Seq<char>,
    code: Option<Seq<char>>,
)
    requires
        diagnostic_header(line) == Some((level, message, code)),
    ensures
        !"aborting due to"@.is_prefix_of(message),
        !"could not compile"@.is_prefix_of(message),
        code is Some ==> line == level_word(level) + "["@ + code->0 + "]: "@ + message,
        code is Some ==> code->0.len() > 0,
        code is Some ==> forall|i: int|
            0 <= i < code->0.len() ==> !occurs_at(
                #[trigger] code->0.skip(i) + "]: "@ + message,
                "]: "@,
                0,
            ),
        code is None ==> line == level_word(level) + ": "@ + message || line == level_word(level)
            + "["@ + "]: "@ + message,
{
    reveal_strlit("error");
    reveal_strlit("warning");
    reveal_strlit("note");
    reveal_strlit("[");
    reveal_strlit("]: ");
    reveal_strlit(": ");
    let word = level_word(level);
    assert(line_level(line) == Some(level));
    assert(word.is_prefix_of(line));
    let rest = line.skip(word.len() as int);
    assert(line =~= word + rest);
    assert(message_and_code(rest) == Some((message, code)));
    if "["@.is_prefix_of(rest) {
        let inner = rest.skip(1);
        let ends = all_matches(inner, "]: "@);
        lemma_matches_from(inner, "]: "@, 0);
        let end = ends[0];
        assert(occurs_at(inner, "]: "@, end));
        assert(inner.subrange(end, end + 3) == "]: "@);
        assert(inner =~= inner.take(end) + "]: "@ + message);
        assert(rest =~= "["@ + inner);
        if end == 0 {
            assert(line =~= word + "["@ + "]: "@ + message);
        } else {
            let c = code->0;
            assert(line =~= word + "["@ + c + "]: "@ + message);
            assert forall|i: int| 0 <= i < c.len() implies !occurs_at(
                #[trigger] c.skip(i) + "]: "@ + message,
                "]: "@,
                0,
            ) by {
                if occurs_at(c.skip(i) + "]: "@ + message, "]: "@, 0) {
                    assert(inner.subrange(i, i + 3) =~= (c.skip(i) + "]: "@ + message).subrange(
                        0,
                        3,
                    ));
                    assert(occurs_at(inner, "]: "@, i));
                    crate::search::law_every_occurrence_is_covered(inner, "]: "@, i);
                    let k = choose|k: int|
                        0 <= k < ends.len() && #[trigger] ends[k] <= i < ends[k] + "]: "@.len();
                    if k > 0 {
                        assert(ends[0] + "]: "@.len() <= ends[k]);
                    }
                }
            }
        }
    } else {
        assert(": "@.is_prefix_of(rest));
        assert(rest =~= ": "@ + rest.skip(2));
        assert(line =~= word + ": "@ + message);
    }
}

/// A line that sums up a run is no header.
pub proof fn law_summaries_are_no_headers(level: DiagnosticLevel, rest: Seq<char>)
    ensures
        diagnostic_header(level_word(level) + ": "@ + ("aborting due to"@ + rest)) is None,
        diagnostic_header(level_word(level) + ": "@ + ("could not compile"@ + rest)) is None,
{
    lemma_summary(level, "aborting due to"@, rest);
    lemma_summary(level, "could not compile"@, rest);
}

proof fn lemma_summary(level: DiagnosticLevel, start: Seq<char>, rest: Seq<char>)
    requires
        start == "aborting due to"@ || start == "could not compile"@,
    ensures
        diagnostic_header(level_word(level) + ": "@ + (start + rest)) is None,
{
    reveal_strlit("error");
    reveal_strlit("warning");
    reveal_strlit("note");
    reveal_strlit("[");
    reveal_strlit(": ");
    let word = level_word(level);
    let message = start + rest;
    let line = word + ": "@ + message;
    assert(start =~= message.take(start.len() as int));
    assert(line[0] == word[0]);
    assert(line_level(line) == Some(level)) by {
        assert(word =~= line.take(word.len() as int));
    }
    let behind = line.skip(word.len() as int);
    assert(behind =~= ": "@ + message);
    assert(behind[0] == ':');
    assert(": "@ =~= behind.take(2));
    assert(behind.skip(2) =~= message);
}

// ---------------------------------------------------------------------------
// Location lines
// ---------------------------------------------------------------------------

proof fn lemma_colon_between(s: Seq<char>, t: Seq<char>)
    requires
        forall|i: int| 0 <= i < t.len() ==> #[trigger] t[i] != ':',
    ensures
        last_colon(s + ":"@ + t) == s.len(),
    decreases t.len(),
{
    reveal_strlit(":");
    let all = s + ":"@ + t;
    if t.len() > 0 {
        assert(all.drop_last() =~= s + ":"@ + t.drop_last());
        assert(all.last() == t.last());
        assert(t[t.len() - 1] != ':');
        lemma_colon_between(s, t.drop_last());
    } else {
        assert(all.last() == ':');
    }
}

proof fn lemma_no_colon(t: Seq<char>)
    requires
        forall|i: int| 0 <= i < t.len() ==> #[trigger] t[i] != ':',
    ensures
        last_colon(t) == -1,
    decreases t.len(),
{
    if t.len() > 0 {
        assert(t[t.len() - 1] != ':');
        lemma_no_colon(t.drop_last());
    }
}

/// A place is read from its end: the column behind the last colon, the line
/// behind the one before, the file in front of it, each without the white space
/// round it. Where line and column are not both numbers, there is no place.
pub proof fn law_places_are_read_from_the_end(
    line: Seq<char>,
    file: Seq<char>,
    row: Seq<char>,
    column: Seq<char>,
)
    requires
        trimmed(line) == "--> "@ + file + ":"@ + row + ":"@ + column,
        forall|i: int| 0 <= i < row.len() ==> #[trigger] row[i] != ':',
        forall|i: int| 0 <= i < column.len() ==> #[trigger] column[i] != ':',
    ensures
        location(line) == match (number(trimmed(row)), number(trimmed(column))) {
            (Some(l), Some(c)) => Some((trimmed(file), l, c)),
            _ => None,
        },
{
    reveal_strlit("--> ");
    reveal_strlit(":");
    let t = trimmed(line);
    let s = t.skip(4);
    assert("--> "@ =~= t.take(4));
    assert(s =~= (file + ":"@ + row) + ":"@ + column);
    lemma_colon_between(file + ":"@ + row, column);
    let second = (file + ":"@ + row).len() as int;
    assert(s.take(second) =~= file + ":"@ + row);
    lemma_colon_between(file, row);
    let first = file.len() as int;
    assert(s.subrange(first + 1, second) =~= row);
    assert(s.skip(second + 1) =~= column);
    assert(s.take(first) =~= file);
}

/// A line that does not start with the arrow names no place, and neither does
/// one with fewer than two colons.
pub proof fn law_other_lines_name_no_place(line: Seq<char>, a: Seq<char>, b: Seq<char>)
    requires
        forall|i: int| 0 <= i < a.len() ==> #[trigger] a[i] != ':',
        forall|i: int| 0 <= i < b.len() ==> #[trigger] b[i] != ':',
    ensures
        !"--> "@.is_prefix_of(trimmed(line)) ==> location(line) is None,
        trimmed(line) == "--> "@ + a ==> location(line) is None,
        trimmed(line) == "--> "@ + a + ":"@ + b ==> location(line) is None,
{
    reveal_strlit("--> ");
    reveal_strlit(":");
    let t = trimmed(line);
    if t == "--> "@ + a {
        assert(t.skip(4) =~= a);
        lemma_no_colon(a);
    } else if t == "--> "@ + a + ":"@ + b {
        assert(t.skip(4) =~= a + ":"@ + b);
        lemma_colon_between(a, b);
        assert(t.skip(4).take(a.len() as int) =~= a);
        lemma_no_colon(a);
    }
}

// ---------------------------------------------------------------------------
// The log
// ---------------------------------------------------------------------------

/// A header waits for its place, and a later one takes the place of an earlier
/// one that still waits; no diagnostic is lost or added by it.
pub proof fn law_the_later_header_waits(
    log: LogModel,
    line: Seq<char>,
    project: Seq<char>,
    separator: char,
)
    requires
        diagnostic_header(line) is Some,
    ensures
        log.noted(line, project, separator).pending == diagnostic_header(line),
        log.noted(line, project, separator).diagnostics == log.diagnostics,
{
}

/// A line that is no header does something only where it names a place and a
/// header waits: the two make the newest diagnostic, and nothing waits any more.
pub proof fn law_a_place_needs_a_header(
    log: LogModel,
    line: Seq<char>,
    project: Seq<char>,
    separator: char,
)
    requires
        diagnostic_header(line) is None,
    ensures
        location(line) is None || log.pending is None ==> log.noted(line, project, separator)
            == log,
        location(line) is Some && log.pending is Some ==> ({
            let after = log.noted(line, project, separator);
            let new = after.diagnostics.last();
            let file = PathModel { text: (location(line)->0).0, separator };
            &&& after.pending is None
            &&& after.diagnostics.len() == log.diagnostics.len() + 1
            &&& after.diagnostics.drop_last() == log.diagnostics
            &&& new.level == (log.pending->0).0
            &&& new.message == (log.pending->0).1
            &&& new.error_code == (log.pending->0).2
            &&& new.file == resolved(project, file)
            &&& new.line == (location(line)->0).1
            &&& new.column == (location(line)->0).2
        }),
{
    if location(line) is Some && log.pending is Some {
        let after = log.noted(line, project, separator);
        assert(after.diagnostics.drop_last() =~= log.diagnostics);
    }
}

/// What is known about a line of a file is what the first diagnostic about it
/// says.
pub proof fn law_the_first_diagnostic_tells(log: LogModel, path: PathModel, line: usize, i: int)
    requires
        0 <= i < log.diagnostics.len(),
        same_path(log.diagnostics[i].file, path),
        log.diagnostics[i].line == line,
        forall|j: int|
            0 <= j < i ==> !(same_path((#[trigger] log.diagnostics[j]).file, path)
                && log.diagnostics[j].line == line),
    ensures
        log.about(path, line) == (log.diagnostics[i].message, log.diagnostics[i].error_code),
{
    lemma_first_about(log.diagnostics, path, line, 0, i);
}

proof fn lemma_first_about(
    d: Seq<DiagnosticModel>,
    path: PathModel,
    line: usize,
    from: int,
    i: int,
)
    requires
        0 <= from <= i < d.len(),
        same_path(d[i].file, path),
        d[i].line == line,
        forall|j: int|
            0 <= j < i ==> !(same_path((#[trigger] d[j]).file, path) && d[j].line == line),
    ensures
        first_about(d, path, line, from) == Some(d[i]),
    decreases i - from,
{
    if from < i {
        assert(!(same_path(d[from].file, path) && d[from].line == line));
        lemma_first_about(d, path, line, from + 1, i);
    }
}

/// Nothing is known about a line that no diagnostic is about.
pub proof fn law_no_diagnostic_tells_nothing(log: LogModel, path: PathModel, line: usize)
    requires
        forall|j: int|
            0 <= j < log.diagnostics.len() ==> !(same_path(
                (#[trigger] log.diagnostics[j]).file,
                path,
            ) && log.diagnostics[j].line == line),
    ensures
        log.about(path, line).0.len() == 0,
        log.about(path, line).1 is None,
{
    lemma_none_about(log.diagnostics, path, line, 0);
}

proof fn lemma_none_about(d: Seq<DiagnosticModel>, path: PathModel, line: usize, from: int)
    requires
        0 <= from,
        forall|j: int|
            0 <= j < d.len() ==> !(same_path((#[trigger] d[j]).file, path) && d[j].line == line),
    ensures
        first_about(d, path, line, from) is None,
    decreases d.len() - from,
{
    if from < d.len() {
        assert(!(same_path(d[from].file, path) && d[from].line == line));
        lemma_none_about(d, path, line, from + 1);
    }
}

// ---------------------------------------------------------------------------
// Paths
// ---------------------------------------------------------------------------

/// An absolute path is its own; any other is joined to the directory it is seen
/// from. A path is named by its last component where it has one, and two paths
/// are the same where their components are.
pub proof fn law_paths(base: Seq<char>, file: PathModel, other: PathModel, name: Seq<char>)
    ensures
        absolute_path(file.separator, file.text) ==> resolved(base, file) == file,
        !absolute_path(file.separator, file.text) ==> resolved(base, file).text == joined_path(
            file.separator,
            base,
            file.text,
        ),
        resolved(base, file).separator == file.separator,
        path_file_name(file.separator, file.text) is Some ==> name_or(file, name)
            == path_file_name(file.separator, file.text)->0,
        path_file_name(file.separator, file.text) is None ==> name_or(file, name) == name,
        same_path(file, other) <==> equal_paths(file.separator, file.text, other.text),
{
}

// ---------------------------------------------------------------------------
// What the user reads
// ---------------------------------------------------------------------------

/// There is a hint for each of the well-known codes and for no other.
pub proof fn law_hints_belong_to_codes(code: Seq<char>)
    ensures
        suggestion(code) is Some <==> {
            ||| code == "E0425"@
            ||| code == "E0308"@
            ||| code == "E0382"@
            ||| code == "E0106"@
            ||| code == "E0502"@
            ||| code == "E0597"@
            ||| code == "E0277"@
            ||| code == "E0507"@
            ||| code == "E0499"@
            ||| code == "E0505"@
            ||| code == "E0515"@
            ||| code == "E0369"@
            ||| code == "E0004"@
            ||| code == "E0282"@
            ||| code == "E0061"@
        },
        suggestion(code) is Some ==> {
            let hint = suggestion(code)->0;
            &&& code == "E0425"@ ==> hint == HINT_E0425@
            &&& code == "E0308"@ ==> hint == HINT_E0308@
            &&& code == "E0382"@ ==> hint == HINT_E0382@
            &&& code == "E0106"@ ==> hint == HINT_E0106@
            &&& code == "E0502"@ ==> hint == HINT_E0502@
            &&& code == "E0597"@ ==> hint == HINT_E0597@
            &&& code == "E0277"@ ==> hint == HINT_E0277@
            &&& code == "E0507"@ ==> hint == HINT_E0507@
            &&& code == "E0499"@ ==> hint == HINT_E0499@
            &&& code == "E0505"@ ==> hint == HINT_E0505@
            &&& code == "E0515"@ ==> hint == HINT_E0515@
            &&& code == "E0369"@ ==> hint == HINT_E0369@
            &&& code == "E0004"@ ==> hint == HINT_E0004@
            &&& code == "E0282"@ ==> hint == HINT_E0282@
            &&& code == "E0061"@ ==> hint == HINT_E0061@
        },
{
    reveal_strlit("E0425");
    reveal_strlit("E0308");
    reveal_strlit("E0382");
    reveal_strlit("E0106");
    reveal_strlit("E0502");
    reveal_strlit("E0597");
    reveal_strlit("E0277");
    reveal_strlit("E0507");
    reveal_strlit("E0499");
    reveal_strlit("E0505");
    reveal_strlit("E0515");
    reveal_strlit("E0369");
    reveal_strlit("E0004");
    reveal_strlit("E0282");
    reveal_strlit("E0061");
    assert(code.len() == 5 ==> code =~= seq![code[0], code[1], code[2], code[3], code[4]]);
}

/// The tooltip of a marked line tells the level, the code where there is one,
/// the place counted from 1, the message, and the hint for the code where there
/// is one.
pub proof fn law_tooltip_tells_the_diagnostic(e: EditorErrorModel)
    ensures
        ({
            let place = "\nZeile "@ + decimal(e.line as nat + 1) + ", Spalte "@ + decimal(
                e.column as nat,
            ) + " — "@ + e.message;
            &&& e.error_code is None ==> error_tooltip(e) == level_label(e.level) + place
            &&& e.error_code is Some && suggestion(e.error_code->0) is None ==> error_tooltip(e)
                == level_label(e.level) + " ["@ + e.error_code->0 + "]"@ + place
            &&& e.error_code is Some && suggestion(e.error_code->0) is Some ==> error_tooltip(e)
                == level_label(e.level) + " ["@ + e.error_code->0 + "]"@ + place
                + "\n💡 Lösung: "@ + suggestion(e.error_code->0)->0
        }),
{
    let label = level_label(e.level);
    let place = "\nZeile "@ + decimal(e.line as nat + 1) + ", Spalte "@ + decimal(e.column as nat)
        + " — "@ + e.message;
    match e.error_code {
        None => {
            assert(error_tooltip(e) =~= label + place);
        },
        Some(c) => match suggestion(c) {
            None => {
                assert(error_tooltip(e) =~= label + " ["@ + c + "]"@ + place);
            },
            Some(h) => {
                assert(error_tooltip(e) =~= label + " ["@ + c + "]"@ + place + "\n💡 Lösung: "@
                    + h);
            },
        },
    }
}

/// In the lists a diagnostic is named by its level, the name of its file or
/// else its path, its line, its column and its message.
pub proof fn law_label_names_the_diagnostic(d: DiagnosticModel)
    ensures
        diagnostic_label(d) == "["@ + level_label(d.level) + "] "@ + name_or(d.file, d.file.text)
            + ":"@ + decimal(d.line as nat) + ":"@ + decimal(d.column as nat) + " — "@ + d.message,
{
}

/// The number of a line is marked by the last diagnostic on it, if any, with
/// its level and its tooltip.
pub proof fn law_the_last_diagnostic_marks_the_number(
    errors: Seq<EditorError>,
    line: usize,
    i: int,
)
    requires
        -1 <= i < errors.len(),
        i >= 0 ==> errors[i].line == line,
        forall|j: int| i < j < errors.len() ==> (#[trigger] errors[j]).line != line,
    ensures
        i < 0 ==> gutter_mark(errors, line) is None,
        i >= 0 ==> gutter_mark(errors, line) == Some(
            (errors[i].level, error_tooltip(errors[i]@)),
        ),
    decreases errors.len(),
{
    if errors.len() > 0 && i < errors.len() - 1 {
        assert(errors[errors.len() - 1].line != line);
        law_the_last_diagnostic_marks_the_number(errors.drop_last(), line, i);
        assert(last_error_on(errors, line) == last_error_on(errors.drop_last(), line));
    }
}

// ---------------------------------------------------------------------------
// The order of the list
// ---------------------------------------------------------------------------

/// Of two texts the one with the smaller character where they first differ
/// comes before the other, and so does one that the other starts with. No text
/// comes before itself.
pub proof fn law_texts_are_ordered_by_their_first_difference(
    common: Seq<char>,
    a: Seq<char>,
    b: Seq<char>,
)
    requires
        a.len() > 0 && b.len() > 0 ==> a[0] < b[0],
        a.len() == 0 || b.len() > 0,
    ensures
        b.len() > 0 ==> text_before(common + a, common + b),
        !text_before(common + b, common + a),
        !text_before(common, common),
    decreases common.len(),
{
    if common.len() == 0 {
        assert(common + a =~= a);
        assert(common + b =~= b);
    } else {
        assert((common + a).skip(1) =~= common.skip(1) + a);
        assert((common + b).skip(1) =~= common.skip(1) + b);
        law_texts_are_ordered_by_their_first_difference(common.skip(1), a, b);
    }
}

/// Diagnostics are ordered by their file, those of one file by line, and those
/// of one line by column.
pub proof fn law_diagnostics_are_ordered_by_place(a: DiagnosticModel, b: DiagnosticModel)
    ensures
        a.file.text != b.file.text ==> (diagnostic_before(a, b) <==> text_before(
            a.file.text,
            b.file.text,
        )),
        a.file.text == b.file.text && a.line != b.line ==> (diagnostic_before(a, b) <==> a.line
            < b.line),
        a.file.text == b.file.text && a.line == b.line ==> (diagnostic_before(a, b) <==> a.column
            < b.column),
{
    if a.file.text == b.file.text {
        law_texts_are_ordered_by_their_first_difference(
            a.file.text,
            Seq::empty(),
            Seq::empty(),
        );
    }
}

/// In the list none stands in front of one that comes before it, and of two
/// that are at the same place the one that was reported first stands first.
pub proof fn law_list_is_in_order(d: Seq<Diagnostic>, r: Seq<usize>, i: int, j: int)
    requires
        is_sorted_listing(d, r),
        0 <= i < j < r.len(),
    ensures
        r.len() == d.len(),
        r[i] < d.len() && r[j] < d.len(),
        !diagnostic_before(d[r[j] as int]@, d[r[i] as int]@),
        diagnostic_before(d[r[i] as int]@, d[r[j] as int]@) || r[i] < r[j],
{
    assert(listed_before(d, r[i] as int, r[j] as int));
    crate::diagnostics::lemma_before_asymmetric(d[r[i] as int]@, d[r[j] as int]@);
}

} // verus!
