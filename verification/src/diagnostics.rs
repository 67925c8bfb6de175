//! Diagnostics in cargo's output: finding them, naming them and putting them
//! in order.

use vstd::prelude::*;

use crate::paths::{name_or, FilePath, PathModel};
use crate::search::{all_matches, lemma_matches_from, match_positions, matches_from, occurs_at};
use crate::strings::{
    chars_to_string, decimal, has_at, is_digit, is_white_space, lemma_decimal,
    lemma_trimmed_behind_white_space, number, parse_number, push_decimal, same_text, text_of,
    to_chars, trim, trimmed,
};

verus! {

/// How severe a diagnostic is.
#[derive(Debug, Clone, Copy, PartialEq, Eq, Structural)]
pub enum DiagnosticLevel {
    Error,
    Warning,
    Note,
}

/// A diagnostic that cargo reported, with the place it is about.
#[derive(Debug, Clone)]
pub struct Diagnostic {
    pub level: DiagnosticLevel,
    /// The source file.
    pub file: FilePath,
    /// The line, counted from 1.
    pub line: usize,
    /// The column, counted from 1.
    pub column: usize,
    /// The message of the header line.
    pub message: String,
    /// The error code, such as `E0425`, where there is one.
    pub error_code: Option<String>,
}

/// What a [`Diagnostic`] holds.
#[verifier::ext_equal]
pub struct DiagnosticModel {
    pub level: DiagnosticLevel,
    pub file: PathModel,
    pub line: usize,
    pub column: usize,
    pub message: Seq<char>,
    pub error_code: Option<Seq<char>>,
}

impl View for Diagnostic {
    type V = DiagnosticModel;

    open spec fn view(&self) -> DiagnosticModel {
        DiagnosticModel {
            level: self.level,
            file: self.file@,
            line: self.line,
            column: self.column,
            message: self.message@,
            error_code: text_of(self.error_code),
        }
    }
}

/// A diagnostic that marks a line of an editor tab.
#[derive(Debug, Clone)]
pub struct EditorError {
    /// The line, counted from 0.
    pub line: usize,
    /// The column, counted from 1.
    pub column: usize,
    pub level: DiagnosticLevel,
    /// The whole message.
    pub message: String,
    /// The error code, where there is one.
    pub error_code: Option<String>,
}

/// What an [`EditorError`] holds.
#[verifier::ext_equal]
pub struct EditorErrorModel {
    pub line: usize,
    pub column: usize,
    pub level: DiagnosticLevel,
    pub message: Seq<char>,
    pub error_code: Option<Seq<char>>,
}

impl View for EditorError {
    type V = EditorErrorModel;

    open spec fn view(&self) -> EditorErrorModel {
        EditorErrorModel {
            line: self.line,
            column: self.column,
            level: self.level,
            message: self.message@,
            error_code: text_of(self.error_code),
        }
    }
}

// ---------------------------------------------------------------------------
// Header lines
// ---------------------------------------------------------------------------

/// The word that a header line of this level starts with.
pub open spec fn level_word(level: DiagnosticLevel) -> Seq<char> {
    match level {
        DiagnosticLevel::Error => "error"@,
        DiagnosticLevel::Warning => "warning"@,
        DiagnosticLevel::Note => "note"@,
    }
}

/// The level of a line by the word that it starts with.
pub open spec fn line_level(line: Seq<char>) -> Option<DiagnosticLevel> {
    if "error"@.is_prefix_of(line) {
        Some(DiagnosticLevel::Error)
    } else if "warning"@.is_prefix_of(line) {
        Some(DiagnosticLevel::Warning)
    } else if "note"@.is_prefix_of(line) {
        Some(DiagnosticLevel::Note)
    } else {
        None
    }
}

/// The message and the code of a header line behind its level: `": msg"`, or
/// `"[code]: msg"` with the code up to the first `"]: "`. An empty code is none.
pub open spec fn message_and_code(rest: Seq<char>) -> Option<(Seq<char>, Option<Seq<char>>)> {
    if "["@.is_prefix_of(rest) {
        let inner = rest.skip(1);
        let ends = all_matches(inner, "]: "@);
        if ends.len() == 0 {
            None
        } else {
            Some(
                (
                    inner.skip(ends[0] + 3),
                    if ends[0] == 0 {
                        None
                    } else {
                        Some(inner.take(ends[0]))
                    },
                ),
            )
        }
    } else if ": "@.is_prefix_of(rest) {
        Some((rest.skip(2), None))
    } else {
        None
    }
}

/// Messages that sum up a run and have no place in the source.
pub open spec fn is_summary(message: Seq<char>) -> bool {
    "aborting due to"@.is_prefix_of(message) || "could not compile"@.is_prefix_of(message)
}

/// Level, message and code of the diagnostic that `line` is the header of.
pub open spec fn diagnostic_header(line: Seq<char>) -> Option<
    (DiagnosticLevel, Seq<char>, Option<Seq<char>>),
> {
    match line_level(line) {
        None => None,
        Some(level) => match message_and_code(line.skip(level_word(level).len() as int)) {
            None => None,
            Some((message, code)) => if is_summary(message) {
                None
            } else {
                Some((level, message, code))
            },
        },
    }
}

/// A pair of message and code with its level, as texts.
pub open spec fn header_of(
    h: Option<(DiagnosticLevel, String, Option<String>)>,
) -> Option<(DiagnosticLevel, Seq<char>, Option<Seq<char>>)> {
    match h {
        Some((level, message, code)) => Some((level, message@, text_of(code))),
        None => None,
    }
}

fn starts_with(v: &Vec<char>, at: usize, prefix: &str) -> (r: bool)
    requires
        at <= v@.len(),
    ensures
        r == prefix@.is_prefix_of(v@.skip(at as int)),
{
    has_at(v, at, &to_chars(prefix))
}

proof fn lemma_words()
    ensures
        "error"@.len() == 5,
        "warning"@.len() == 7,
        "note"@.len() == 4,
        "["@.len() == 1,
        ": "@.len() == 2,
        "]: "@.len() == 3,
        "--> "@.len() == 4,
{
    reveal_strlit("error");
    reveal_strlit("warning");
    reveal_strlit("note");
    reveal_strlit("[");
    reveal_strlit(": ");
    reveal_strlit("]: ");
    reveal_strlit("--> ");
}

/// The level, the message and the code of a header line such as
/// `error[E0425]: message` or `warning: message`; `None` for any other line.
pub fn parse_diagnostic_line(line: &str) -> (r: Option<(DiagnosticLevel, String, Option<String>)>)
    ensures
        header_of(r) == diagnostic_header(line@),
{
    proof {
        lemma_words();
    }
    let v: Vec<char> = to_chars(line);
    let n: usize = v.len();
    assert(v@.skip(0) =~= v@);
    let (level, at): (DiagnosticLevel, usize) = if starts_with(&v, 0, "error") {
        (DiagnosticLevel::Error, 5)
    } else if starts_with(&v, 0, "warning") {
        (DiagnosticLevel::Warning, 7)
    } else if starts_with(&v, 0, "note") {
        (DiagnosticLevel::Note, 4)
    } else {
        return None;
    };
    assert(at == level_word(level).len());
    let ghost rest = v@.skip(at as int);
    let (start, code): (usize, Option<String>) = if starts_with(&v, at, "[") {
        let inner: Vec<char> = to_chars(chars_to_string(&v, at + 1, n).as_str());
        assert(inner@ =~= rest.skip(1));
        let ends: Vec<usize> = match_positions(&inner, &to_chars("]: "));
        if ends.len() == 0 {
            return None;
        }
        proof {
            lemma_matches_from(inner@, "]: "@, 0);
            assert(occurs_at(inner@, "]: "@, all_matches(inner@, "]: "@)[0]));
            assert(ends@[0] == all_matches(inner@, "]: "@)[0]);
        }
        let end: usize = ends[0];
        let code: Option<String> = if end == 0 {
            None
        } else {
            let c: String = chars_to_string(&inner, 0, end);
            assert(c@ =~= inner@.take(end as int));
            Some(c)
        };
        assert(v@.skip(at + 1 + end + 3) =~= rest.skip(1).skip(end + 3));
        (at + 1 + end + 3, code)
    } else if starts_with(&v, at, ": ") {
        assert(v@.skip(at + 2) =~= rest.skip(2));
        (at + 2, None)
    } else {
        return None;
    };
    if starts_with(&v, start, "aborting due to") || starts_with(&v, start, "could not compile") {
        return None;
    }
    let message: String = chars_to_string(&v, start, n);
    assert(message@ =~= v@.skip(start as int));
    Some((level, message, code))
}

proof fn lemma_level_words_differ(rest: Seq<char>, level: DiagnosticLevel)
    ensures
        line_level(level_word(level) + rest) == Some(level),
        (level_word(level) + rest).skip(level_word(level).len() as int) == rest,
{
    reveal_strlit("error");
    reveal_strlit("warning");
    reveal_strlit("note");
    let line = level_word(level) + rest;
    assert(line[0] == level_word(level)[0]);
    assert(level_word(level) =~= line.take(level_word(level).len() as int));
    assert(line.skip(level_word(level).len() as int) =~= rest);
}

/// A header without a code reads back as what it was written from.
pub proof fn law_header_without_code(level: DiagnosticLevel, message: Seq<char>)
    requires
        !is_summary(message),
    ensures
        diagnostic_header(level_word(level) + ": "@ + message) == Some(
            (level, message, None::<Seq<char>>),
        ),
{
    let rest = ": "@ + message;
    assert(level_word(level) + ": "@ + message =~= level_word(level) + rest);
    lemma_level_words_differ(rest, level);
    reveal_strlit(": ");
    reveal_strlit("[");
    assert(rest[0] == ':');
    assert(": "@ =~= rest.take(2));
    assert(rest.skip(2) =~= message);
}

/// A header with a code reads back as what it was written from, unless the
/// code is empty or its end could be taken to come earlier.
pub proof fn law_header_with_code(level: DiagnosticLevel, code: Seq<char>, message: Seq<char>)
    requires
        !is_summary(message),
        code.len() > 0,
        forall|i: int| 0 <= i < code.len() ==> !occurs_at(code + "]: "@, "]: "@, i),
    ensures
        diagnostic_header(level_word(level) + "["@ + code + "]: "@ + message) == Some(
            (level, message, Some(code)),
        ),
{
    let rest = "["@ + code + "]: "@ + message;
    assert(level_word(level) + "["@ + code + "]: "@ + message =~= level_word(level) + rest);
    lemma_level_words_differ(rest, level);
    lemma_words();
    assert("["@ =~= rest.take(1));
    let inner = rest.skip(1);
    assert(inner =~= code + "]: "@ + message);
    assert forall|i: int| 0 <= i < code.len() implies !occurs_at(inner, "]: "@, i) by {
        if occurs_at(inner, "]: "@, i) {
            assert(inner.subrange(i, i + 3) =~= (code + "]: "@).subrange(i, i + 3));
            assert(occurs_at(code + "]: "@, "]: "@, i));
        }
    }
    assert(inner.subrange(code.len() as int, code.len() as int + 3) =~= "]: "@);
    lemma_first_match(inner, "]: "@, 0, code.len() as int);
    assert(inner.take(code.len() as int) =~= code);
    assert(inner.skip(code.len() as int + 3) =~= message);
}

/// The first match is the first occurrence.
proof fn lemma_first_match(text: Seq<char>, needle: Seq<char>, from: int, at: int)
    requires
        needle.len() > 0,
        0 <= from <= at,
        occurs_at(text, needle, at),
        forall|i: int| from <= i < at ==> !occurs_at(text, needle, i),
    ensures
        matches_from(text, needle, from).len() > 0,
        matches_from(text, needle, from)[0] == at,
    decreases at - from,
{
    if from < at {
        lemma_first_match(text, needle, from + 1, at);
    }
}

// ---------------------------------------------------------------------------
// Location lines
// ---------------------------------------------------------------------------

/// The position of the last colon of `s`, or -1.
pub open spec fn last_colon(s: Seq<char>) -> int
    decreases s.len(),
{
    if s.len() == 0 {
        -1
    } else if s.last() == ':' {
        s.len() - 1
    } else {
        last_colon(s.drop_last())
    }
}

/// File, line and column of a place written `file:line:column`, each with
/// white space round it or none. The file may hold colons.
pub open spec fn place(s: Seq<char>) -> Option<(Seq<char>, usize, usize)> {
    let second = last_colon(s);
    let first = last_colon(s.take(second));
    if second < 0 || first < 0 {
        None
    } else {
        match (
            number(trimmed(s.subrange(first + 1, second))),
            number(trimmed(s.skip(second + 1))),
        ) {
            (Some(line), Some(column)) => Some((trimmed(s.take(first)), line, column)),
            _ => None,
        }
    }
}

/// The place that a line `--> file:line:column` names.
pub open spec fn location(line: Seq<char>) -> Option<(Seq<char>, usize, usize)> {
    let t = trimmed(line);
    if "--> "@.is_prefix_of(t) {
        place(t.skip(4))
    } else {
        None
    }
}

/// A place with the file as text.
pub open spec fn place_of(p: Option<(String, usize, usize)>) -> Option<(Seq<char>, usize, usize)> {
    match p {
        Some((file, line, column)) => Some((file@, line, column)),
        None => None,
    }
}

/// The position of the last colon in `v[from..to]`.
fn find_last_colon(v: &Vec<char>, from: usize, to: usize) -> (r: Option<usize>)
    requires
        from <= to <= v@.len(),
    ensures
        match r {
            Some(i) => from <= i < to && i - from == last_colon(
                v@.subrange(from as int, to as int),
            ),
            None => last_colon(v@.subrange(from as int, to as int)) == -1,
        },
{
    let mut i: usize = to;
    while i > from
        invariant
            from <= i <= to <= v@.len(),
            last_colon(v@.subrange(from as int, to as int)) == last_colon(
                v@.subrange(from as int, i as int),
            ),
        decreases i,
    {
        assert(v@.subrange(from as int, i as int).drop_last() =~= v@.subrange(
            from as int,
            i - 1,
        ));
        if v[i - 1] == ':' {
            return Some(i - 1);
        }
        i -= 1;
    }
    None
}

/// The file, the line and the column that a line `--> file:line:column` names;
/// `None` for any other line. The place is split from the right, so that the
/// file may hold colons.
pub fn parse_location_line(line: &str) -> (r: Option<(String, usize, usize)>)
    ensures
        place_of(r) == location(line@),
{
    proof {
        lemma_words();
    }
    let v: Vec<char> = to_chars(line);
    let n: usize = v.len();
    let (a, b): (usize, usize) = trim(&v, 0, n);
    assert(v@.subrange(0, n as int) =~= v@);
    let t: Vec<char> = to_chars(chars_to_string(&v, a, b).as_str());
    assert(t@.skip(0) =~= t@);
    if !starts_with(&t, 0, "--> ") {
        return None;
    }
    let m: usize = t.len();
    let ghost rest = t@.skip(4);
    assert(t@.subrange(4, m as int) =~= rest);
    let second: usize = match find_last_colon(&t, 4, m) {
        Some(i) => i,
        None => {
            return None;
        },
    };
    assert(t@.subrange(4, second as int) =~= rest.take(second - 4));
    let first: usize = match find_last_colon(&t, 4, second) {
        Some(i) => i,
        None => {
            return None;
        },
    };
    let (c0, c1): (usize, usize) = trim(&t, second + 1, m);
    assert(t@.subrange(second + 1, m as int) =~= rest.skip(second - 4 + 1));
    let column: Option<usize> = parse_number(&t, c0, c1);
    let (l0, l1): (usize, usize) = trim(&t, first + 1, second);
    assert(t@.subrange(first + 1, second as int) =~= rest.subrange(first - 4 + 1, second - 4));
    let number_of_line: Option<usize> = parse_number(&t, l0, l1);
    match (number_of_line, column) {
        (Some(ln), Some(col)) => {
            let (f0, f1): (usize, usize) = trim(&t, 4, first);
            assert(t@.subrange(4, first as int) =~= rest.take(first - 4));
            Some((chars_to_string(&t, f0, f1), ln, col))
        },
        _ => None,
    }
}

proof fn lemma_last_colon_behind(s: Seq<char>, t: Seq<char>)
    requires
        forall|i: int| 0 <= i < t.len() ==> t[i] != ':',
    ensures
        last_colon(s + ":"@ + t) == s.len(),
    decreases t.len(),
{
    reveal_strlit(":");
    let whole = s + ":"@ + t;
    if t.len() > 0 {
        assert(whole.drop_last() =~= s + ":"@ + t.drop_last());
        lemma_last_colon_behind(s, t.drop_last());
    }
}

/// A location line reads back as what it was written from, whatever white
/// space it is indented with and whatever colons its file name holds.
pub proof fn law_location_read_back(
    indent: Seq<char>,
    file: Seq<char>,
    line: usize,
    column: usize,
)
    requires
        forall|i: int| 0 <= i < indent.len() ==> is_white_space(#[trigger] indent[i]),
        trimmed(file) == file,
    ensures
        location(
            indent + "--> "@ + file + ":"@ + decimal(line as nat) + ":"@ + decimal(column as nat),
        ) == Some((file, line, column)),
{
    let l = decimal(line as nat);
    let c = decimal(column as nat);
    let rest = file + ":"@ + l + ":"@ + c;
    let t = "--> "@ + rest;
    let whole = indent + "--> "@ + file + ":"@ + l + ":"@ + c;
    reveal_strlit("--> ");
    reveal_strlit(":");
    lemma_decimal(line as nat);
    lemma_decimal(column as nat);
    assert(whole =~= indent + t);
    assert(t.last() == c.last());
    assert(is_digit(c[c.len() - 1]));
    lemma_trimmed_behind_white_space(indent, t);
    assert("--> "@ =~= t.take(4));
    assert(t.skip(4) =~= rest);
    assert forall|i: int| 0 <= i < c.len() implies c[i] != ':' by {
        assert(is_digit(c[i]));
    }
    assert forall|i: int| 0 <= i < l.len() implies l[i] != ':' by {
        assert(is_digit(l[i]));
    }
    lemma_last_colon_behind(file + ":"@ + l, c);
    let second = last_colon(rest);
    assert(second == (file + ":"@ + l).len());
    assert(rest.take(second) =~= file + ":"@ + l);
    lemma_last_colon_behind(file, l);
    let first = file.len() as int;
    assert(rest.subrange(first + 1, second) =~= l);
    assert(rest.skip(second + 1) =~= c);
    assert(rest.take(first) =~= file);
    let none = Seq::<char>::empty();
    assert(is_digit(l[0]) && is_digit(l[l.len() - 1]) && is_digit(c[0]));
    lemma_trimmed_behind_white_space(none, l);
    lemma_trimmed_behind_white_space(none, c);
    assert(none + l =~= l);
    assert(none + c =~= c);
}

// ---------------------------------------------------------------------------
// What the user reads of a diagnostic
// ---------------------------------------------------------------------------

pub const HINT_E0425: &'static str =
    "Prüfen Sie den Namen der Variablen/Funktion — ist sie im aktuellen Gültigkeitsbereich sichtbar?";

pub const HINT_E0308: &'static str =
    "Die Typen stimmen nicht überein. Prüfen Sie, ob eine explizite Typumwandlung (as / From / Into) nötig ist.";

pub const HINT_E0382: &'static str =
    "Der Wert wurde bereits verschoben (moved). Verwenden Sie .clone() oder übergeben Sie eine Referenz (&).";

pub const HINT_E0106: &'static str =
    "Fehlende Lebenszeit-Annotation. Fügen Sie einen Lifetime-Parameter (z.B. <'a>) hinzu.";

pub const HINT_E0502: &'static str =
    "Gleichzeitiger mutierbarer und immutabler Ausleihe ist nicht erlaubt. Teilen Sie die Ausleihbereiche auf.";

pub const HINT_E0597: &'static str =
    "Die ausgeliehene Variable lebt nicht lang genug. Verlängern Sie den Gültigkeitsbereich oder verwenden Sie .to_owned().";

pub const HINT_E0277: &'static str =
    "Der Trait ist nicht für diesen Typ implementiert. Fügen Sie eine 'impl Trait for Typ'-Implementierung hinzu oder verwenden Sie einen anderen Typ.";

pub const HINT_E0507: &'static str =
    "Inhaber eines dereferenzierten Werts kann nicht verschoben werden. Verwenden Sie .clone().";

pub const HINT_E0499: &'static str =
    "Ein Wert kann nicht mehrfach mutierbar ausgeliehen werden. Beenden Sie den ersten mut-Ausleihe-Bereich vor dem zweiten.";

pub const HINT_E0505: &'static str =
    "Wert kann nicht verschoben werden, da er noch ausgeliehen ist. Beenden Sie den Ausleihe-Bereich zuerst.";

pub const HINT_E0515: &'static str =
    "Rückgabe einer Referenz auf einen lokalen Wert ist nicht erlaubt. Geben Sie einen owned Wert zurück.";

pub const HINT_E0369: &'static str =
    "Der Operator ist für diesen Typ nicht implementiert. Implementieren Sie den passenden Operator-Trait (z.B. std::ops::Add).";

pub const HINT_E0004: &'static str =
    "Nicht-erschöpfendes Pattern-Matching. Fügen Sie die fehlenden Zweige oder einen Catch-all-Arm (_) hinzu.";

pub const HINT_E0282: &'static str =
    "Typ kann nicht automatisch ermittelt werden. Geben Sie den Typ explizit an (z.B. let x: u32 = ...).";

pub const HINT_E0061: &'static str =
    "Falsche Anzahl an Argumenten. Prüfen Sie die Funktionssignatur.";

/// The hint for a well-known error code.
pub open spec fn suggestion(code: Seq<char>) -> Option<Seq<char>> {
    if code == "E0425"@ {
        Some(HINT_E0425@)
    } else if code == "E0308"@ {
        Some(HINT_E0308@)
    } else if code == "E0382"@ {
        Some(HINT_E0382@)
    } else if code == "E0106"@ {
        Some(HINT_E0106@)
    } else if code == "E0502"@ {
        Some(HINT_E0502@)
    } else if code == "E0597"@ {
        Some(HINT_E0597@)
    } else if code == "E0277"@ {
        Some(HINT_E0277@)
    } else if code == "E0507"@ {
        Some(HINT_E0507@)
    } else if code == "E0499"@ {
        Some(HINT_E0499@)
    } else if code == "E0505"@ {
        Some(HINT_E0505@)
    } else if code == "E0515"@ {
        Some(HINT_E0515@)
    } else if code == "E0369"@ {
        Some(HINT_E0369@)
    } else if code == "E0004"@ {
        Some(HINT_E0004@)
    } else if code == "E0282"@ {
        Some(HINT_E0282@)
    } else if code == "E0061"@ {
        Some(HINT_E0061@)
    } else {
        None
    }
}

/// The hint for a well-known error code; `None` for any other code.
pub fn error_suggestions(code: &str) -> (r: Option<&'static str>)
    ensures
        match r {
            Some(hint) => suggestion(code@) == Some(hint@),
            None => suggestion(code@) is None,
        },
{
    if same_text(code, "E0425") {
        Some(HINT_E0425)
    } else if same_text(code, "E0308") {
        Some(HINT_E0308)
    } else if same_text(code, "E0382") {
        Some(HINT_E0382)
    } else if same_text(code, "E0106") {
        Some(HINT_E0106)
    } else if same_text(code, "E0502") {
        Some(HINT_E0502)
    } else if same_text(code, "E0597") {
        Some(HINT_E0597)
    } else if same_text(code, "E0277") {
        Some(HINT_E0277)
    } else if same_text(code, "E0507") {
        Some(HINT_E0507)
    } else if same_text(code, "E0499") {
        Some(HINT_E0499)
    } else if same_text(code, "E0505") {
        Some(HINT_E0505)
    } else if same_text(code, "E0515") {
        Some(HINT_E0515)
    } else if same_text(code, "E0369") {
        Some(HINT_E0369)
    } else if same_text(code, "E0004") {
        Some(HINT_E0004)
    } else if same_text(code, "E0282") {
        Some(HINT_E0282)
    } else if same_text(code, "E0061") {
        Some(HINT_E0061)
    } else {
        None
    }
}

/// The severity as the user reads it.
pub open spec fn level_label(level: DiagnosticLevel) -> Seq<char> {
    match level {
        DiagnosticLevel::Error => "FEHLER"@,
        DiagnosticLevel::Warning => "WARNUNG"@,
        DiagnosticLevel::Note => "HINWEIS"@,
    }
}

impl DiagnosticLevel {
    /// The severity as the user reads it.
    pub fn label(self) -> (r: &'static str)
        ensures
            r@ == level_label(self),
    {
        match self {
            DiagnosticLevel::Error => "FEHLER",
            DiagnosticLevel::Warning => "WARNUNG",
            DiagnosticLevel::Note => "HINWEIS",
        }
    }
}

/// The tooltip of a marked line: severity and code, place and message, and the
/// hint where there is one for the code.
pub open spec fn error_tooltip(e: EditorErrorModel) -> Seq<char> {
    let code = match e.error_code {
        Some(c) => " ["@ + c + "]"@,
        None => Seq::empty(),
    };
    let hint = match e.error_code {
        Some(c) => match suggestion(c) {
            Some(h) => "\n💡 Lösung: "@ + h,
            None => Seq::empty(),
        },
        None => Seq::empty(),
    };
    level_label(e.level) + code + "\nZeile "@ + decimal(e.line as nat + 1) + ", Spalte "@
        + decimal(e.column as nat) + " — "@ + e.message + hint
}

/// The tooltip of a marked line.
pub fn build_error_tooltip(e: &EditorError) -> (r: String)
    requires
        e.line < usize::MAX,
    ensures
        r@ == error_tooltip(e@),
{
    let mut s: String = e.level.label().to_owned();
    if let Some(c) = &e.error_code {
        s.append(" [");
        s.append(c.as_str());
        s.append("]");
    }
    let ghost head = s@;
    s.append("\nZeile ");
    push_decimal(&mut s, (e.line + 1) as u128);
    s.append(", Spalte ");
    push_decimal(&mut s, e.column as u128);
    s.append(" — ");
    s.append(e.message.as_str());
    let ghost base = s@;
    if let Some(c) = &e.error_code {
        if let Some(hint) = error_suggestions(c.as_str()) {
            s.append("\n💡 Lösung: ");
            s.append(hint);
        }
    }
    proof {
        let code = match e@.error_code {
            Some(c) => " ["@ + c + "]"@,
            None => Seq::empty(),
        };
        let hint = match e@.error_code {
            Some(c) => match suggestion(c) {
                Some(h) => "\n💡 Lösung: "@ + h,
                None => Seq::empty(),
            },
            None => Seq::empty(),
        };
        assert(head =~= level_label(e.level) + code);
        assert(s@ =~= base + hint);
    }
    s
}

/// The label of a diagnostic in the lists of diagnostics.
pub open spec fn diagnostic_label(d: DiagnosticModel) -> Seq<char> {
    "["@ + level_label(d.level) + "] "@ + name_or(d.file, d.file.text) + ":"@ + decimal(
        d.line as nat,
    ) + ":"@ + decimal(d.column as nat) + " — "@ + d.message
}

impl Diagnostic {
    /// The label in the lists of diagnostics:
    /// `[severity] file:line:column — message`.
    pub fn label(&self) -> (r: String)
        ensures
            r@ == diagnostic_label(self@),
    {
        let mut s: String = "[".to_owned();
        s.append(self.level.label());
        s.append("] ");
        let name: String = self.file.name_or(self.file.as_str());
        s.append(name.as_str());
        s.append(":");
        push_decimal(&mut s, self.line as u128);
        s.append(":");
        push_decimal(&mut s, self.column as u128);
        s.append(" — ");
        s.append(self.message.as_str());
        s
    }
}

// ---------------------------------------------------------------------------
// The list of diagnostics in the editor
// ---------------------------------------------------------------------------

/// Whether `a` comes before `b` in the order of the characters' code points.
pub open spec fn text_before(a: Seq<char>, b: Seq<char>) -> bool
    decreases a.len(),
{
    if b.len() == 0 {
        false
    } else if a.len() == 0 {
        true
    } else if a[0] == b[0] {
        text_before(a.skip(1), b.skip(1))
    } else {
        a[0] < b[0]
    }
}

/// Whether `a` comes before `b`: by file, then by line, then by column.
pub open spec fn diagnostic_before(a: DiagnosticModel, b: DiagnosticModel) -> bool {
    ||| text_before(a.file.text, b.file.text)
    ||| {
        &&& a.file.text == b.file.text
        &&& a.line < b.line || (a.line == b.line && a.column < b.column)
    }
}

/// Whether the `i`-th diagnostic stands in front of the `j`-th one in a sorted
/// list that keeps equal ones in their order.
pub open spec fn listed_before(d: Seq<Diagnostic>, i: int, j: int) -> bool {
    diagnostic_before(d[i]@, d[j]@) || (!diagnostic_before(d[j]@, d[i]@) && i < j)
}

/// Whether `r` lists every index of `d` once, in the order of the diagnostics.
pub open spec fn is_sorted_listing(d: Seq<Diagnostic>, r: Seq<usize>) -> bool {
    &&& r.len() == d.len()
    &&& forall|i: int| 0 <= i < r.len() ==> 0 <= #[trigger] r[i] < d.len()
    &&& forall|i: int, j: int|
        0 <= i < j < r.len() ==> listed_before(d, #[trigger] r[i] as int, #[trigger] r[j] as int)
}

proof fn lemma_text_before_total(a: Seq<char>, b: Seq<char>)
    ensures
        text_before(a, b) || text_before(b, a) || a == b,
        !(text_before(a, b) && text_before(b, a)),
        !text_before(a, a),
    decreases a.len(),
{
    if a.len() > 0 && b.len() > 0 {
        lemma_text_before_total(a.skip(1), b.skip(1));
        if a[0] == b[0] && a.skip(1) == b.skip(1) {
            assert(a =~= seq![a[0]] + a.skip(1));
            assert(b =~= seq![b[0]] + b.skip(1));
        }
    } else if a.len() > 0 {
        lemma_text_before_total(a.skip(1), a.skip(1));
    } else if b.len() == 0 {
        assert(a =~= b);
    }
}

proof fn lemma_text_before_transitive(a: Seq<char>, b: Seq<char>, c: Seq<char>)
    requires
        text_before(a, b),
        text_before(b, c),
    ensures
        text_before(a, c),
    decreases a.len(),
{
    if a.len() > 0 && a[0] == b[0] && b[0] == c[0] {
        lemma_text_before_transitive(a.skip(1), b.skip(1), c.skip(1));
    }
}

/// What comes before `b` comes before whatever `b` does not come after.
proof fn lemma_before_weak_order(a: DiagnosticModel, b: DiagnosticModel, c: DiagnosticModel)
    requires
        diagnostic_before(a, b),
        !diagnostic_before(c, b),
    ensures
        diagnostic_before(a, c),
{
    lemma_text_before_total(b.file.text, c.file.text);
    lemma_text_before_total(c.file.text, b.file.text);
    if text_before(a.file.text, b.file.text) && text_before(b.file.text, c.file.text) {
        lemma_text_before_transitive(a.file.text, b.file.text, c.file.text);
    }
}

/// Whether `a` comes before `b` in the order of the code points.
fn text_precedes(a: &str, b: &str) -> (r: bool)
    ensures
        r == text_before(a@, b@),
{
    let v: Vec<char> = to_chars(a);
    let w: Vec<char> = to_chars(b);
    let mut i: usize = 0;
    assert(v@.skip(0) =~= v@);
    assert(w@.skip(0) =~= w@);
    while i < v.len() && i < w.len() && v[i] == w[i]
        invariant
            i <= v@.len(),
            i <= w@.len(),
            text_before(v@, w@) == text_before(v@.skip(i as int), w@.skip(i as int)),
        decreases v@.len() - i,
    {
        assert(v@.skip(i as int).skip(1) =~= v@.skip(i + 1));
        assert(w@.skip(i as int).skip(1) =~= w@.skip(i + 1));
        i += 1;
    }
    if i >= w.len() {
        false
    } else if i >= v.len() {
        true
    } else {
        v[i] < w[i]
    }
}

impl Diagnostic {
    /// Whether this diagnostic comes before `other`.
    fn precedes(&self, other: &Diagnostic) -> (r: bool)
        ensures
            r == diagnostic_before(self@, other@),
    {
        if text_precedes(self.file.as_str(), other.file.as_str()) {
            true
        } else {
            same_text(self.file.as_str(), other.file.as_str()) && (self.line < other.line || (
            self.line == other.line && self.column < other.column))
        }
    }
}

/// The indices of `d` in the order of the diagnostics: by file, line and
/// column, equal ones in the order in which they were reported.
pub fn sorted_diagnostics(d: &Vec<Diagnostic>) -> (r: Vec<usize>)
    ensures
        is_sorted_listing(d@, r@),
{
    let mut r: Vec<usize> = Vec::new();
    let mut k: usize = 0;
    while k < d.len()
        invariant
            k <= d@.len(),
            r@.len() == k,
            forall|i: int| 0 <= i < k ==> 0 <= #[trigger] r@[i] < k,
            forall|i: int, j: int|
                0 <= i < j < k ==> listed_before(
                    d@,
                    #[trigger] r@[i] as int,
                    #[trigger] r@[j] as int,
                ),
        decreases d@.len() - k,
    {
        let mut p: usize = k;
        while p > 0 && d[k].precedes(&d[r[p - 1]])
            invariant
                p <= k < d@.len(),
                r@.len() == k,
                forall|i: int| 0 <= i < k ==> 0 <= #[trigger] r@[i] < k,
                forall|i: int|
                    p <= i < k ==> diagnostic_before(d@[k as int]@, d@[#[trigger] r@[i] as int]@),
            decreases p,
        {
            p -= 1;
        }
        let ghost before = r@;
        proof {
            assert forall|i: int| 0 <= i < p implies listed_before(
                d@,
                #[trigger] before[i] as int,
                k as int,
            ) by {
                let last = before[p - 1] as int;
                let x = before[i] as int;
                if diagnostic_before(d@[k as int]@, d@[x]@) {
                    if i < p - 1 {
                        assert(listed_before(d@, x, last));
                        if diagnostic_before(d@[last]@, d@[x]@) {
                            lemma_before_asymmetric(d@[last]@, d@[x]@);
                        }
                        lemma_before_weak_order(d@[k as int]@, d@[x]@, d@[last]@);
                    }
                }
            }
        }
        r.insert(p, k);
        proof {
            assert forall|i: int, j: int| 0 <= i < j < k + 1 implies listed_before(
                d@,
                #[trigger] r@[i] as int,
                #[trigger] r@[j] as int,
            ) by {
                if i == p {
                    assert(r@[j] == before[j - 1]);
                } else if j == p {
                    assert(r@[i] == before[i]);
                } else {
                    let i0 = if i < p { i } else { i - 1 };
                    let j0 = if j < p { j } else { j - 1 };
                    assert(r@[i] == before[i0]);
                    assert(r@[j] == before[j0]);
                }
            }
            assert forall|i: int| 0 <= i < k + 1 implies 0 <= #[trigger] r@[i] < k + 1 by {
                if i < p {
                    assert(r@[i] == before[i]);
                } else if i > p {
                    assert(r@[i] == before[i - 1]);
                }
            }
        }
        k += 1;
    }
    r
}

/// No two diagnostics come before each other.
pub proof fn lemma_before_asymmetric(a: DiagnosticModel, b: DiagnosticModel)
    ensures
        !(diagnostic_before(a, b) && diagnostic_before(b, a)),
{
    lemma_text_before_total(a.file.text, b.file.text);
    lemma_text_before_total(b.file.text, a.file.text);
}

/// A sorted listing names no diagnostic twice, and so names each one.
pub proof fn law_listing_names_each_once(d: Seq<Diagnostic>, r: Seq<usize>)
    requires
        is_sorted_listing(d, r),
    ensures
        r.no_duplicates(),
        forall|k: int| 0 <= k < d.len() ==> #[trigger] r.contains(k as usize),
{
    assert forall|i: int, j: int| 0 <= i < r.len() && 0 <= j < r.len() && i != j implies r[i]
        != r[j] by {
        let x = if i < j { r[i] as int } else { r[j] as int };
        let y = if i < j { r[j] as int } else { r[i] as int };
        assert(listed_before(d, x, y));
        lemma_before_asymmetric(d[x]@, d[y]@);
    }
    let s = r.map_values(|x: usize| x as int);
    assert(s.no_duplicates());
    lemma_pigeonhole(s, d.len() as int);
    assert forall|k: int| 0 <= k < d.len() implies #[trigger] r.contains(k as usize) by {
        assert(s.contains(k));
        let i = choose|i: int| 0 <= i < s.len() && s[i] == k;
        assert(r[i] == k);
    }
}

/// As many different numbers below `n` as there are: all of them.
proof fn lemma_pigeonhole(s: Seq<int>, n: int)
    requires
        s.no_duplicates(),
        s.len() == n,
        forall|i: int| 0 <= i < s.len() ==> 0 <= #[trigger] s[i] < n,
    ensures
        forall|k: int| 0 <= k < n ==> s.contains(k),
{
    s.unique_seq_to_set();
    let all = vstd::set_lib::set_int_range(0, n);
    vstd::set_lib::lemma_int_range(0, n);
    assert(s.to_set().subset_of(all)) by {
        assert forall|x: int| s.to_set().contains(x) implies all.contains(x) by {
            let i = choose|i: int| 0 <= i < s.len() && s[i] == x;
            assert(0 <= s[i] < n);
        }
    }
    vstd::set_lib::lemma_subset_equality(s.to_set(), all);
    assert forall|k: int| 0 <= k < n implies s.contains(k) by {
        assert(all.contains(k));
        assert(s.to_set().contains(k));
    }
}

/// An entry of the list of diagnostics in the editor.
#[derive(Debug, Clone, PartialEq)]
pub struct DiagRef {
    /// The index of the diagnostic.
    pub idx: usize,
    /// The label shown.
    pub label: String,
}

/// The list of diagnostics in the editor, in the order of the diagnostics.
pub fn dropdown_items(d: &Vec<Diagnostic>) -> (r: Vec<DiagRef>)
    ensures
        is_sorted_listing(d@, r@.map_values(|item: DiagRef| item.idx)),
        forall|i: int|
            0 <= i < r@.len() ==> (#[trigger] r@[i]).label@ == diagnostic_label(
                d@[r@[i].idx as int]@,
            ),
{
    let order: Vec<usize> = sorted_diagnostics(d);
    let mut r: Vec<DiagRef> = Vec::new();
    for i in 0..order.len()
        invariant
            is_sorted_listing(d@, order@),
            r@.len() == i,
            r@.map_values(|item: DiagRef| item.idx) == order@.take(i as int),
            forall|j: int|
                0 <= j < i ==> (#[trigger] r@[j]).label@ == diagnostic_label(
                    d@[r@[j].idx as int]@,
                ),
    {
        let idx: usize = order[i];
        let ghost before = r@;
        r.push(DiagRef { idx, label: d[idx].label() });
        assert(r@.map_values(|item: DiagRef| item.idx) =~= before.map_values(
            |item: DiagRef| item.idx,
        ).push(idx));
    }
    assert(order@.take(order@.len() as int) =~= order@);
    r
}

} // verus!
