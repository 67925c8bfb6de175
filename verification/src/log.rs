//! The diagnostics of the last run, found in its output line by line.

use vstd::prelude::*;

use crate::diagnostics::{
    diagnostic_header, header_of, location, parse_diagnostic_line, parse_location_line, Diagnostic,
    DiagnosticLevel, DiagnosticModel,
};
use crate::paths::{resolved, same_path, FilePath, PathModel, Platform};
use crate::strings::text_of;

verus! {

/// The diagnostics found so far.
pub struct DiagnosticLog {
    pub diagnostics: Vec<Diagnostic>,
    /// The last header line, while the line with its place is waited for.
    pub pending: Option<(DiagnosticLevel, String, Option<String>)>,
}

/// What a [`DiagnosticLog`] holds.
#[verifier::ext_equal]
pub struct LogModel {
    pub diagnostics: Seq<DiagnosticModel>,
    pub pending: Option<(DiagnosticLevel, Seq<char>, Option<Seq<char>>)>,
}

impl View for DiagnosticLog {
    type V = LogModel;

    open spec fn view(&self) -> LogModel {
        LogModel {
            diagnostics: self.diagnostics@.map_values(|d: Diagnostic| d@),
            pending: header_of(self.pending),
        }
    }
}

/// No diagnostics.
pub open spec fn empty_log() -> LogModel {
    LogModel { diagnostics: Seq::empty(), pending: None }
}

/// The first diagnostic from `from` on about line `line` of the file `path`.
pub open spec fn first_about(
    d: Seq<DiagnosticModel>,
    path: PathModel,
    line: usize,
    from: int,
) -> Option<DiagnosticModel>
    decreases d.len() - from,
{
    if from < 0 || from >= d.len() {
        None
    } else if same_path(d[from].file, path) && d[from].line == line {
        Some(d[from])
    } else {
        first_about(d, path, line, from + 1)
    }
}

impl LogModel {
    /// The log after one more line of output. A header waits for its place; a
    /// place completes the header that waits, if one does. Files are seen from
    /// the directory `project`.
    pub open spec fn noted(self, line: Seq<char>, project: Seq<char>, separator: char) -> LogModel {
        match (diagnostic_header(line), location(line), self.pending) {
            (Some(header), _, _) => LogModel { pending: Some(header), ..self },
            (None, Some((file, ln, column)), Some((level, message, error_code))) => LogModel {
                diagnostics: self.diagnostics.push(
                    DiagnosticModel {
                        level,
                        file: resolved(project, PathModel { text: file, separator }),
                        line: ln,
                        column,
                        message,
                        error_code,
                    },
                ),
                pending: None,
            },
            _ => self,
        }
    }

    /// The message and the code of the first diagnostic about a line of a
    /// file; an empty message and no code where there is none.
    pub open spec fn about(self, path: PathModel, line: usize) -> (Seq<char>, Option<Seq<char>>) {
        match first_about(self.diagnostics, path, line, 0) {
            Some(d) => (d.message, d.error_code),
            None => (Seq::empty(), None),
        }
    }
}

/// A header line and a later line with a place make one diagnostic, with
/// whatever lines between them that are neither.
pub proof fn law_header_and_place_paired(
    log: LogModel,
    header: Seq<char>,
    between: Seq<Seq<char>>,
    place: Seq<char>,
    project: Seq<char>,
    separator: char,
)
    requires
        diagnostic_header(header) is Some,
        forall|i: int|
            0 <= i < between.len() ==> diagnostic_header(#[trigger] between[i]) is None && location(
                between[i],
            ) is None,
        diagnostic_header(place) is None,
        location(place) is Some,
    ensures
        ({
            let done = all_noted(log.noted(header, project, separator), between, project, separator)
                .noted(place, project, separator);
            let (level, message, error_code) = diagnostic_header(header)->0;
            let (file, line, column) = location(place)->0;
            &&& done.pending is None
            &&& done.diagnostics == log.diagnostics.push(
                DiagnosticModel {
                    level,
                    file: resolved(project, PathModel { text: file, separator }),
                    line,
                    column,
                    message,
                    error_code,
                },
            )
        }),
{
    lemma_other_lines_ignored(log.noted(header, project, separator), between, project, separator);
}

/// The log after a series of lines.
pub open spec fn all_noted(
    log: LogModel,
    lines: Seq<Seq<char>>,
    project: Seq<char>,
    separator: char,
) -> LogModel
    decreases lines.len(),
{
    if lines.len() == 0 {
        log
    } else {
        all_noted(log, lines.drop_last(), project, separator).noted(
            lines.last(),
            project,
            separator,
        )
    }
}

proof fn lemma_other_lines_ignored(
    log: LogModel,
    lines: Seq<Seq<char>>,
    project: Seq<char>,
    separator: char,
)
    requires
        forall|i: int|
            0 <= i < lines.len() ==> diagnostic_header(#[trigger] lines[i]) is None && location(
                lines[i],
            ) is None,
    ensures
        all_noted(log, lines, project, separator) == log,
    decreases lines.len(),
{
    if lines.len() > 0 {
        assert(diagnostic_header(lines[lines.len() - 1]) is None);
        lemma_other_lines_ignored(log, lines.drop_last(), project, separator);
    }
}

impl DiagnosticLog {
    /// No diagnostics.
    pub fn new() -> (r: Self)
        ensures
            r@ == empty_log(),
    {
        let r: DiagnosticLog = DiagnosticLog { diagnostics: Vec::new(), pending: None };
        assert(r@ =~= empty_log());
        r
    }

    /// Forgets all diagnostics.
    pub fn clear(&mut self)
        ensures
            final(self)@ == empty_log(),
    {
        self.diagnostics.clear();
        self.pending = None;
        assert(self@ =~= empty_log());
    }

    /// Looks at one more line of output.
    pub fn note(&mut self, line: &str, project: &str, platform: &Platform)
        ensures
            final(self)@ == old(self)@.noted(line@, project@, platform@),
    {
        let ghost start = self@;
        match parse_diagnostic_line(line) {
            Some(header) => {
                self.pending = Some(header);
                assert(self@ =~= start.noted(line@, project@, platform@));
            },
            None => {
                if let Some((file, ln, column)) = parse_location_line(line) {
                    if let Some((level, message, error_code)) = self.pending.take() {
                        let path: FilePath = FilePath::new(platform, file);
                        self.diagnostics.push(
                            Diagnostic {
                                level,
                                file: path.resolve(project),
                                line: ln,
                                column,
                                message,
                                error_code,
                            },
                        );
                    }
                }
                assert(self@ =~= start.noted(line@, project@, platform@));
            },
        }
    }

    /// The message and the code of the first diagnostic about a line of a
    /// file; an empty message and no code where there is none.
    pub fn about(&self, path: &FilePath, line: usize) -> (r: (String, Option<String>))
        ensures
            (r.0@, text_of(r.1)) == self@.about(path@, line),
    {
        let mut i: usize = 0;
        while i < self.diagnostics.len()
            invariant
                i <= self.diagnostics@.len(),
                first_about(self@.diagnostics, path@, line, 0) == first_about(
                    self@.diagnostics,
                    path@,
                    line,
                    i as int,
                ),
            decreases self.diagnostics@.len() - i,
        {
            let d: &Diagnostic = &self.diagnostics[i];
            assert(self@.diagnostics[i as int] == d@);
            if d.file.same_as(path) && d.line == line {
                let code: Option<String> = match &d.error_code {
                    Some(c) => Some(c.clone()),
                    None => None,
                };
                return (d.message.clone(), code);
            }
            i += 1;
        }
        (String::new(), None)
    }
}

} // verus!
