use cargo_gui::diagnostics::{
    build_error_tooltip, dropdown_items, error_suggestions, parse_diagnostic_line,
    parse_location_line, sorted_diagnostics, Diagnostic, DiagnosticLevel, EditorError,
};
use cargo_gui::log::DiagnosticLog;
use cargo_gui::paths::{FilePath, Platform};

fn path(text: &str) -> FilePath {
    FilePath::new(&Platform::current(), text.to_string())
}

fn diagnostic(file: &str, line: usize, column: usize, message: &str) -> Diagnostic {
    Diagnostic {
        level: DiagnosticLevel::Warning,
        file: path(file),
        line,
        column,
        message: message.to_string(),
        error_code: None,
    }
}

// --- Header lines ---

#[test]
fn parse_diag_error_with_code() {
    let (level, msg, code) = parse_diagnostic_line("error[E0425]: cannot find value `x`").unwrap();
    assert!(matches!(level, DiagnosticLevel::Error));
    assert_eq!(msg, "cannot find value `x`");
    assert_eq!(code.as_deref(), Some("E0425"));
}

#[test]
fn parse_diag_error_no_code() {
    let (level, msg, code) = parse_diagnostic_line("error: mismatched types").unwrap();
    assert!(matches!(level, DiagnosticLevel::Error));
    assert_eq!(msg, "mismatched types");
    assert_eq!(code, None);
}

#[test]
fn parse_diag_warning() {
    let (level, msg, code) = parse_diagnostic_line("warning: unused variable: `x`").unwrap();
    assert!(matches!(level, DiagnosticLevel::Warning));
    assert_eq!(msg, "unused variable: `x`");
    assert_eq!(code, None);
}

#[test]
fn parse_diag_note() {
    let (level, msg, code) = parse_diagnostic_line("note: see issue #12345").unwrap();
    assert!(matches!(level, DiagnosticLevel::Note));
    assert_eq!(msg, "see issue #12345");
    assert_eq!(code, None);
}

#[test]
fn parse_diag_aborting_filtered_out() {
    assert!(parse_diagnostic_line("error: aborting due to 3 previous errors").is_none());
}

#[test]
fn parse_diag_non_diag_line() {
    assert!(parse_diagnostic_line("  |").is_none());
    assert!(parse_diagnostic_line(" --> src/main.rs:5:3").is_none());
    assert!(parse_diagnostic_line("Compiling foo v0.1.0").is_none());
}

#[test]
fn could_not_compile_is_no_diagnostic() {
    assert!(parse_diagnostic_line("error: could not compile `foo` due to 1 error").is_none());
    assert!(parse_diagnostic_line("error[E1]: aborting due to it").is_none());
}

#[test]
fn header_needs_a_colon() {
    assert!(parse_diagnostic_line("error").is_none());
    assert!(parse_diagnostic_line("error:").is_none());
    assert!(parse_diagnostic_line("error[E0425] cannot find").is_none());
    assert!(parse_diagnostic_line("errors: many").is_none());
}

#[test]
fn empty_code_is_no_code() {
    let (_, msg, code) = parse_diagnostic_line("error[]: odd").unwrap();
    assert_eq!(msg, "odd");
    assert_eq!(code, None);
}

#[test]
fn code_ends_at_the_first_bracket_and_colon() {
    let (_, msg, code) = parse_diagnostic_line("warning[a]: b]: c").unwrap();
    assert_eq!(code.as_deref(), Some("a"));
    assert_eq!(msg, "b]: c");
}

// --- Location lines ---

#[test]
fn parse_location_basic() {
    let (file, line, col) = parse_location_line(" --> src/main.rs:5:3").unwrap();
    assert_eq!(file, "src/main.rs");
    assert_eq!(line, 5);
    assert_eq!(col, 3);
}

#[test]
fn parse_location_leading_spaces() {
    let (file, line, col) = parse_location_line("   --> lib/foo.rs:100:1").unwrap();
    assert_eq!(file, "lib/foo.rs");
    assert_eq!(line, 100);
    assert_eq!(col, 1);
}

#[test]
fn parse_location_non_location_line() {
    assert!(parse_location_line("  |").is_none());
    assert!(parse_location_line("error[E0425]: msg").is_none());
    assert!(parse_location_line("5 | let x = 1;").is_none());
}

#[test]
fn location_keeps_colons_of_the_file() {
    let (file, line, col) = parse_location_line("--> C:\\src\\main.rs:12:34").unwrap();
    assert_eq!(file, "C:\\src\\main.rs");
    assert_eq!((line, col), (12, 34));
}

#[test]
fn location_needs_two_numbers() {
    assert!(parse_location_line("--> src/main.rs:5").is_none());
    assert!(parse_location_line("--> src/main.rs:5:x").is_none());
    assert!(parse_location_line("--> src/main.rs::3").is_none());
    assert!(parse_location_line("--> src/main.rs:-5:3").is_none());
    assert!(parse_location_line("--> a:99999999999999999999999:1").is_none());
    assert_eq!(parse_location_line("--> a: +7 :\t8"), Some(("a".to_string(), 7, 8)));
}

#[test]
fn location_ignores_unicode_white_space() {
    assert_eq!(
        parse_location_line("\u{3000}\u{a0}--> a.rs\u{2003}:1:2\u{85}"),
        Some(("a.rs".to_string(), 1, 2))
    );
}

// --- Tooltips, hints and labels ---

#[test]
fn tooltip_with_a_known_code_has_a_hint() {
    let e = EditorError {
        line: 4,
        column: 9,
        level: DiagnosticLevel::Error,
        message: "wrong number".to_string(),
        error_code: Some("E0061".to_string()),
    };
    assert_eq!(
        build_error_tooltip(&e),
        "FEHLER [E0061]\nZeile 5, Spalte 9 — wrong number\n💡 Lösung: Falsche Anzahl an \
         Argumenten. Prüfen Sie die Funktionssignatur."
    );
}

#[test]
fn tooltip_without_a_code_has_no_hint() {
    let mut e = EditorError {
        line: 0,
        column: 1,
        level: DiagnosticLevel::Note,
        message: "m".to_string(),
        error_code: None,
    };
    assert_eq!(build_error_tooltip(&e), "HINWEIS\nZeile 1, Spalte 1 — m");
    e.error_code = Some("E9999".to_string());
    e.level = DiagnosticLevel::Warning;
    assert_eq!(build_error_tooltip(&e), "WARNUNG [E9999]\nZeile 1, Spalte 1 — m");
}

#[test]
fn hints_for_known_codes_only() {
    for code in [
        "E0425", "E0308", "E0382", "E0106", "E0502", "E0597", "E0277", "E0507", "E0499", "E0505",
        "E0515", "E0369", "E0004", "E0282", "E0061",
    ] {
        assert!(error_suggestions(code).is_some(), "{code}");
    }
    assert_eq!(error_suggestions("E0001"), None);
    assert_eq!(error_suggestions(""), None);
    assert_eq!(error_suggestions("e0425"), None);
}

#[test]
fn label_names_file_place_and_message() {
    let d = diagnostic("src/deep/lib.rs", 7, 2, "unused");
    assert_eq!(d.label(), "[WARNUNG] lib.rs:7:2 — unused");
    let nameless = diagnostic("..", 1, 1, "m");
    assert_eq!(nameless.label(), "[WARNUNG] ..:1:1 — m");
}

// --- The list of diagnostics ---

#[test]
fn dropdown_is_sorted_and_stable() {
    let d = vec![
        diagnostic("b.rs", 1, 1, "0"),
        diagnostic("a.rs", 9, 1, "1"),
        diagnostic("a.rs", 2, 5, "2"),
        diagnostic("a.rs", 2, 3, "3"),
        diagnostic("b.rs", 1, 1, "4"),
        diagnostic("B.rs", 1, 1, "5"),
    ];
    assert_eq!(sorted_diagnostics(&d), vec![5, 3, 2, 1, 0, 4]);
    let items = dropdown_items(&d);
    assert_eq!(items.len(), 6);
    assert_eq!(items[1].idx, 3);
    assert_eq!(items[1].label, "[WARNUNG] a.rs:2:3 — 3");
    assert_eq!(dropdown_items(&Vec::new()).len(), 0);
}

#[test]
fn longer_name_comes_behind_its_beginning() {
    let d = vec![diagnostic("ab", 1, 1, ""), diagnostic("a", 2, 1, ""), diagnostic("ä", 1, 1, "")];
    assert_eq!(sorted_diagnostics(&d), vec![1, 0, 2]);
}

// --- The log ---

#[test]
fn header_and_place_make_a_diagnostic() {
    let platform = Platform::current();
    let mut log = DiagnosticLog::new();
    log.note(" --> src/early.rs:1:1", "proj", &platform);
    assert_eq!(log.diagnostics.len(), 0);
    log.note("error[E0308]: mismatched types", "proj", &platform);
    assert!(log.pending.is_some());
    log.note("  |", "proj", &platform);
    log.note("  --> src/main.rs:5:3", "proj", &platform);
    assert!(log.pending.is_none());
    log.note("  --> src/again.rs:6:1", "proj", &platform);
    assert_eq!(log.diagnostics.len(), 1);
    let d = &log.diagnostics[0];
    assert_eq!(d.level, DiagnosticLevel::Error);
    assert!(d.file.same_as(&path("proj/src/main.rs")));
    assert!(!d.file.same_as(&path("src/main.rs")));
    assert_eq!((d.line, d.column), (5, 3));
    assert_eq!(d.message, "mismatched types");
    assert_eq!(d.error_code.as_deref(), Some("E0308"));
}

#[test]
fn absolute_files_stay_as_they_are() {
    let platform = Platform::current();
    let mut log = DiagnosticLog::new();
    log.note("warning: w", "proj", &platform);
    log.note("--> /abs/file.rs:1:2", "proj", &platform);
    assert_eq!(log.diagnostics[0].file.as_str(), "/abs/file.rs");
}

#[test]
fn message_about_a_line_is_found() {
    let platform = Platform::current();
    let mut log = DiagnosticLog::new();
    log.note("error[E0425]: first", "p", &platform);
    log.note("--> a.rs:3:1", "p", &platform);
    log.note("error: second", "p", &platform);
    log.note("--> a.rs:3:9", "p", &platform);
    let file = path("p/a.rs");
    assert_eq!(log.about(&file, 3), ("first".to_string(), Some("E0425".to_string())));
    assert_eq!(log.about(&file, 4), (String::new(), None));
    log.clear();
    assert_eq!(log.diagnostics.len(), 0);
}

// --- Paths ---

#[test]
fn paths_are_compared_by_components() {
    assert!(path("a//b/./c").same_as(&path("a/b/c")));
    assert!(path("a/b").same_as(&path("a/b")));
    assert!(!path("a/b").same_as(&path("a/c")));
}

#[test]
fn last_component_is_the_name() {
    assert_eq!(path("x/y.rs").name_or("none"), "y.rs");
    assert_eq!(path("/").name_or("none"), "none");
    assert_eq!(path("rel.rs").resolve("dir").as_str(), "dir/rel.rs");
}
