use cargo_gui::content::{Action, Edit, Navigation};
use cargo_gui::diagnostics::DiagnosticLevel;
use cargo_gui::direction::{can_load, can_mix, can_show};
use cargo_gui::editor::{next_match_index, previous_match_index, Editor};
use cargo_gui::paths::{FilePath, Platform};
use cargo_gui::search::{collect_all_match_lines, editor_find_status_text};

fn path(text: &str) -> FilePath {
    FilePath::new(&Platform::current(), text.to_string())
}

fn text_of(editor: &Editor) -> String {
    editor.tabs[editor.active_tab].content.text()
}

/// An editor with the given texts in its tabs, the last one shown.
fn editor_with(texts: &[&str]) -> Editor {
    let mut editor = Editor::new();
    for (i, text) in texts.iter().enumerate() {
        editor.open_file(path(&format!("file{i}.rs")), text);
    }
    editor
}

// --- Stepping ---

#[test]
fn find_navigation_next_wraps() {
    let total = 3usize;
    let mut current = 0usize;
    for expected in [1, 2, 0] {
        current = next_match_index(current, total);
        assert_eq!(current, expected);
    }
}

#[test]
fn find_navigation_prev_wraps() {
    let total = 3usize;
    let mut current = 0usize;
    for expected in [2, 1, 0] {
        current = previous_match_index(current, total);
        assert_eq!(current, expected);
    }
}

#[test]
fn arrow_down_navigation_wraps() {
    let total = 4usize;
    let mut current = 0usize;
    let steps = [1, 2, 3, 0, 1];
    for expected in steps {
        current = next_match_index(current, total);
        assert_eq!(current, expected);
    }
}

#[test]
fn arrow_up_navigation_wraps() {
    let total = 4usize;
    let mut current = 0usize;
    let steps = [3, 2, 1, 0, 3];
    for expected in steps {
        current = previous_match_index(current, total);
        assert_eq!(current, expected);
    }
}

#[test]
fn find_current_match_is_valid_index() {
    let text = "foo bar\nfoo baz\nqux\nfoo";
    let lines = collect_all_match_lines(text, "foo");
    assert_eq!(lines.len(), 3);
    let total = lines.len();
    let mut editor = editor_with(&[text]);
    editor.open_find(false);
    editor.change_find_text("foo".to_string());
    for _ in 0..6 {
        assert!(editor.find_current_match < total);
        editor.find_next();
    }
}

#[test]
fn stepping_marks_the_line_and_names_it() {
    let mut editor = editor_with(&["alpha\nbeta\nalpha\ngamma"]);
    editor.open_find(false);
    assert_eq!(editor.change_find_text("alpha".to_string()), Some(0));
    assert_eq!(editor.find_status, "Treffer 1 von 2 \u{2014} Zeile 1");
    assert_eq!(editor.find_next(), Some(2));
    assert_eq!(editor.highlight_line, Some(2));
    assert_eq!(editor.find_status, "Treffer 2 von 2 \u{2014} Zeile 3");
    assert_eq!(editor.find_next(), Some(0));
    assert_eq!(editor.find_prev(), Some(2));
    assert_eq!(editor.tabs[editor.active_tab].content.selection().as_deref(), Some("alpha"));
}

#[test]
fn the_match_itself_is_selected() {
    let mut editor = editor_with(&["aa bb\ncc bb dd\n"]);
    editor.open_find(false);
    editor.change_find_text("bb d".to_string());
    let content = &editor.tabs[editor.active_tab].content;
    assert_eq!(content.selection().as_deref(), Some("bb d"));
    assert_eq!(content.text(), "aa bb\ncc bb dd\n");
}

#[test]
fn without_a_match_the_selection_stays() {
    let mut editor = editor_with(&["aa bb aa"]);
    editor.open_find(false);
    editor.change_find_text("bb".to_string());
    assert_eq!(editor.selection().as_deref(), Some("bb"));
    let content = &mut editor.tabs[1].content;
    assert_eq!(content.apply_find_selection("aa", 2), None);
    assert_eq!(content.apply_find_selection("zz", 0), None);
    assert_eq!(content.selection().as_deref(), Some("bb"));
    assert_eq!(content.apply_find_selection("aa", 1), Some((0, 6)));
    assert_eq!(content.selection().as_deref(), Some("aa"));
}

#[test]
fn navigation_no_op_when_panel_closed() {
    let mut editor = editor_with(&["foo\nfoo"]);
    editor.open_find(false);
    editor.change_find_text("foo".to_string());
    editor.find_next();
    assert_eq!(editor.find_current_match, 1);
    editor.close_find();
    assert!(editor.find_all_match_lines.is_empty());
    assert_eq!(editor.find_next(), None);
    assert_eq!(editor.find_prev(), None);
    assert_eq!(editor.find_current_match, 1);
    assert_eq!(editor.find_status, "");
    let mut fresh = Editor::new();
    assert_eq!(fresh.find_next(), None);
    assert_eq!(fresh.find_current_match, 0);
}

#[test]
fn status_zero_matches_is_keine_treffer() {
    let text = "hello world";
    let lines = collect_all_match_lines(text, "xyz");
    assert!(lines.is_empty());
    let mut editor = editor_with(&[text]);
    editor.open_find(false);
    assert_eq!(editor.change_find_text("xyz".to_string()), None);
    assert_eq!(editor.find_status, "Keine Treffer");
    assert_eq!(editor.highlight_line, None);
    editor.find_next();
    assert_eq!(editor.find_status, "Keine Treffer");
    editor.change_find_text(String::new());
    assert_eq!(editor.find_status, "");
}

// --- Changing tabs ---

#[test]
fn tab_select_preserves_match_position() {
    let new_tab_text = "alpha\nbeta\nalpha\ngamma";
    let lines = collect_all_match_lines(new_tab_text, "alpha");
    assert_eq!(lines, vec![0, 2]);
    let mut editor = editor_with(&[new_tab_text, "alpha alpha"]);
    editor.open_find(false);
    editor.change_find_text("alpha".to_string());
    editor.find_next();
    assert_eq!(editor.find_current_match, 1);
    assert_eq!(editor.select_tab(1), Some(2));
    assert_eq!(editor.find_current_match, 1);
    assert_eq!(editor.highlight_line, Some(2));
    assert_eq!(editor.find_status, "Treffer 2 von 2 \u{2014} Zeile 3");
    assert_eq!(editor.find_all_match_lines, lines);
}

#[test]
fn tab_select_clamps_match_index_when_too_large() {
    let mut editor = editor_with(&["alpha\nbeta\ngamma", "alpha\nalpha\nalpha\nalpha"]);
    editor.open_find(false);
    editor.change_find_text("alpha".to_string());
    editor.find_prev();
    assert_eq!(editor.find_current_match, 3);
    assert_eq!(editor.select_tab(1), Some(0));
    assert_eq!(editor.find_current_match, 0);
    assert_eq!(editor.highlight_line, Some(0));
    assert_eq!(editor.find_status, "Treffer 1 von 1 \u{2014} Zeile 1");
}

#[test]
fn tab_select_updates_find_status_with_matches() {
    let mut editor = editor_with(&["alpha\nbeta\nalpha\ngamma", "nothing"]);
    editor.open_find(false);
    editor.change_find_text("alpha".to_string());
    assert_eq!(editor.find_current_match, 0);
    editor.select_tab(1);
    assert_eq!(editor.find_current_match, 0);
    assert_eq!(editor.highlight_line, Some(0));
    assert_eq!(editor.find_status, "Treffer 1 von 2 \u{2014} Zeile 1");
}

#[test]
fn tab_select_updates_find_status_no_matches() {
    let mut editor = editor_with(&["no hits here", "alpha alpha"]);
    editor.open_find(false);
    editor.change_find_text("alpha".to_string());
    editor.find_next();
    assert_eq!(editor.select_tab(1), None);
    assert_eq!(editor.find_current_match, 0);
    assert_eq!(editor.highlight_line, None);
    assert_eq!(editor.find_status, "Keine Treffer");
}

#[test]
fn tab_select_same_tab_is_no_op() {
    let mut editor = editor_with(&["alpha alpha"]);
    assert_eq!(editor.active_tab, 1);
    editor.open_find(false);
    editor.change_find_text("alpha".to_string());
    editor.find_next();
    let status = editor.find_status.clone();
    assert_eq!(editor.select_tab(1), None);
    assert_eq!(editor.active_tab, 1);
    assert_eq!(editor.find_current_match, 1);
    assert_eq!(editor.find_status, status);
    assert_eq!(editor.select_tab(9), None);
    assert_eq!(editor.active_tab, 1);
}

#[test]
fn closed_panel_forgets_matches_on_another_tab() {
    let mut editor = editor_with(&["alpha", "alpha"]);
    editor.change_find_text("alpha".to_string());
    assert_eq!(editor.select_tab(1), None);
    assert!(editor.find_all_match_lines.is_empty());
    assert_eq!(editor.find_status, "Keine Treffer");
}

#[test]
fn a_file_comes_on_view_with_its_own_matches() {
    let mut editor = editor_with(&["alpha\nalpha"]);
    editor.open_find(false);
    editor.change_find_text("alpha".to_string());
    editor.find_next();
    assert_eq!(editor.open_file(path("b.rs"), "beta\nalpha\nbeta\nalpha"), Some(3));
    assert_eq!(editor.find_all_match_lines, vec![1, 3]);
    assert_eq!(editor.highlight_line, Some(3));
    assert_eq!(editor.find_status, "Treffer 2 von 2 \u{2014} Zeile 4");
    assert_eq!(editor.selection().as_deref(), Some("alpha"));
    assert_eq!(editor.open_file(path("file0.rs"), "other"), Some(1));
    assert_eq!(editor.find_all_match_lines, vec![0, 1]);
    assert_eq!(editor.open_file(path("file0.rs"), "other"), None);
    assert_eq!(editor.find_current_match, 1);
}

#[test]
fn a_new_tab_has_no_matches() {
    let mut editor = editor_with(&["alpha\nalpha"]);
    editor.open_find(false);
    editor.change_find_text("alpha".to_string());
    assert_eq!(editor.new_tab(), None);
    assert!(editor.find_all_match_lines.is_empty());
    assert_eq!(editor.highlight_line, None);
    assert_eq!(editor.find_status, "Keine Treffer");
    assert_eq!(editor.find_current_match, 0);
}

#[test]
fn closing_shows_the_matches_of_the_tab_on_view() {
    let mut editor = editor_with(&["x\nalpha", "alpha\nalpha", "none"]);
    editor.open_find(false);
    editor.select_tab(2);
    editor.change_find_text("alpha".to_string());
    editor.find_next();
    // Another tab is closed: nothing changes.
    assert_eq!(editor.close_tab(3), None);
    assert_eq!(editor.find_current_match, 1);
    assert_eq!(editor.close_tab(0), None);
    assert_eq!(editor.active_tab, 1);
    assert_eq!(editor.find_all_match_lines, vec![0, 1]);
    // The shown tab is closed.
    assert_eq!(editor.close_tab(1), Some(1));
    assert_eq!(editor.find_all_match_lines, vec![1]);
    assert_eq!(editor.find_status, "Treffer 1 von 1 \u{2014} Zeile 2");
    assert_eq!(editor.close_tab(0), None);
    assert_eq!(editor.tabs.len(), 1);
    assert!(editor.find_all_match_lines.is_empty());
}

#[test]
fn a_diagnostic_keeps_its_mark_over_the_matches() {
    let mut editor = editor_with(&["alpha"]);
    editor.open_find(false);
    editor.change_find_text("alpha".to_string());
    editor.show_diagnostic(
        path("d.rs"),
        "alpha\nbeta\ngamma\nalpha",
        3,
        1,
        DiagnosticLevel::Warning,
        "m".to_string(),
        None,
    );
    assert_eq!(editor.highlight_line, Some(2));
    assert_eq!(editor.find_all_match_lines, vec![0, 3]);
    editor.perform(Action::Edit(Edit::Insert('X')));
    assert_eq!(text_of(&editor), "alpha\nbeta\nXgamma\nalpha\n");
}

#[test]
fn pasting_makes_the_matches_out_of_date() {
    let mut editor = editor_with(&["alpha\nalpha"]);
    editor.open_find(false);
    editor.change_find_text("alpha".to_string());
    editor.perform(Action::Edit(Edit::Paste("beta".to_string())));
    assert!(editor.find_all_match_lines.is_empty());
    assert_eq!(editor.highlight_line, None);
    assert_eq!(text_of(&editor), "beta\nalpha\n");
}

// --- Directions ---

fn chars(text: &str) -> Vec<char> {
    text.chars().collect()
}

#[test]
fn lines_of_mixed_direction_are_told() {
    let separators = ['\u{1c}', '\u{1d}', '\u{1e}', '\u{85}', '\u{2029}'];
    let turning = [
        '\u{590}', '\u{5d0}', '\u{5ff}', '\u{627}', '\u{64a}', '\u{710}', '\u{7b1}', '\u{8c9}',
        '\u{200f}', '\u{fb1d}', '\u{fdfc}', '\u{fefc}', '\u{10800}', '\u{10fff}', '\u{1e900}',
        '\u{1eeef}',
    ];
    for separator in separators {
        for letter in turning {
            // Two directions on one line.
            assert!(!can_load(&format!("a{separator}{letter}")));
            assert!(!can_load(&format!("{letter}{separator}1")));
            assert!(!can_load(&format!("x\n{letter}{separator}{separator}")));
            // One direction, or one paragraph, on each line.
            assert!(can_load(&format!("{letter}{separator} ({letter}a")));
            assert!(can_load(&format!("a{separator}b {letter}{separator}")));
            assert!(can_load(&format!("{letter}{separator}\na{separator}b")));
            assert!(can_load(&format!("{letter}\na{separator}b")));
        }
        assert!(can_load(&format!("a{separator}b \u{2014} \u{4e2d}")));
    }
    // Neither marks nor digits nor the byte order mark run from right to left.
    for other in ['\u{591}', '\u{660}', '\u{feff}', '\u{fd3e}', '\u{1091f}', '\u{1eef0}', '\u{2014}'] {
        assert!(can_load(&format!("a\u{2029}{other}")));
    }
    // Carriage returns end the lines of what is loaded, not of what is shown.
    assert!(can_load("a\r\u{5d0}\r\n\u{5d0}\rb"));
    assert!(can_show(&chars("a\r\n\u{5d0}\r\n\u{5d0}b\r")));
    assert!(!can_show(&chars("a\r\u{5d0}\n")));
    assert!(can_show(&chars("\u{5d0}\r\u{5d1}\n")));
    assert!(can_mix(&chars("a\r"), &chars("b")));
    assert!(!can_mix(&chars("a\r"), &chars("\u{5d0}")));
    assert!(!can_mix(&chars("\u{5d0}"), &chars("a\r\nb")));
}

fn paste(text: &str) -> Action {
    Action::Edit(Edit::Paste(text.to_string()))
}

/// Makes an edit that the editor takes.
fn do_edit(editor: &mut Editor, action: Action) {
    assert!(editor.can_perform(&action));
    editor.perform(action);
}

fn go_to(editor: &mut Editor, line: usize, column: usize) {
    let i = editor.active_tab;
    editor.tabs[i].content.go_to(line, column);
}

#[test]
fn hebrew_lines_can_be_pasted_with_windows_line_ends() {
    let mut editor = Editor::new();
    do_edit(&mut editor, paste("\u{5e9}\u{5dc}\r\n\u{5e2}\u{5d5}"));
    assert_eq!(text_of(&editor), "\u{5e9}\u{5dc}\r\n\u{5e2}\u{5d5}\n");
    // A Latin line, and a Hebrew letter on it in front of the line end.
    do_edit(&mut editor, paste("\r\nab\r\nc"));
    go_to(&mut editor, 2, 1);
    do_edit(&mut editor, Action::Edit(Edit::Insert('\u{5d0}')));
    assert_eq!(
        text_of(&editor),
        "\u{5e9}\u{5dc}\r\n\u{5e2}\u{5d5}\r\na\u{5d0}b\r\nc\n"
    );
    // Behind the carriage return it would start a paragraph of its own.
    go_to(&mut editor, 2, 4);
    assert!(!editor.can_perform(&Action::Edit(Edit::Insert('\u{5d0}'))));
    assert!(editor.can_perform(&Action::Edit(Edit::Insert('x'))));
    assert!(editor.can_perform(&Action::Edit(Edit::Enter)));
    // The two Hebrew lines can be brought together, the others cannot.
    go_to(&mut editor, 1, 0);
    assert!(editor.can_perform(&Action::Edit(Edit::Delete)));
    do_edit(&mut editor, Action::Edit(Edit::Backspace));
    assert!(text_of(&editor).starts_with("\u{5e9}\u{5dc}\r\u{5e2}\u{5d5}\r\na"));
    assert!(editor.can_perform(&Action::Edit(Edit::Delete)));
    let end = Navigation::Move(iced::widget::text_editor::Motion::End);
    editor.perform(Action::Navigate(end));
    assert!(!editor.can_perform(&Action::Edit(Edit::Delete)));
    go_to(&mut editor, 1, 0);
    assert!(!editor.can_perform(&Action::Edit(Edit::Backspace)));
}

#[test]
fn a_byte_order_mark_runs_in_no_direction() {
    let mut editor = Editor::new();
    do_edit(&mut editor, paste("\u{feff}a\r\nb"));
    assert_eq!(text_of(&editor), "\u{feff}a\r\nb\n");
    let mut editor = editor_with(&["\u{feff}fn main() {}\n"]);
    do_edit(&mut editor, paste("a\r\nb"));
}

#[test]
fn a_file_is_judged_line_by_line() {
    let mut editor = Editor::new();
    assert!(editor.opens(&path("a.rs"), "\u{5d0}\na\u{1e}b"));
    editor.open_file(path("a.rs"), "\u{5d0}\na\u{1e}b");
    editor.open_find(true);
    assert_eq!(editor.change_find_text("b".to_string()), Some(1));
    editor.change_replace_text("\u{5d1}".to_string());
    assert!(!editor.can_replace_one());
    assert!(!editor.can_replace_all());
    editor.change_replace_text("c\u{5d1}".to_string());
    assert!(editor.can_replace_one());
    assert!(editor.can_replace_all());
    editor.replace_one();
    assert_eq!(text_of(&editor), "\u{5d0}\na\u{1e}c\u{5d1}\n");
    assert!(!editor.opens(&path("new.rs"), "a\u{2029}\u{5d0}"));
    assert!(editor.opens(&path("a.rs"), "a\u{2029}\u{5d0}"));
}

#[test]
fn edits_with_a_selection_are_judged_by_what_is_left() {
    let mut editor = editor_with(&["b\u{1e}\n\u{5d0}x"]);
    // The whole text is replaced.
    editor.select_all();
    assert!(editor.can_perform(&Action::Edit(Edit::Backspace)));
    assert!(editor.can_perform(&paste("\u{5d0}")));
    assert!(!editor.can_perform(&paste("a\u{2029}\u{5d0}")));
    // The line break alone is selected.
    go_to(&mut editor, 0, 2);
    editor.perform(Action::Navigate(Navigation::Select(iced::widget::text_editor::Motion::Right)));
    assert_eq!(editor.selection().as_deref(), Some("\n"));
    assert!(!editor.can_perform(&Action::Edit(Edit::Backspace)));
    assert!(!editor.can_perform(&Action::Edit(Edit::Insert('-'))));
    assert!(editor.can_perform(&Action::Edit(Edit::Insert('c'))));
    assert!(editor.can_perform(&Action::Edit(Edit::Enter)));
    assert!(editor.can_perform(&Action::Navigate(Navigation::SelectAll)));
}

#[test]
fn a_letter_is_deleted_with_its_marks() {
    // Without its first letter the second paragraph would run the other way.
    let mut editor = editor_with(&["b\u{1e}e\u{301}\u{5d0}\n\u{5d0}"]);
    go_to(&mut editor, 0, 2);
    assert!(!editor.can_perform(&Action::Edit(Edit::Delete)));
    // The first has no second letter to go by, and runs as before.
    go_to(&mut editor, 0, 0);
    do_edit(&mut editor, Action::Edit(Edit::Delete));
    assert_eq!(text_of(&editor), "\u{1e}e\u{301}\u{5d0}\n\u{5d0}\n");
    // Letters behind the first can go.
    let mut editor = editor_with(&["b\u{1e}cde\u{5d0}"]);
    go_to(&mut editor, 0, 3);
    do_edit(&mut editor, Action::Edit(Edit::Delete));
    assert_eq!(text_of(&editor), "b\u{1e}ce\u{5d0}\n");
}

#[test]
fn control_characters_are_not_typed() {
    let mut editor = editor_with(&["\u{5d0}b"]);
    let ignored = Action::Edit(Edit::Insert('\u{85}'));
    assert!(editor.can_perform(&ignored));
    editor.perform(ignored);
    editor.perform(Action::Edit(Edit::Insert('\t')));
    assert_eq!(text_of(&editor), "\u{5d0}b\n");
    editor.perform(paste("x\u{1}"));
    assert_eq!(text_of(&editor), "x\u{5d0}b\n");
    assert!(!editor.can_perform(&Action::Edit(Edit::Insert('\u{2029}'))));
}

#[test]
fn windows_line_ends_can_be_pasted() {
    let mut editor = editor_with(&["xyz"]);
    do_edit(&mut editor, paste("a\r\nb"));
    assert_eq!(text_of(&editor), "a\r\nbxyz\n");
    do_edit(&mut editor, Action::Edit(Edit::Insert('c')));
    assert_eq!(text_of(&editor), "a\r\nbcxyz\n");
    do_edit(&mut editor, Action::Edit(Edit::Insert('\u{5d0}')));
    assert_eq!(text_of(&editor), "a\r\nbc\u{5d0}xyz\n");
}

#[test]
fn separated_text_from_left_to_right_can_be_shown() {
    let mut editor = editor_with(&["a\u{2029}b\u{85}c"]);
    editor.open_find(false);
    assert_eq!(editor.change_find_text("c".to_string()), Some(0));
    assert_eq!(editor.selection().as_deref(), Some("c"));
    editor.perform(Action::Edit(Edit::Insert('d')));
    assert_eq!(text_of(&editor), "a\u{2029}b\u{85}d\n");
}

// --- Tabs ---

#[test]
fn tabs_without_a_file_are_counted() {
    let mut editor = Editor::new();
    assert_eq!(editor.tabs[0].title, "Untitled-1");
    editor.new_tab();
    assert_eq!(editor.tabs[1].title, "Untitled-2");
    assert_eq!(editor.active_tab, 1);
    editor.close_tab(1);
    editor.close_tab(0);
    assert_eq!(editor.tabs.len(), 1);
    assert_eq!(editor.tabs[0].title, "Untitled-3");
    assert_eq!(editor.active_tab, 0);
    assert_eq!(editor.untitled_counter, 3);
}

#[test]
fn closing_keeps_the_other_tabs() {
    let mut editor = editor_with(&["a", "b"]);
    assert_eq!(editor.active_tab, 2);
    editor.close_tab(1);
    assert_eq!(editor.tabs.len(), 2);
    assert_eq!(editor.tabs[0].title, "Untitled-1");
    assert_eq!(editor.tabs[1].title, "file1.rs");
    assert_eq!(editor.active_tab, 1);
}

#[test]
fn a_file_is_opened_once() {
    let mut editor = Editor::new();
    editor.open_file(path("dir/a.rs"), "one");
    editor.open_file(path("dir/b.rs"), "two");
    editor.open_file(path("dir/./a.rs"), "three");
    assert_eq!(editor.tabs.len(), 3);
    assert_eq!(editor.active_tab, 1);
    assert_eq!(text_of(&editor), "one\n");
    assert_eq!(editor.tabs[2].title, "b.rs");
}

#[test]
fn a_file_without_a_name_is_unknown() {
    let mut editor = Editor::new();
    editor.open_file(path("/"), "");
    assert_eq!(editor.tabs[1].title, "Unbekannt");
    assert_eq!(text_of(&editor), "\n");
}

#[test]
fn edits_mark_the_tab() {
    let mut editor = editor_with(&["foo foo"]);
    editor.open_find(false);
    editor.change_find_text("foo".to_string());
    assert_eq!(editor.tabs[1].display_title(), "file0.rs");
    editor.perform(Action::Navigate(Navigation::SelectAll));
    assert!(!editor.tabs[1].dirty);
    assert_eq!(editor.find_all_match_lines.len(), 2);
    editor.perform(Action::Edit(Edit::Insert('x')));
    assert!(editor.tabs[1].dirty);
    assert_eq!(editor.tabs[1].display_title(), "file0.rs*");
    assert_eq!(text_of(&editor), "x\n");
    assert!(editor.find_all_match_lines.is_empty());
    assert_eq!(editor.highlight_line, None);
    editor.note_saved(path("file0.rs"));
    assert!(!editor.tabs[1].dirty);
    assert_eq!(editor.tabs[1].title, "file0.rs");
}

#[test]
fn every_edit_changes_the_text() {
    let mut editor = editor_with(&["ab"]);
    editor.perform(Action::Edit(Edit::Insert('x')));
    assert_eq!(text_of(&editor), "xab\n");
    editor.perform(Action::Edit(Edit::Enter));
    assert_eq!(text_of(&editor), "x\nab\n");
    editor.perform(Action::Edit(Edit::Backspace));
    assert_eq!(text_of(&editor), "xab\n");
    editor.perform(Action::Edit(Edit::Delete));
    assert_eq!(text_of(&editor), "xb\n");
    editor.perform(Action::Edit(Edit::Paste("1\n2".to_string())));
    assert_eq!(text_of(&editor), "x1\n2b\n");
}

#[test]
fn saving_elsewhere_names_the_tab() {
    let mut editor = Editor::new();
    editor.perform(Action::Edit(Edit::Insert('x')));
    editor.note_saved(path("out/new.txt"));
    assert_eq!(editor.tabs[0].title, "new.txt");
    assert_eq!(editor.tabs[0].path.as_ref().unwrap().as_str(), "out/new.txt");
    assert!(!editor.tabs[0].dirty);
}

#[test]
fn lines_are_joined_with_line_feeds() {
    for (text, shown) in [
        ("", "\n"),
        ("abc", "abc\n"),
        ("abc\n", "abc\n"),
        ("abc\n\n", "abc\n"),
        ("a\r\nb\rc\n\rd", "a\nb\nc\nd\n"),
        ("a\r\n\r\nb", "a\n\nb\n"),
        ("\n\n\n", "\n\n"),
        ("\r\r", "\n"),
    ] {
        let editor = editor_with(&[text]);
        assert_eq!(text_of(&editor), shown, "{text:?}");
    }
}

#[test]
fn saved_text_reads_back() {
    let editor = editor_with(&["fn main() {\n\n}\n"]);
    let saved = text_of(&editor);
    assert_eq!(saved, "fn main() {\n\n}\n");
    assert_eq!(text_of(&editor_with(&[&saved])), saved);
}

// --- The find panel ---

#[test]
fn panel_opens_and_closes() {
    let mut editor = Editor::new();
    editor.toggle_find();
    assert!(editor.find_replace_open && !editor.find_show_replace);
    editor.toggle_replace();
    assert!(editor.find_show_replace);
    editor.toggle_find();
    assert!(!editor.find_replace_open && editor.find_show_replace);
    editor.open_find(true);
    assert!(editor.find_replace_open && editor.find_show_replace);
    editor.open_find(false);
    assert!(!editor.find_show_replace);
    editor.close_find();
    assert!(!editor.find_replace_open);
}

// --- Replacing ---

#[test]
fn replace_all_resets_state() {
    let mut editor = editor_with(&["foo\nbar\nfoo\nbaz"]);
    editor.open_find(true);
    editor.change_find_text("foo".to_string());
    editor.find_next();
    assert_eq!(editor.find_all_match_lines.len(), 2);
    editor.change_replace_text("qux".to_string());
    editor.replace_all();
    assert_eq!(text_of(&editor), "qux\nbar\nqux\nbaz\n");
    let new_lines = collect_all_match_lines(&text_of(&editor), "foo");
    assert!(new_lines.is_empty());
    assert!(editor.find_all_match_lines.is_empty());
    assert_eq!(editor.find_current_match, 0);
    assert_eq!(editor.highlight_line, None);
    assert_eq!(editor.find_status, "2 ersetzt");
    assert!(editor.tabs[1].dirty);
}

#[test]
fn replace_one_goes_on_to_what_is_left() {
    let mut editor = editor_with(&["foo\nbar foo\nfoo"]);
    editor.open_find(true);
    editor.change_find_text("foo".to_string());
    editor.change_replace_text("x".to_string());
    editor.find_next();
    assert_eq!(editor.replace_one(), Some(2));
    assert_eq!(text_of(&editor), "foo\nbar x\nfoo\n");
    assert_eq!(editor.find_current_match, 1);
    assert_eq!(editor.highlight_line, Some(2));
    assert_eq!(editor.find_status, "Treffer 2 von 2 \u{2014} Zeile 3");
    assert_eq!(editor.replace_one(), Some(0));
    assert_eq!(editor.find_current_match, 0);
    assert_eq!(editor.replace_one(), None);
    assert_eq!(text_of(&editor), "x\nbar x\nx\n");
    assert_eq!(editor.find_status, "Keine Treffer");
    assert_eq!(editor.highlight_line, None);
    assert_eq!(editor.replace_one(), None);
}

#[test]
fn status_after_a_replacement_names_the_line() {
    let mut editor = editor_with(&["foo bar foo"]);
    editor.open_find(true);
    editor.change_find_text("foo".to_string());
    editor.change_replace_text("baz".to_string());
    assert_eq!(editor.replace_one(), Some(0));
    assert_eq!(text_of(&editor), "baz bar foo\n");
    assert_eq!(editor.find_status, "Treffer 1 von 1 \u{2014} Zeile 1");
    assert_eq!(editor.selection().as_deref(), Some("foo"));
}

#[test]
fn nothing_to_replace_changes_nothing() {
    let mut editor = editor_with(&["abc"]);
    editor.change_replace_text("x".to_string());
    assert_eq!(editor.replace_one(), None);
    editor.replace_all();
    assert_eq!(editor.find_status, "");
    editor.change_find_text("zz".to_string());
    editor.replace_all();
    assert_eq!(editor.find_status, "Keine Treffer");
    assert_eq!(text_of(&editor), "abc\n");
    assert!(!editor.tabs[1].dirty);
}

#[test]
fn status_follows_the_panel() {
    assert_eq!(editor_find_status_text(9, 10, Some(0)), "Treffer 10 von 10 \u{2014} Zeile 1");
}

// --- Diagnostics ---

#[test]
fn diagnostic_marks_its_line_once() {
    let mut editor = Editor::new();
    for message in ["first", "second"] {
        let line = editor.show_diagnostic(
            path("src/a.rs"),
            "one\ntwo\nthree\n",
            2,
            3,
            DiagnosticLevel::Error,
            message.to_string(),
            Some("E0425".to_string()),
        );
        assert_eq!(line, 1);
    }
    assert_eq!(editor.tabs.len(), 2);
    assert_eq!(editor.active_tab, 1);
    assert_eq!(editor.highlight_line, Some(1));
    let errors = &editor.tabs[1].editor_errors;
    assert_eq!(errors.len(), 1);
    assert_eq!((errors[0].line, errors[0].column), (1, 3));
    assert_eq!(errors[0].message, "first");
    editor.perform(Action::Edit(Edit::Insert('X')));
    assert_eq!(text_of(&editor), "one\ntwXo\nthree\n");
}

#[test]
fn diagnostic_on_line_nought_is_on_the_first() {
    let mut editor = Editor::new();
    let line = editor.show_diagnostic(
        path("a.rs"),
        "x",
        0,
        0,
        DiagnosticLevel::Note,
        String::new(),
        None,
    );
    assert_eq!(line, 0);
    assert_eq!(editor.highlight_line, Some(0));
}

#[test]
fn selecting_all_selects_the_text() {
    let mut editor = editor_with(&["ab\ncd"]);
    assert_eq!(editor.selection(), None);
    editor.select_all();
    assert_eq!(editor.selection().as_deref(), Some("ab\ncd"));
}
