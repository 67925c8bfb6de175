use cargo_gui::content::{Action, Edit, Navigation};
use cargo_gui::output::{OutputPanel, MAX_LINES, TRIM_NOTICE};

fn panel(lines: &[&str]) -> OutputPanel {
    let mut panel = OutputPanel::new();
    for line in lines {
        panel.append(line.to_string());
    }
    panel.flush();
    panel
}

#[test]
fn newest_line_is_on_top() {
    let p = panel(&["one", "two", "three"]);
    assert_eq!(p.content.text(), "three\ntwo\none\n");
    assert!(!p.dirty);
    assert_eq!(panel(&[]).content.text(), "\n");
}

#[test]
fn oldest_lines_are_dropped() {
    let mut p = OutputPanel::new();
    for i in 0..MAX_LINES {
        p.append(format!("{i}"));
    }
    assert!(!p.trimmed);
    assert_eq!(p.lines.len(), MAX_LINES);
    p.append("last".to_string());
    assert!(p.trimmed);
    assert_eq!(p.lines.len(), MAX_LINES);
    assert_eq!(p.lines.front().unwrap(), "1");
    assert_eq!(p.lines.back().unwrap(), "last");
    p.flush();
    let text = p.content.text();
    assert!(text.starts_with("last\n4999\n"));
    assert!(text.ends_with(&format!("\n1\n{TRIM_NOTICE}\n")));
}

#[test]
fn notice_text() {
    assert_eq!(TRIM_NOTICE, "⚠ Hinweis: ältere Ausgabe wurde verworfen – max. 5000 Zeilen");
    let mut p = OutputPanel::new();
    p.trimmed = true;
    p.flush();
    assert_eq!(p.content.text(), format!("{TRIM_NOTICE}\n"));
}

#[test]
fn finding_in_the_output() {
    let mut p = panel(&["warning: a", "ok", "warning: b"]);
    p.toggle_find();
    p.change_find_text("warning".to_string());
    assert_eq!(p.highlight_line, Some(0));
    assert_eq!(p.find_status, "Treffer 1 von 2 \u{2014} Zeile 1");
    p.find_next();
    assert_eq!(p.highlight_line, Some(2));
    assert_eq!(p.find_status, "Treffer 2 von 2 \u{2014} Zeile 3");
    assert_eq!(p.selection().as_deref(), Some("warning"));
    p.find_next();
    assert_eq!(p.find_current_match, 0);
    p.find_prev();
    assert_eq!(p.find_current_match, 1);
    p.change_find_text("nowhere".to_string());
    assert_eq!(p.find_status, "Keine Treffer");
    assert_eq!(p.highlight_line, None);
    p.find_prev();
    assert_eq!(p.find_status, "Keine Treffer");
    p.change_find_text(String::new());
    assert_eq!(p.find_status, "");
    p.find_next();
    assert_eq!(p.find_status, "");
    p.toggle_find();
    assert!(!p.find_open);
}

#[test]
fn new_lines_reset_the_search() {
    let mut p = panel(&["a", "a"]);
    p.change_find_text("a".to_string());
    p.find_next();
    p.append("b".to_string());
    assert!(p.dirty);
    assert_eq!(p.highlight_line, None);
    assert_eq!(p.find_current_match, 0);
    assert_eq!(p.find_status, "");
}

#[test]
fn output_text_cannot_be_edited() {
    let mut p = panel(&["abc"]);
    p.perform(Action::Edit(Edit::Insert('x')));
    p.perform(Action::Edit(Edit::Delete));
    assert_eq!(p.content.text(), "abc\n");
    p.perform(Action::Navigate(Navigation::SelectAll));
    assert_eq!(p.selection().as_deref(), Some("abc"));
    assert_eq!(p.content.text(), "abc\n");
}

#[test]
fn clearing_empties_the_panel() {
    let mut p = panel(&["abc"]);
    p.trimmed = true;
    p.clear();
    assert_eq!(p.lines.len(), 0);
    assert_eq!(p.content.text(), "\n");
    assert!(!p.trimmed && !p.dirty);
    p.select_all();
}

#[test]
fn lines_do_not_hinder_each_other() {
    let mut p = panel(&["plain", "\u{5e9}\u{5dc}"]);
    p.append("a\u{1e}b".to_string());
    p.append("a\rb".to_string());
    p.append("\u{5d0}\u{2029}\u{5d1}".to_string());
    p.flush();
    assert_eq!(
        p.content.text(),
        "\u{5d0}\u{2029}\u{5d1}\na\nb\na\u{1e}b\n\u{5e9}\u{5dc}\nplain\n"
    );
    p.toggle_find();
    p.change_find_text("plain".to_string());
    assert_eq!(p.highlight_line, Some(5));
    assert_eq!(p.selection().as_deref(), Some("plain"));
}
