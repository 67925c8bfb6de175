use cargo_gui::app::App;
use cargo_gui::config::{AppTheme, Config, HighlightColor};
use cargo_gui::content::{Action, Edit, Navigation};
use cargo_gui::diagnostics::DiagnosticLevel;
use cargo_gui::message::{ContextMenuKind, Effect, Msg, Page, Place};
use cargo_gui::paths::{FilePath, Platform};
use cargo_gui::view::{commands_left, commands_right, config_hint, menu_entries, MenuEntry};

fn path(text: &str) -> FilePath {
    FilePath::new(&Platform::current(), text.to_string())
}

fn start() -> App {
    let origin = Place { point: iced::Point::ORIGIN };
    App::new(Config::default(), origin).0
}

fn send(app: &mut App, msg: Msg) -> Effect {
    assert!(app.accepts(&msg));
    app.update(msg)
}

fn append(app: &mut App, line: &str, job_id: u64) {
    let effect = send(app, Msg::Append { line: line.to_string(), job_id });
    assert!(matches!(effect, Effect::Nothing));
}

#[test]
fn start_of_the_application() {
    let mut config = Config::default();
    config.default_path = "/home/p".to_string();
    config.is_fullscreen = true;
    let (app, effect) = App::new(config, Place { point: iced::Point::ORIGIN });
    assert!(matches!(effect, Effect::EnterFullscreen));
    assert_eq!(app.project_path, "/home/p");
    assert_eq!(app.cargo_args, "build");
    assert_eq!(app.status, "Bereit");
    assert_eq!(app.status_text(), "Status: Bereit");
    assert_eq!(app.editor.tabs.len(), 1);
    assert_eq!(app.current_page, Page::Main);
    assert!(matches!(
        App::new(Config::default(), Place { point: iced::Point::ORIGIN }).1,
        Effect::Nothing
    ));
}

// --- Project ---

#[test]
fn project_path_and_default() {
    let mut app = start();
    send(&mut app, Msg::NavigateTo(Page::Settings));
    assert_eq!(app.current_page, Page::Settings);
    assert!(matches!(send(&mut app, Msg::BrowsePath), Effect::PickFolder));
    send(&mut app, Msg::PathPicked(None));
    assert_eq!(app.project_path, "");
    send(&mut app, Msg::RestoreDefault);
    assert_eq!(app.project_path, "");
    send(&mut app, Msg::PathPicked(Some("/a".to_string())));
    assert!(matches!(send(&mut app, Msg::SetAsDefault), Effect::SaveConfig));
    assert_eq!(app.config.default_path, "/a");
    assert_eq!(app.status, "Startpfad gesetzt");
    send(&mut app, Msg::PathChanged("/b".to_string()));
    send(&mut app, Msg::RestoreDefault);
    assert_eq!(app.project_path, "/a");
}

// --- Runs ---

#[test]
fn a_run_from_start_to_end() {
    let mut app = start();
    send(&mut app, Msg::PathChanged("proj".to_string()));
    send(&mut app, Msg::ArgsChanged("check".to_string()));
    match send(&mut app, Msg::Run) {
        Effect::RunCargo { path, args, job_id } => {
            assert_eq!((path.as_str(), args.as_str(), job_id), ("proj", "check", 1));
        }
        _ => panic!("a run starts"),
    }
    assert!(app.run.running);
    assert_eq!(app.status, "Läuft…");
    assert!(matches!(send(&mut app, Msg::Run), Effect::Nothing));
    assert!(matches!(send(&mut app, Msg::RunCommand("x".to_string())), Effect::Nothing));
    assert_eq!(app.cargo_args, "check");
    append(&mut app, "error[E0425]: cannot find", 1);
    append(&mut app, "  --> src/main.rs:4:7", 1);
    append(&mut app, "stale", 7);
    assert_eq!(app.output.lines.len(), 2);
    assert_eq!(app.log.diagnostics.len(), 1);
    assert!(matches!(
        send(&mut app, Msg::FlushOutput { elapsed_ms: 300 }),
        Effect::ScrollOutputToTop
    ));
    assert_eq!(app.run.display_elapsed_ms, 300);
    assert_eq!(app.command_timing("check"), "est:? jetzt:300 ms");
    assert!(matches!(send(&mut app, Msg::FlushOutput { elapsed_ms: 400 }), Effect::Nothing));
    let stale = Msg::Done { success: true, job_id: 0, elapsed_ms: 9 };
    assert!(matches!(send(&mut app, stale), Effect::Nothing));
    assert!(app.run.running);
    let done = Msg::Done { success: true, job_id: 1, elapsed_ms: 1500 };
    assert!(matches!(send(&mut app, done), Effect::ScrollOutputToTop));
    assert!(!app.run.running);
    assert_eq!(app.status, "Fertig ✓");
    assert_eq!(app.command_timing("check"), "est:1.50 s");
    assert_eq!(app.command_timing("build"), "est:?");
    assert_eq!(app.elapsed_text(), "Ausführungszeit: 1.50 s");
    assert_eq!(app.output.content.text(), "  --> src/main.rs:4:7\nerror[E0425]: cannot find\n");
    send(&mut app, Msg::FlushOutput { elapsed_ms: 9999 });
    assert_eq!(app.run.display_elapsed_ms, 1500);
}

#[test]
fn a_new_run_forgets_the_diagnostics() {
    let mut app = start();
    send(&mut app, Msg::Run);
    append(&mut app, "warning: w", 1);
    append(&mut app, "--> a.rs:1:1", 1);
    send(&mut app, Msg::Done { success: false, job_id: 1, elapsed_ms: 10 });
    assert_eq!(app.status, "Fehlgeschlagen ✗");
    assert_eq!(app.log.diagnostics.len(), 1);
    send(&mut app, Msg::RunCommand("test".to_string()));
    assert_eq!(app.log.diagnostics.len(), 0);
    assert_eq!(app.run.current_job_id, 2);
    assert_eq!(app.cargo_args, "test");
    append(&mut app, "late", 1);
    assert_eq!(app.output.lines.len(), 2);
    send(&mut app, Msg::Done { success: true, job_id: 2, elapsed_ms: 20 });
    send(&mut app, Msg::RunCommand("test".to_string()));
    send(&mut app, Msg::Done { success: true, job_id: 3, elapsed_ms: 30 });
    assert_eq!(app.command_timing("test"), "est:30 ms");
    assert_eq!(app.run.last_durations.len(), 2);
}

#[test]
fn stopping_is_asked_once() {
    let mut app = start();
    assert!(matches!(send(&mut app, Msg::Stop), Effect::Nothing));
    send(&mut app, Msg::Run);
    assert!(matches!(send(&mut app, Msg::Stop), Effect::StopCargo));
    assert_eq!(app.status, "Abbrechen…");
    assert!(matches!(send(&mut app, Msg::Stop), Effect::Nothing));
    assert!(app.run.running);
}

#[test]
fn a_new_project_needs_a_name() {
    let mut app = start();
    send(&mut app, Msg::NewProjectNameChanged(" \t".to_string()));
    assert!(app.new_project_message().is_none());
    assert!(matches!(send(&mut app, Msg::RunCargoNew), Effect::Nothing));
    send(&mut app, Msg::NewProjectNameChanged("  my app ".to_string()));
    assert!(matches!(app.new_project_message(), Some(Msg::RunCargoNew)));
    match send(&mut app, Msg::RunCargoNew) {
        Effect::RunCargo { args, .. } => assert_eq!(args, "new my app"),
        _ => panic!("a project is made"),
    }
    assert!(app.new_project_message().is_none());
}

#[test]
fn buttons_follow_the_run() {
    let mut app = start();
    assert!(matches!(app.run_message(), Some(Msg::Run)));
    assert!(app.stop_message().is_none());
    match app.command_message("doc") {
        Some(Msg::RunCommand(c)) => assert_eq!(c, "doc"),
        _ => panic!("enabled"),
    }
    assert_eq!(app.elapsed_text(), "Ausführungszeit: —");
    send(&mut app, Msg::Run);
    assert!(app.run_message().is_none());
    assert!(matches!(app.stop_message(), Some(Msg::Stop)));
    assert!(app.command_message("doc").is_none());
}

#[test]
fn no_more_runs_than_can_be_counted() {
    let mut app = start();
    app.run.current_job_id = u64::MAX;
    assert!(!app.accepts(&Msg::Run));
    assert!(!app.accepts(&Msg::RunCommand("x".to_string())));
    assert!(app.accepts(&Msg::RunCargoNew));
    app.new_project_name = "n".to_string();
    assert!(!app.accepts(&Msg::RunCargoNew));
    assert!(app.accepts(&Msg::Stop));
}

// --- Output ---

#[test]
fn output_is_copied_and_cleared() {
    let mut app = start();
    send(&mut app, Msg::Run);
    append(&mut app, "hello", 1);
    send(&mut app, Msg::FlushOutput { elapsed_ms: 1 });
    match send(&mut app, Msg::CopyOutput) {
        Effect::CopyToClipboard(text) => assert_eq!(text, "hello\n"),
        _ => panic!("copied"),
    }
    send(&mut app, Msg::OutputAction(Action::Edit(Edit::Delete)));
    assert_eq!(app.output.content.text(), "hello\n");
    send(&mut app, Msg::Clear);
    assert_eq!(app.status, "Bereit");
    assert_eq!(app.output.lines.len(), 0);
    match send(&mut app, Msg::CopyOutput) {
        Effect::CopyToClipboard(text) => assert_eq!(text, "\n"),
        _ => panic!("copied"),
    }
}

// --- Editor ---

#[test]
fn files_are_opened_and_saved() {
    let mut app = start();
    assert!(matches!(send(&mut app, Msg::OpenFile), Effect::PickFile));
    send(&mut app, Msg::FilePicked(None));
    assert_eq!(app.editor.tabs.len(), 1);
    match send(&mut app, Msg::SaveFile) {
        Effect::SaveText { path, text } => {
            assert!(path.is_none());
            assert_eq!(text, "\n");
        }
        _ => panic!("saved"),
    }
    send(&mut app, Msg::FilePicked(Some((path("d/a.rs"), "x".to_string()))));
    send(&mut app, Msg::EditorAction(Action::Edit(Edit::Insert('y'))));
    match send(&mut app, Msg::SaveFile) {
        Effect::SaveText { path, text } => {
            assert_eq!(path.unwrap().as_str(), "d/a.rs");
            assert_eq!(text, "yx\n");
        }
        _ => panic!("saved"),
    }
    let buttons = app.tab_buttons();
    assert_eq!(buttons[0].title, "Untitled-1");
    assert_eq!(buttons[0].tip, "Zu diesem Tab wechseln");
    assert_eq!(buttons[1].title, "a.rs*");
    assert!(buttons[1].active);
    assert_eq!(buttons[1].tip, "Aktiver Tab");
    send(&mut app, Msg::SaveDone(None));
    assert_eq!(app.status, "Bereit");
    send(&mut app, Msg::SaveDone(Some(Err("full".to_string()))));
    assert_eq!(app.status, "Fehler beim Speichern: full");
    assert!(app.editor.tabs[1].dirty);
    send(&mut app, Msg::SaveDone(Some(Ok(path("d/a.rs")))));
    assert_eq!(app.status, "Datei gespeichert: d/a.rs");
    assert!(!app.editor.tabs[1].dirty);
}

#[test]
fn tabs_that_are_not_there_cannot_be_closed() {
    let mut app = start();
    assert!(app.accepts(&Msg::TabClose(5)));
    send(&mut app, Msg::TabClose(5));
    assert_eq!(app.editor.tabs[0].title, "Untitled-2");
    send(&mut app, Msg::TabNew);
    assert!(!app.accepts(&Msg::TabClose(2)));
    assert!(app.accepts(&Msg::TabClose(1)));
    send(&mut app, Msg::TabClose(1));
    assert_eq!(app.editor.tabs.len(), 1);
    assert_eq!(app.editor.active_tab, 0);
}

#[test]
fn find_panel_opens_on_the_editor_page() {
    let mut app = start();
    send(&mut app, Msg::OpenInlineFind);
    assert!(!app.editor.find_replace_open);
    assert_eq!(app.find_button_label(), " Suchen");
    send(&mut app, Msg::NavigateTo(Page::Editor));
    send(&mut app, Msg::OpenInlineReplace);
    assert!(app.editor.find_replace_open && app.editor.find_show_replace);
    assert_eq!(app.find_button_label(), " Suchen ✕");
    send(&mut app, Msg::OpenInlineFind);
    assert!(!app.editor.find_show_replace);
    send(&mut app, Msg::ToggleReplaceField);
    assert!(app.editor.find_show_replace);
    send(&mut app, Msg::CloseInlineFind);
    assert!(!app.editor.find_replace_open);
    send(&mut app, Msg::ToggleFindReplace);
    assert!(app.editor.find_replace_open && !app.editor.find_show_replace);
}

#[test]
fn finding_scrolls_the_editor() {
    let mut app = start();
    send(&mut app, Msg::FilePicked(Some((path("a.rs"), "x\ny\nx\n".to_string()))));
    send(&mut app, Msg::ToggleFindReplace);
    let effect = send(&mut app, Msg::FindTextChanged("x".to_string()));
    assert!(matches!(effect, Effect::ScrollEditorTo(0)));
    assert!(matches!(send(&mut app, Msg::FindNext), Effect::ScrollEditorTo(2)));
    assert!(matches!(send(&mut app, Msg::FindNext), Effect::ScrollEditorTo(0)));
    assert!(matches!(send(&mut app, Msg::FindPrev), Effect::ScrollEditorTo(2)));
    send(&mut app, Msg::ReplaceTextChanged("z".to_string()));
    assert!(matches!(send(&mut app, Msg::ReplaceOne), Effect::ScrollEditorTo(0)));
    assert!(matches!(send(&mut app, Msg::ReplaceAll), Effect::Nothing));
    assert_eq!(app.editor.tabs[1].content.text(), "z\ny\nz\n");
    let effect = send(&mut app, Msg::FindTextChanged("q".to_string()));
    assert!(matches!(effect, Effect::Nothing));
}

// --- Context menu ---

#[test]
fn copy_cut_paste_and_select_all() {
    let mut app = start();
    send(&mut app, Msg::PasteText(Some("words".to_string())));
    send(&mut app, Msg::PasteText(None));
    assert_eq!(app.editor.tabs[0].content.text(), "words\n");
    assert!(app.editor.tabs[0].dirty);
    send(&mut app, Msg::MouseMoved(Place { point: iced::Point::new(7.0, 8.0) }));
    send(&mut app, Msg::ShowContextMenu(ContextMenuKind::Editor));
    assert_eq!(app.context_menu.unwrap().place.point, iced::Point::new(7.0, 8.0));
    assert!(matches!(send(&mut app, Msg::ContextCopy), Effect::Nothing));
    assert!(app.context_menu.is_none());
    send(&mut app, Msg::ShowContextMenu(ContextMenuKind::Editor));
    send(&mut app, Msg::ContextSelectAll);
    assert!(app.context_menu.is_none());
    send(&mut app, Msg::ShowContextMenu(ContextMenuKind::Editor));
    match send(&mut app, Msg::ContextCopy) {
        Effect::CopyToClipboard(text) => assert_eq!(text, "words"),
        _ => panic!("copied"),
    }
    match send(&mut app, Msg::ContextCut) {
        Effect::CopyToClipboard(text) => assert_eq!(text, "words"),
        _ => panic!("cut"),
    }
    assert_eq!(app.editor.tabs[0].content.text(), "\n");
    assert!(matches!(send(&mut app, Msg::ContextCut), Effect::Nothing));
    assert!(matches!(send(&mut app, Msg::ContextPaste), Effect::ReadClipboard));
    send(&mut app, Msg::ShowContextMenu(ContextMenuKind::Output));
    send(&mut app, Msg::HideContextMenu);
    assert!(app.context_menu.is_none());
    assert!(matches!(send(&mut app, Msg::ContextCopy), Effect::Nothing));
}

#[test]
fn menu_of_the_output_copies_the_output() {
    let mut app = start();
    send(&mut app, Msg::Run);
    append(&mut app, "abc", 1);
    send(&mut app, Msg::FlushOutput { elapsed_ms: 1 });
    send(&mut app, Msg::ShowContextMenu(ContextMenuKind::Output));
    send(&mut app, Msg::ContextSelectAll);
    send(&mut app, Msg::ShowContextMenu(ContextMenuKind::Output));
    match send(&mut app, Msg::ContextCopy) {
        Effect::CopyToClipboard(text) => assert_eq!(text, "abc"),
        _ => panic!("copied"),
    }
    send(&mut app, Msg::ShowContextMenu(ContextMenuKind::Output));
    send(&mut app, Msg::ToggleOutputFind);
    assert!(app.context_menu.is_none());
    assert!(app.output.find_open);
    send(&mut app, Msg::OutputFindTextChanged("b".to_string()));
    assert_eq!(app.output.find_status, "Treffer 1 von 1 \u{2014} Zeile 1");
    send(&mut app, Msg::OutputFindNext);
    send(&mut app, Msg::OutputFindPrev);
    assert_eq!(app.output.find_current_match, 0);
}

#[test]
fn menus_differ() {
    assert_eq!(
        menu_entries(ContextMenuKind::Editor),
        vec![
            MenuEntry::Copy,
            MenuEntry::SelectAll,
            MenuEntry::Cut,
            MenuEntry::Paste,
            MenuEntry::FindReplace
        ]
    );
    assert_eq!(
        menu_entries(ContextMenuKind::Output),
        vec![MenuEntry::Copy, MenuEntry::SelectAll, MenuEntry::FindInOutput]
    );
    assert_eq!(MenuEntry::Cut.label(), " Ausschneiden (Cut)");
    assert!(matches!(MenuEntry::Copy.message(), Msg::ContextCopy));
    assert!(matches!(MenuEntry::SelectAll.message(), Msg::ContextSelectAll));
    assert!(matches!(MenuEntry::Cut.message(), Msg::ContextCut));
    assert!(matches!(MenuEntry::Paste.message(), Msg::ContextPaste));
    assert!(matches!(MenuEntry::FindReplace.message(), Msg::ToggleFindReplace));
    assert!(matches!(MenuEntry::FindInOutput.message(), Msg::ToggleOutputFind));
}

// --- Settings ---

#[test]
fn every_setting_is_stored() {
    let mut app = start();
    let effect = send(&mut app, Msg::DefaultPathChanged("/p".to_string()));
    assert!(matches!(effect, Effect::SaveConfig));
    assert!(matches!(send(&mut app, Msg::ThemeChanged(AppTheme::Nord)), Effect::SaveConfig));
    let effect = send(&mut app, Msg::SetFindTestColor(HighlightColor::Green));
    assert!(matches!(effect, Effect::SaveConfig));
    assert!(matches!(send(&mut app, Msg::WindowModeChanged(true)), Effect::SaveConfig));
    assert_eq!(app.config.default_path, "/p");
    assert_eq!(app.config.theme, AppTheme::Nord);
    assert_eq!(app.config.highlight_color, HighlightColor::Green);
    assert!(app.config.is_fullscreen);
    assert!(matches!(send(&mut app, Msg::Quit), Effect::SaveConfigAndExit));
    assert!(matches!(send(&mut app, Msg::ResetSettings), Effect::ResetAndSaveConfig));
    assert_eq!(app.config.theme, AppTheme::Light);
    assert_eq!(app.config.highlight_color, HighlightColor::Yellow);
    assert_eq!(app.status, "Einstellungen zurückgesetzt ✓");
}

#[test]
fn hint_names_the_file() {
    assert_eq!(config_hint(Some("/c.toml")), "Konfigurationsdatei: /c.toml");
    assert_eq!(config_hint(None), "Konfigurationsdatei: (kein Pfad verfügbar)");
}

// --- Help and tooltips ---

#[test]
fn failures_to_open_are_told() {
    let mut app = start();
    assert!(matches!(send(&mut app, Msg::OpenHelpPdf), Effect::OpenHelpPdf));
    send(&mut app, Msg::HelpPdfFailed("gone".to_string()));
    assert_eq!(app.status, "PDF konnte nicht geöffnet werden: gone");
    assert!(matches!(send(&mut app, Msg::OpenPublicDomainLink), Effect::OpenPublicDomainLink));
    send(&mut app, Msg::LinkFailed("offline".to_string()));
    assert_eq!(app.status, "Link konnte nicht geöffnet werden: offline");
}

#[test]
fn tooltips_come_and_go() {
    let mut app = start();
    send(&mut app, Msg::TooltipShow("tip".to_string()));
    assert_eq!(app.tooltip_text.as_deref(), Some("tip"));
    send(&mut app, Msg::TooltipHide);
    assert_eq!(app.tooltip_text, None);
}

// --- Diagnostics ---

#[test]
fn diagnostics_lead_to_their_place() {
    let mut app = start();
    assert!(app.diagnostics_title().is_none());
    send(&mut app, Msg::PathChanged("proj".to_string()));
    send(&mut app, Msg::Run);
    append(&mut app, "error[E0382]: moved", 1);
    append(&mut app, " --> src/a.rs:2:3", 1);
    assert_eq!(
        app.diagnostics_title().unwrap(),
        "Diagnosen (1): — klicken zum Öffnen im Editor"
    );
    let buttons = app.diagnostic_buttons();
    assert_eq!(buttons[0].label, "[FEHLER] a.rs:2:3 — moved");
    assert_eq!(buttons[0].level, DiagnosticLevel::Error);
    let file = match send(&mut app, buttons[0].message.clone()) {
        Effect::LoadDiagnosticFile { path, line, col, level } => {
            assert_eq!((line, col, level), (2, 3, DiagnosticLevel::Error));
            path
        }
        _ => panic!("the file is read"),
    };
    assert!(matches!(send(&mut app, Msg::SelectErrorFromDropdown(1)), Effect::Nothing));
    assert!(matches!(
        send(&mut app, Msg::SelectErrorFromDropdown(0)),
        Effect::LoadDiagnosticFile { line: 2, col: 3, .. }
    ));
    send(&mut app, Msg::DiagnosticFileLoaded(None));
    assert_eq!(app.current_page, Page::Main);
    let loaded = (app.log.diagnostics[0].file.clone(), "l1\nl2\nl3".to_string(), 2, 3);
    let msg = Msg::DiagnosticFileLoaded(Some((
        loaded.0,
        loaded.1,
        loaded.2,
        loaded.3,
        DiagnosticLevel::Error,
    )));
    assert!(matches!(send(&mut app, msg), Effect::ScrollEditorTo(1)));
    assert_eq!(app.current_page, Page::Editor);
    assert_eq!(app.shown_level, DiagnosticLevel::Error);
    let tab = &app.editor.tabs[1];
    assert_eq!(tab.title, "a.rs");
    assert_eq!(tab.editor_errors[0].message, "moved");
    assert_eq!(tab.editor_errors[0].error_code.as_deref(), Some("E0382"));
    assert_eq!(tab.editor_errors[0].column, 3);
    assert!(file.as_str().ends_with("a.rs"));
    send(&mut app, Msg::EditorAction(Action::Navigate(Navigation::SelectAll)));
    assert_eq!(app.editor.tabs[1].content.text(), "l1\nl2\nl3\n");
}

// --- Commands ---

#[test]
fn command_buttons() {
    let left = commands_left();
    let right = commands_right();
    assert_eq!(left.len(), 8);
    assert_eq!(right.len(), 6);
    assert_eq!(left[1].label, "Build --release");
    assert_eq!(left[1].command, "build --release");
    assert_eq!(left[4].tip, "cargo test — Führt alle Tests aus");
    assert_eq!(right[1].command, "new");
    assert_eq!(right[5].tip, "cargo bench — Benchmarks ausführen");
}

#[test]
fn messages_that_cannot_be_taken_change_nothing() {
    let mut app = start();
    assert!(app.try_update(Msg::Run).is_some());
    let mixed = "a\u{2029}\u{5d0}".to_string();
    assert!(app.try_update(Msg::Append { line: mixed.clone(), job_id: 1 }).is_none());
    assert!(app.output.lines.is_empty());
    assert!(app.try_update(Msg::Append { line: mixed.clone(), job_id: 7 }).is_some());
    assert!(app.try_update(Msg::FilePicked(Some((path("a.rs"), mixed.clone())))).is_none());
    let loaded = (path("a.rs"), mixed.clone(), 1, 1, DiagnosticLevel::Error);
    assert!(app.try_update(Msg::DiagnosticFileLoaded(Some(loaded))).is_none());
    assert!(app.try_update(Msg::PasteText(Some(mixed.clone()))).is_none());
    assert_eq!(app.editor.tabs.len(), 1);
    assert!(!app.editor.tabs[0].dirty);
    assert!(app.try_update(Msg::PasteText(Some("\u{5d0}b".to_string()))).is_some());
    assert!(app.try_update(Msg::Append { line: "\u{5d0}".to_string(), job_id: 1 }).is_some());
    assert!(app.try_update(Msg::Append { line: "a\u{1e}b".to_string(), job_id: 1 }).is_some());
    assert_eq!(app.output.lines.len(), 2);
    app.editor.tabs[0].content.go_to(0, 0);
    let separator = Msg::EditorAction(Action::Edit(Edit::Insert('\u{2029}')));
    assert!(app.try_update(separator).is_none());
    app.try_update(Msg::FindTextChanged("b".to_string()));
    app.try_update(Msg::ReplaceTextChanged("\u{85}c".to_string()));
    assert!(app.try_update(Msg::ReplaceOne).is_none());
    assert!(app.try_update(Msg::ReplaceAll).is_none());
    assert_eq!(app.editor.tabs[0].content.text(), "\u{5d0}b\n");
    assert!(app.try_update(Msg::TabNew).is_some());
    assert!(app.try_update(Msg::TabClose(2)).is_none());
    assert_eq!(app.editor.tabs.len(), 2);
}

#[test]
fn a_tab_on_view_is_scrolled_to_its_match() {
    let mut app = start();
    send(&mut app, Msg::ToggleFindReplace);
    send(&mut app, Msg::FindTextChanged("x".to_string()));
    let picked = Msg::FilePicked(Some((path("a.rs"), "a\nx".to_string())));
    assert!(matches!(send(&mut app, picked), Effect::ScrollEditorTo(1)));
    assert!(matches!(send(&mut app, Msg::TabNew), Effect::Nothing));
    assert!(matches!(send(&mut app, Msg::TabClose(2)), Effect::ScrollEditorTo(1)));
    assert!(matches!(send(&mut app, Msg::ContextCut), Effect::CopyToClipboard(_)));
    assert!(app.editor.find_all_match_lines.is_empty());
    assert_eq!(app.editor.highlight_line, None);
}

#[test]
fn a_cut_that_cannot_be_laid_out_is_not_made() {
    let mut app = start();
    let text = "b\u{1e}\n\u{5d0}x".to_string();
    send(&mut app, Msg::FilePicked(Some((path("a.rs"), text))));
    assert!(app.accepts(&Msg::ContextCut));
    app.editor.tabs[1].content.go_to(0, 2);
    let right = Navigation::Select(iced::widget::text_editor::Motion::Right);
    send(&mut app, Msg::EditorAction(Action::Navigate(right)));
    assert!(app.try_update(Msg::ContextCut).is_none());
    assert_eq!(app.editor.tabs[1].content.text(), "b\u{1e}\n\u{5d0}x\n");
}
