//! The application: its state, and what each message does to it.

use vstd::prelude::*;

use crate::config::{default_config, Config, ConfigModel};
use crate::content::{
    content_cursor, content_selection, is_whole_text, is_without, text_after, Action, CursorStep, Edit, Request,
};
use crate::diagnostics::{Diagnostic, DiagnosticLevel, EditorErrorModel};
use crate::direction::{can_load, loads};
use crate::editor::{below, initial_editor, Editor, EditorModel};
use crate::log::{empty_log, DiagnosticLog, LogModel};
use crate::message::{
    ContextMenuKind, ContextMenuState, Effect, EffectModel, Msg, Page, Place,
};
use crate::output::{empty_output, OutputModel, OutputPanel};
use crate::paths::{resolved, FilePath, PathModel, Platform};
use crate::run::{no_run, RunModel, RunState};
use crate::strings::{chars_to_string, is_empty, join2, text_of, to_chars, trim, trimmed};

verus! {

pub const READY: &'static str = "Bereit";

pub const RUNNING: &'static str = "Läuft…";

pub const STOPPING: &'static str = "Abbrechen…";

pub const SUCCEEDED: &'static str = "Fertig ✓";

pub const FAILED: &'static str = "Fehlgeschlagen ✗";

pub const PATH_SET: &'static str = "Startpfad gesetzt";

pub const SETTINGS_RESET: &'static str = "Einstellungen zurückgesetzt ✓";

pub const SAVED: &'static str = "Datei gespeichert: ";

pub const SAVE_FAILED: &'static str = "Fehler beim Speichern: ";

pub const PDF_FAILED: &'static str = "PDF konnte nicht geöffnet werden: ";

pub const LINK_FAILED: &'static str = "Link konnte nicht geöffnet werden: ";

/// The application.
pub struct App {
    pub current_page: Page,
    pub config: Config,
    pub project_path: String,
    /// The command and its arguments, such as `build --release`.
    pub cargo_args: String,
    /// The name for a new project.
    pub new_project_name: String,
    pub output: OutputPanel,
    pub run: RunState,
    pub log: DiagnosticLog,
    pub status: String,
    pub editor: Editor,
    pub context_menu: Option<ContextMenuState>,
    pub mouse: Place,
    pub tooltip_text: Option<String>,
    /// The level of the diagnostic shown last.
    pub shown_level: DiagnosticLevel,
    pub platform: Platform,
}

/// What an [`App`] holds.
#[verifier::ext_equal]
pub struct AppModel {
    pub page: Page,
    pub config: ConfigModel,
    pub project_path: Seq<char>,
    pub cargo_args: Seq<char>,
    pub new_project_name: Seq<char>,
    pub output: OutputModel,
    pub run: RunModel,
    pub log: LogModel,
    pub status: Seq<char>,
    pub editor: EditorModel,
    pub menu: Option<ContextMenuState>,
    pub mouse: Place,
    pub tooltip: Option<Seq<char>>,
    pub shown_level: DiagnosticLevel,
    pub separator: char,
}

impl View for App {
    type V = AppModel;

    open spec fn view(&self) -> AppModel {
        AppModel {
            page: self.current_page,
            config: self.config@,
            project_path: self.project_path@,
            cargo_args: self.cargo_args@,
            new_project_name: self.new_project_name@,
            output: self.output@,
            run: self.run@,
            log: self.log@,
            status: self.status@,
            editor: self.editor@,
            menu: self.context_menu,
            mouse: self.mouse,
            tooltip: text_of(self.tooltip_text),
            shown_level: self.shown_level,
            separator: self.platform@,
        }
    }
}

/// What the widgets know that the state does not tell.
pub struct Outside {
    /// The text of the shown tab after an edit at its cursor.
    pub edited: spec_fn(Edit) -> Seq<char>,
    /// The line of the cursor in the shown tab, and its place in it, in bytes.
    pub editor_cursor: (nat, nat),
    /// The selected text in the shown tab.
    pub editor_selection: Option<Seq<char>>,
    /// The selected text in the output.
    pub output_selection: Option<Seq<char>>,
}

impl App {
    /// The parts are well-formed.
    pub open spec fn wf(&self) -> bool {
        &&& self.editor@.wf()
        &&& self.output@.wf()
        &&& self.run.wf()
    }

    /// What the widgets know.
    pub open spec fn outside(&self) -> Outside {
        Outside {
            edited: |e: Edit| text_after(self.editor.widget(), e),
            editor_cursor: content_cursor(self.editor.widget()),
            editor_selection: content_selection(self.editor.widget()),
            output_selection: content_selection(self.output.content.inner()),
        }
    }
}

/// Whether what was selected in the editor is gone from its text.
pub open spec fn selection_removed(before: App, after: App) -> bool {
    content_selection(before.editor.widget()) matches Some(part) ==> is_without(
        after@.editor.tab().content.text,
        before@.editor.tab().content.text,
        part,
    )
}

/// Whether the whole text that the context menu is about is selected, if there
/// is any.
pub open spec fn menu_text_selected(before: App, after: App) -> bool {
    match before@.menu {
        Some(menu) => match menu.kind {
            ContextMenuKind::Editor => before@.editor.tab().content.text.len() > 1 ==> (
            after.outside().editor_selection matches Some(part) && is_whole_text(
                part,
                before@.editor.tab().content.text,
            )),
            ContextMenuKind::Output => before@.output.content.text.len() > 1 ==> (
            after.outside().output_selection matches Some(part) && is_whole_text(
                part,
                before@.output.content.text,
            )),
        },
        None => true,
    }
}

/// The application at its start.
pub open spec fn initial_app(config: ConfigModel, mouse: Place, separator: char) -> AppModel {
    AppModel {
        page: Page::Main,
        config,
        project_path: config.default_path,
        cargo_args: "build"@,
        new_project_name: Seq::empty(),
        output: empty_output(),
        run: no_run(),
        log: empty_log(),
        status: READY@,
        editor: initial_editor(),
        menu: None,
        mouse,
        tooltip: None,
        shown_level: DiagnosticLevel::Error,
        separator,
    }
}

/// The parts of the application that messages are about.
#[derive(Debug, Clone, Copy, PartialEq, Eq, Structural)]
pub enum Area {
    /// The page and the project.
    Project,
    /// Running cargo.
    Run,
    /// The output.
    Output,
    /// The tabs of the editor.
    Tabs,
    /// The find panel of the editor.
    Find,
    /// The context menu.
    Menu,
    /// The settings.
    Settings,
    /// The window and the help.
    Window,
    /// Diagnostics.
    Diagnostics,
}

/// The part of the application that a message is about.
pub open spec fn area(msg: Msg) -> Area {
    match msg {
        Msg::NavigateTo(..)
        | Msg::PathChanged(..)
        | Msg::ArgsChanged(..)
        | Msg::BrowsePath
        | Msg::PathPicked(..)
        | Msg::SetAsDefault
        | Msg::RestoreDefault
        | Msg::NewProjectNameChanged(..) => Area::Project,
        Msg::RunCargoNew
        | Msg::RunCommand(..)
        | Msg::Run
        | Msg::Stop
        | Msg::Append { .. }
        | Msg::Done { .. } => Area::Run,
        Msg::Clear
        | Msg::CopyOutput
        | Msg::FlushOutput { .. }
        | Msg::OutputAction(..)
        | Msg::ToggleOutputFind
        | Msg::OutputFindTextChanged(..)
        | Msg::OutputFindNext
        | Msg::OutputFindPrev => Area::Output,
        Msg::EditorAction(..)
        | Msg::TabNew
        | Msg::TabSelect(..)
        | Msg::TabClose(..)
        | Msg::OpenFile
        | Msg::FilePicked(..)
        | Msg::SaveFile
        | Msg::SaveDone(..) => Area::Tabs,
        Msg::ToggleFindReplace
        | Msg::OpenInlineFind
        | Msg::OpenInlineReplace
        | Msg::CloseInlineFind
        | Msg::ToggleReplaceField
        | Msg::FindTextChanged(..)
        | Msg::ReplaceTextChanged(..)
        | Msg::FindNext
        | Msg::FindPrev
        | Msg::ReplaceOne
        | Msg::ReplaceAll => Area::Find,
        Msg::ShowContextMenu(..)
        | Msg::HideContextMenu
        | Msg::ContextCopy
        | Msg::ContextCut
        | Msg::ContextPaste
        | Msg::ContextSelectAll
        | Msg::PasteText(..) => Area::Menu,
        Msg::DefaultPathChanged(..)
        | Msg::ThemeChanged(..)
        | Msg::ResetSettings
        | Msg::WindowModeChanged(..)
        | Msg::SetFindTestColor(..)
        | Msg::Quit => Area::Settings,
        Msg::MouseMoved(..)
        | Msg::TooltipShow(..)
        | Msg::TooltipHide
        | Msg::OpenHelpPdf
        | Msg::HelpPdfFailed(..)
        | Msg::OpenPublicDomainLink
        | Msg::LinkFailed(..) => Area::Window,
        Msg::OpenDiagnostic { .. }
        | Msg::DiagnosticFileLoaded(..)
        | Msg::SelectErrorFromDropdown(..) => Area::Diagnostics,
    }
}

/// The part of the application that a message is about.
fn area_of(msg: &Msg) -> (r: Area)
    ensures
        r == area(*msg),
{
    match msg {
        Msg::NavigateTo(..)
        | Msg::PathChanged(..)
        | Msg::ArgsChanged(..)
        | Msg::BrowsePath
        | Msg::PathPicked(..)
        | Msg::SetAsDefault
        | Msg::RestoreDefault
        | Msg::NewProjectNameChanged(..) => Area::Project,
        Msg::RunCargoNew
        | Msg::RunCommand(..)
        | Msg::Run
        | Msg::Stop
        | Msg::Append { .. }
        | Msg::Done { .. } => Area::Run,
        Msg::Clear
        | Msg::CopyOutput
        | Msg::FlushOutput { .. }
        | Msg::OutputAction(..)
        | Msg::ToggleOutputFind
        | Msg::OutputFindTextChanged(..)
        | Msg::OutputFindNext
        | Msg::OutputFindPrev => Area::Output,
        Msg::EditorAction(..)
        | Msg::TabNew
        | Msg::TabSelect(..)
        | Msg::TabClose(..)
        | Msg::OpenFile
        | Msg::FilePicked(..)
        | Msg::SaveFile
        | Msg::SaveDone(..) => Area::Tabs,
        Msg::ToggleFindReplace
        | Msg::OpenInlineFind
        | Msg::OpenInlineReplace
        | Msg::CloseInlineFind
        | Msg::ToggleReplaceField
        | Msg::FindTextChanged(..)
        | Msg::ReplaceTextChanged(..)
        | Msg::FindNext
        | Msg::FindPrev
        | Msg::ReplaceOne
        | Msg::ReplaceAll => Area::Find,
        Msg::ShowContextMenu(..)
        | Msg::HideContextMenu
        | Msg::ContextCopy
        | Msg::ContextCut
        | Msg::ContextPaste
        | Msg::ContextSelectAll
        | Msg::PasteText(..) => Area::Menu,
        Msg::DefaultPathChanged(..)
        | Msg::ThemeChanged(..)
        | Msg::ResetSettings
        | Msg::WindowModeChanged(..)
        | Msg::SetFindTestColor(..)
        | Msg::Quit => Area::Settings,
        Msg::MouseMoved(..)
        | Msg::TooltipShow(..)
        | Msg::TooltipHide
        | Msg::OpenHelpPdf
        | Msg::HelpPdfFailed(..)
        | Msg::OpenPublicDomainLink
        | Msg::LinkFailed(..) => Area::Window,
        Msg::OpenDiagnostic { .. }
        | Msg::DiagnosticFileLoaded(..)
        | Msg::SelectErrorFromDropdown(..) => Area::Diagnostics,
    }
}

impl AppModel {
    // -- Running --

    /// A run of the command was started.
    pub open spec fn run_started(self) -> AppModel {
        AppModel {
            output: OutputModel { trimmed: false, ..self.output },
            run: self.run.started(self.cargo_args),
            log: empty_log(),
            status: RUNNING@,
            ..self
        }
    }

    /// A run is started with another command, unless one is under way.
    pub open spec fn run_with(self, args: Seq<char>) -> AppModel {
        if self.run.running {
            self
        } else {
            AppModel { cargo_args: args, ..self }.run_started()
        }
    }

    /// The start of a run with the given command.
    pub open spec fn run_effect(self, args: Seq<char>) -> EffectModel {
        if self.run.running {
            EffectModel::Nothing
        } else {
            EffectModel::RunCargo { path: self.project_path, args, job: self.run.job + 1 }
        }
    }

    /// The command that makes the new project.
    pub open spec fn new_args(self) -> Seq<char> {
        "new "@ + trimmed(self.new_project_name)
    }

    /// Whether the new project has a name.
    pub open spec fn has_new_name(self) -> bool {
        trimmed(self.new_project_name).len() > 0
    }

    /// A line of the run came.
    pub open spec fn line_appended(self, line: Seq<char>, job: nat) -> AppModel {
        if job != self.run.job {
            self
        } else {
            AppModel {
                log: self.log.noted(line, self.project_path, self.separator),
                output: self.output.appended(line),
                ..self
            }
        }
    }

    /// The run ended.
    pub open spec fn run_ended(self, success: bool, job: nat, elapsed: nat) -> AppModel {
        if job != self.run.job {
            self
        } else {
            AppModel {
                run: self.run.ended(elapsed),
                status: if success {
                    SUCCEEDED@
                } else {
                    FAILED@
                },
                output: self.output.flushed(),
                ..self
            }
        }
    }

    // -- Clipboard --

    /// The selected text that the context menu is about.
    pub open spec fn menu_selection(self, o: Outside) -> Option<Seq<char>> {
        match self.menu {
            Some(menu) => match menu.kind {
                ContextMenuKind::Editor => o.editor_selection,
                ContextMenuKind::Output => o.output_selection,
            },
            None => None,
        }
    }

    /// The whole text that the context menu is about was selected.
    pub open spec fn all_selected(self) -> AppModel {
        match self.menu {
            Some(menu) => match menu.kind {
                ContextMenuKind::Editor => AppModel {
                    editor: self.editor.all_selected(),
                    menu: None,
                    ..self
                },
                ContextMenuKind::Output => AppModel {
                    output: OutputModel {
                        content: self.output.content.asked(
                            seq![Request::Step(CursorStep::SelectAll)],
                        ),
                        ..self.output
                    },
                    menu: None,
                    ..self
                },
            },
            None => self,
        }
    }

    /// The selected text in the editor was cut.
    pub open spec fn cut(self, o: Outside) -> AppModel {
        AppModel {
            editor: if o.editor_selection is Some {
                self.editor.acted(Action::Edit(Edit::Backspace), (o.edited)(Edit::Backspace))
            } else {
                self.editor
            },
            menu: None,
            ..self
        }
    }

    // -- Diagnostics --

    /// Reading the file of a diagnostic.
    pub open spec fn load_effect(
        self,
        path: PathModel,
        line: usize,
        col: usize,
        level: DiagnosticLevel,
    ) -> EffectModel {
        EffectModel::LoadDiagnosticFile {
            path: resolved(self.project_path, path),
            line,
            col,
            level,
        }
    }

    /// The file of a diagnostic was read.
    pub open spec fn diagnostic_shown(
        self,
        path: PathModel,
        text: Seq<char>,
        line: usize,
        col: usize,
        level: DiagnosticLevel,
    ) -> AppModel {
        let (message, error_code) = self.log.about(path, line);
        AppModel {
            editor: self.editor.diagnostic_shown(
                path,
                text,
                line as nat,
                col as nat,
                EditorErrorModel {
                    line: below(line as nat) as usize,
                    column: col,
                    level,
                    message,
                    error_code,
                },
            ),
            shown_level: level,
            page: Page::Editor,
            ..self
        }
    }

    /// Whether the shown tab can be laid out after the user did something in
    /// it.
    pub open spec fn takes(self, action: Action, o: Outside) -> bool {
        self.editor.takes(action, o.editor_cursor, o.editor_selection)
    }

    /// Whether a message can be taken now. A tab that is not there cannot be
    /// closed, what is counted must leave room for one more, and the texts
    /// must remain such that they can be laid out.
    pub open spec fn accepts(self, msg: Msg, o: Outside) -> bool {
        match msg {
            Msg::Run | Msg::RunCommand(_) => self.run.running || self.run.job < u64::MAX,
            Msg::RunCargoNew => self.run.running || !self.has_new_name() || self.run.job < u64::MAX,
            Msg::TabNew => self.editor.untitled_counter < usize::MAX,
            Msg::TabClose(i) => if self.editor.tabs.len() <= 1 {
                self.editor.untitled_counter < usize::MAX
            } else {
                i < self.editor.tabs.len()
            },
            Msg::Append { line, job_id } => job_id == self.run.job ==> loads(line@),
            Msg::EditorAction(action) => self.takes(action, o),
            Msg::PasteText(Some(text)) => self.takes(Action::Edit(Edit::Paste(text)), o),
            Msg::ContextCut => o.editor_selection is Some ==> self.takes(
                Action::Edit(Edit::Backspace),
                o,
            ),
            Msg::FilePicked(Some((path, text))) => self.editor.opens(path@, text@),
            Msg::DiagnosticFileLoaded(Some((path, text, _, _, _))) => self.editor.opens(
                path@,
                text@,
            ),
            Msg::ReplaceOne => self.editor.can_replace_one(),
            Msg::ReplaceAll => self.editor.can_replace_all(),
            _ => true,
        }
    }

    /// The application after a message about the page and the project.
    pub open spec fn next_project(self, msg: Msg, o: Outside) -> AppModel {
        match msg {
            Msg::NavigateTo(page) => AppModel { page, ..self },
            Msg::PathChanged(p) => AppModel { project_path: p@, ..self },
            Msg::ArgsChanged(a) => AppModel { cargo_args: a@, ..self },
            Msg::BrowsePath => self,
            Msg::PathPicked(Some(p)) => AppModel { project_path: p@, ..self },
            Msg::PathPicked(None) => self,
            Msg::SetAsDefault => AppModel {
                config: ConfigModel { default_path: self.project_path, ..self.config },
                status: PATH_SET@,
                ..self
            },
            Msg::RestoreDefault => if self.config.default_path.len() > 0 {
                AppModel { project_path: self.config.default_path, ..self }
            } else {
                self
            },
            Msg::NewProjectNameChanged(n) => AppModel { new_project_name: n@, ..self },
            _ => self,
        }
    }

    /// What the application asks for after a message about the page and the project.
    pub open spec fn effect_project(self, msg: Msg, o: Outside) -> EffectModel {
        match msg {
            Msg::BrowsePath => EffectModel::PickFolder,
            Msg::SetAsDefault => EffectModel::SaveConfig,
            _ => EffectModel::Nothing,
        }
    }

    /// The application after a message about running cargo.
    pub open spec fn next_run(self, msg: Msg, o: Outside) -> AppModel {
        match msg {
            Msg::RunCargoNew => if self.has_new_name() {
                self.run_with(self.new_args())
            } else {
                self
            },
            Msg::RunCommand(command) => self.run_with(command@),
            Msg::Run => self.run_with(self.cargo_args),
            Msg::Stop => AppModel {
                run: RunModel { stoppable: false, ..self.run },
                status: STOPPING@,
                ..self
            },
            Msg::Append { line, job_id } => self.line_appended(line@, job_id as nat),
            Msg::Done { success, job_id, elapsed_ms } => self.run_ended(
                success,
                job_id as nat,
                elapsed_ms as nat,
            ),
            _ => self,
        }
    }

    /// What the application asks for after a message about running cargo.
    pub open spec fn effect_run(self, msg: Msg, o: Outside) -> EffectModel {
        match msg {
            Msg::RunCargoNew => if self.has_new_name() {
                self.run_effect(self.new_args())
            } else {
                EffectModel::Nothing
            },
            Msg::RunCommand(command) => self.run_effect(command@),
            Msg::Run => self.run_effect(self.cargo_args),
            Msg::Stop => if self.run.stoppable {
                EffectModel::StopCargo
            } else {
                EffectModel::Nothing
            },
            Msg::Done { job_id, .. } => if job_id == self.run.job {
                EffectModel::ScrollOutputToTop
            } else {
                EffectModel::Nothing
            },
            _ => EffectModel::Nothing,
        }
    }

    /// The application after a message about the output.
    pub open spec fn next_output(self, msg: Msg, o: Outside) -> AppModel {
        match msg {
            Msg::Clear => AppModel {
                output: self.output.cleared(),
                log: empty_log(),
                status: READY@,
                ..self
            },
            Msg::CopyOutput => self,
            Msg::FlushOutput { elapsed_ms } => AppModel {
                output: if self.output.dirty {
                    self.output.flushed()
                } else {
                    self.output
                },
                run: self.run.ticked(elapsed_ms as nat),
                ..self
            },
            Msg::OutputAction(action) => AppModel { output: self.output.acted(action), ..self },
            Msg::ToggleOutputFind => AppModel {
                output: self.output.find_toggled(),
                menu: None,
                ..self
            },
            Msg::OutputFindTextChanged(s) => AppModel {
                output: self.output.find_text_changed(s@),
                ..self
            },
            Msg::OutputFindNext => AppModel { output: self.output.stepped(true), ..self },
            Msg::OutputFindPrev => AppModel { output: self.output.stepped(false), ..self },
            _ => self,
        }
    }

    /// What the application asks for after a message about the output.
    pub open spec fn effect_output(self, msg: Msg, o: Outside) -> EffectModel {
        match msg {
            Msg::CopyOutput => if self.output.content.text.len() == 0 {
                EffectModel::Nothing
            } else {
                EffectModel::CopyToClipboard(self.output.content.text)
            },
            Msg::FlushOutput { .. } => if self.output.dirty {
                EffectModel::ScrollOutputToTop
            } else {
                EffectModel::Nothing
            },
            _ => EffectModel::Nothing,
        }
    }

    /// The application after a message about the tabs of the editor.
    pub open spec fn next_tabs(self, msg: Msg, o: Outside) -> AppModel {
        match msg {
            Msg::EditorAction(action) => AppModel {
                editor: self.editor.acted(
                    action,
                    match action {
                        Action::Navigate(_) => self.editor.tab().content.text,
                        Action::Edit(e) => (o.edited)(e),
                    },
                ),
                ..self
            },
            Msg::TabNew => AppModel { editor: self.editor.tab_opened(), ..self },
            Msg::TabSelect(i) => AppModel { editor: self.editor.tab_selected(i as int), ..self },
            Msg::TabClose(i) => AppModel { editor: self.editor.tab_closed(i as int), ..self },
            Msg::OpenFile => self,
            Msg::FilePicked(Some((path, text))) => AppModel {
                editor: self.editor.file_opened(path@, text@),
                ..self
            },
            Msg::FilePicked(None) => self,
            Msg::SaveFile => self,
            Msg::SaveDone(None) => self,
            Msg::SaveDone(Some(Ok(path))) => AppModel {
                editor: self.editor.saved_to(path@),
                status: SAVED@ + path@.text,
                ..self
            },
            Msg::SaveDone(Some(Err(reason))) => AppModel {
                status: SAVE_FAILED@ + reason@,
                ..self
            },
            _ => self,
        }
    }

    /// What the application asks for after a message about the tabs of the editor.
    pub open spec fn effect_tabs(self, msg: Msg, o: Outside) -> EffectModel {
        match msg {
            Msg::TabNew => EffectModel::scroll(self.editor.tab_opened().highlight),
            Msg::TabSelect(i) => EffectModel::scroll(self.editor.select_target(i as int)),
            Msg::TabClose(i) => EffectModel::scroll(self.editor.close_target(i as int)),
            Msg::FilePicked(Some((path, text))) => EffectModel::scroll(
                self.editor.open_target(path@, text@),
            ),
            Msg::OpenFile => EffectModel::PickFile,
            Msg::SaveFile => EffectModel::SaveText {
                path: self.editor.tab().path,
                text: self.editor.tab().content.text,
            },
            _ => EffectModel::Nothing,
        }
    }

    /// The application after a message about the find panel of the editor.
    pub open spec fn next_find(self, msg: Msg, o: Outside) -> AppModel {
        match msg {
            Msg::ToggleFindReplace => AppModel {
                editor: if self.editor.open {
                    self.editor.find_closed()
                } else {
                    self.editor.find_opened(false)
                },
                ..self
            },
            Msg::OpenInlineFind => if self.page is Editor {
                AppModel { editor: self.editor.find_opened(false), ..self }
            } else {
                self
            },
            Msg::OpenInlineReplace => if self.page is Editor {
                AppModel { editor: self.editor.find_opened(true), ..self }
            } else {
                self
            },
            Msg::CloseInlineFind => if self.editor.open {
                AppModel { editor: self.editor.find_closed(), ..self }
            } else {
                self
            },
            Msg::ToggleReplaceField => AppModel {
                editor: EditorModel { show_replace: !self.editor.show_replace, ..self.editor },
                ..self
            },
            Msg::FindTextChanged(s) => AppModel {
                editor: self.editor.find_text_changed(s@),
                ..self
            },
            Msg::ReplaceTextChanged(s) => AppModel {
                editor: EditorModel { replace_text: s@, ..self.editor },
                ..self
            },
            Msg::FindNext => AppModel { editor: self.editor.stepped(true), ..self },
            Msg::FindPrev => AppModel { editor: self.editor.stepped(false), ..self },
            Msg::ReplaceOne => AppModel { editor: self.editor.one_replaced(), ..self },
            Msg::ReplaceAll => AppModel { editor: self.editor.all_replaced(), ..self },
            _ => self,
        }
    }

    /// What the application asks for after a message about the find panel of the editor.
    pub open spec fn effect_find(self, msg: Msg, o: Outside) -> EffectModel {
        match msg {
            Msg::FindTextChanged(s) => EffectModel::scroll(
                self.editor.find_text_changed(s@).highlight,
            ),
            Msg::FindNext => EffectModel::scroll(self.editor.step_target(true)),
            Msg::FindPrev => EffectModel::scroll(self.editor.step_target(false)),
            Msg::ReplaceOne => EffectModel::scroll(self.editor.replace_target()),
            _ => EffectModel::Nothing,
        }
    }

    /// The application after a message about the context menu.
    pub open spec fn next_menu(self, msg: Msg, o: Outside) -> AppModel {
        match msg {
            Msg::ShowContextMenu(kind) => AppModel {
                menu: Some(ContextMenuState { place: self.mouse, kind }),
                ..self
            },
            Msg::HideContextMenu => AppModel { menu: None, ..self },
            Msg::ContextCopy => AppModel { menu: None, ..self },
            Msg::ContextCut => self.cut(o),
            Msg::ContextPaste => AppModel { menu: None, ..self },
            Msg::ContextSelectAll => self.all_selected(),
            Msg::PasteText(Some(text)) => AppModel {
                editor: self.editor.acted(
                    Action::Edit(Edit::Paste(text)),
                    (o.edited)(Edit::Paste(text)),
                ),
                ..self
            },
            Msg::PasteText(None) => self,
            _ => self,
        }
    }

    /// What the application asks for after a message about the context menu.
    pub open spec fn effect_menu(self, msg: Msg, o: Outside) -> EffectModel {
        match msg {
            Msg::ContextCopy => EffectModel::copy(self.menu_selection(o)),
            Msg::ContextCut => EffectModel::copy(o.editor_selection),
            Msg::ContextPaste => EffectModel::ReadClipboard,
            _ => EffectModel::Nothing,
        }
    }

    /// The application after a message about the settings.
    pub open spec fn next_settings(self, msg: Msg, o: Outside) -> AppModel {
        match msg {
            Msg::DefaultPathChanged(p) => AppModel {
                config: ConfigModel { default_path: p@, ..self.config },
                ..self
            },
            Msg::ThemeChanged(theme) => AppModel {
                config: ConfigModel { theme, ..self.config },
                ..self
            },
            Msg::ResetSettings => AppModel {
                config: default_config(),
                status: SETTINGS_RESET@,
                ..self
            },
            Msg::WindowModeChanged(is_fullscreen) => AppModel {
                config: ConfigModel { is_fullscreen, ..self.config },
                ..self
            },
            Msg::SetFindTestColor(highlight_color) => AppModel {
                config: ConfigModel { highlight_color, ..self.config },
                ..self
            },
            Msg::Quit => self,
            _ => self,
        }
    }

    /// What the application asks for after a message about the settings.
    pub open spec fn effect_settings(self, msg: Msg, o: Outside) -> EffectModel {
        match msg {
            Msg::DefaultPathChanged(_) => EffectModel::SaveConfig,
            Msg::ThemeChanged(_) => EffectModel::SaveConfig,
            Msg::ResetSettings => EffectModel::ResetAndSaveConfig,
            Msg::WindowModeChanged(_) => EffectModel::SaveConfig,
            Msg::SetFindTestColor(_) => EffectModel::SaveConfig,
            Msg::Quit => EffectModel::SaveConfigAndExit,
            _ => EffectModel::Nothing,
        }
    }

    /// The application after a message about the window and the help.
    pub open spec fn next_window(self, msg: Msg, o: Outside) -> AppModel {
        match msg {
            Msg::MouseMoved(place) => AppModel { mouse: place, ..self },
            Msg::TooltipShow(tip) => AppModel { tooltip: Some(tip@), ..self },
            Msg::TooltipHide => AppModel { tooltip: None, ..self },
            Msg::OpenHelpPdf => self,
            Msg::HelpPdfFailed(reason) => AppModel { status: PDF_FAILED@ + reason@, ..self },
            Msg::OpenPublicDomainLink => self,
            Msg::LinkFailed(reason) => AppModel { status: LINK_FAILED@ + reason@, ..self },
            _ => self,
        }
    }

    /// What the application asks for after a message about the window and the help.
    pub open spec fn effect_window(self, msg: Msg, o: Outside) -> EffectModel {
        match msg {
            Msg::OpenHelpPdf => EffectModel::OpenHelpPdf,
            Msg::OpenPublicDomainLink => EffectModel::OpenPublicDomainLink,
            _ => EffectModel::Nothing,
        }
    }

    /// The application after a message about diagnostics.
    pub open spec fn next_diagnostics(self, msg: Msg, o: Outside) -> AppModel {
        match msg {
            Msg::OpenDiagnostic { .. } => self,
            Msg::DiagnosticFileLoaded(Some((path, text, line, col, level))) => {
                self.diagnostic_shown(path@, text@, line, col, level)
            },
            Msg::DiagnosticFileLoaded(None) => self,
            Msg::SelectErrorFromDropdown(_) => self,
            _ => self,
        }
    }

    /// What the application asks for after a message about diagnostics.
    pub open spec fn effect_diagnostics(self, msg: Msg, o: Outside) -> EffectModel {
        match msg {
            Msg::OpenDiagnostic { path, line, col, level } => self.load_effect(
                path@,
                line,
                col,
                level,
            ),
            Msg::DiagnosticFileLoaded(Some((_, _, line, _, _))) => EffectModel::ScrollEditorTo(
                below(line as nat),
            ),
            Msg::SelectErrorFromDropdown(idx) => if idx < self.log.diagnostics.len() {
                let d = self.log.diagnostics[idx as int];
                self.load_effect(d.file, d.line, d.column, d.level)
            } else {
                EffectModel::Nothing
            },
            _ => EffectModel::Nothing,
        }
    }

    /// The application after a message.
    pub open spec fn next(self, msg: Msg, o: Outside) -> AppModel {
        match area(msg) {
            Area::Project => self.next_project(msg, o),
            Area::Run => self.next_run(msg, o),
            Area::Output => self.next_output(msg, o),
            Area::Tabs => self.next_tabs(msg, o),
            Area::Find => self.next_find(msg, o),
            Area::Menu => self.next_menu(msg, o),
            Area::Settings => self.next_settings(msg, o),
            Area::Window => self.next_window(msg, o),
            Area::Diagnostics => self.next_diagnostics(msg, o),
        }
    }

    /// What the application asks for after a message.
    pub open spec fn effect(self, msg: Msg, o: Outside) -> EffectModel {
        match area(msg) {
            Area::Project => self.effect_project(msg, o),
            Area::Run => self.effect_run(msg, o),
            Area::Output => self.effect_output(msg, o),
            Area::Tabs => self.effect_tabs(msg, o),
            Area::Find => self.effect_find(msg, o),
            Area::Menu => self.effect_menu(msg, o),
            Area::Settings => self.effect_settings(msg, o),
            Area::Window => self.effect_window(msg, o),
            Area::Diagnostics => self.effect_diagnostics(msg, o),
        }
    }
}

impl App {
    /// The application at its start, and what it asks for then. The mouse is
    /// at `mouse`.
    pub fn new(config: Config, mouse: Place) -> (r: (Self, Effect))
        ensures
            r.0@ == initial_app(config@, mouse, r.0@.separator),
            r.0.wf(),
            r.0.outside().editor_cursor == (0nat, 0nat),
            r.0.outside().editor_selection is None,
            r.1@ == if config@.is_fullscreen {
                EffectModel::EnterFullscreen
            } else {
                EffectModel::Nothing
            },
    {
        let effect: Effect = if config.is_fullscreen {
            Effect::EnterFullscreen
        } else {
            Effect::Nothing
        };
        let project_path: String = config.default_path.clone();
        let app: App = App {
            current_page: Page::Main,
            config,
            project_path,
            cargo_args: "build".to_owned(),
            new_project_name: String::new(),
            output: OutputPanel::new(),
            run: RunState::new(),
            log: DiagnosticLog::new(),
            status: READY.to_owned(),
            editor: Editor::new(),
            context_menu: None,
            mouse,
            tooltip_text: None,
            shown_level: DiagnosticLevel::Error,
            platform: Platform::current(),
        };
        assert(app@ =~= initial_app(config@, mouse, app@.separator));
        (app, effect)
    }
}

impl App {
    /// Whether [`App::update`] takes a message now.
    pub fn accepts(&self, msg: &Msg) -> (r: bool)
        requires
            self.wf(),
        ensures
            r == self@.accepts(*msg, self.outside()),
    {
        match msg {
            Msg::Run | Msg::RunCommand(_) => self.run.running || self.run.current_job_id
                < u64::MAX,
            Msg::RunCargoNew => self.run.running || self.new_name().is_none()
                || self.run.current_job_id < u64::MAX,
            Msg::TabNew => self.editor.untitled_counter < usize::MAX,
            Msg::TabClose(i) => if self.editor.tabs.len() <= 1 {
                self.editor.untitled_counter < usize::MAX
            } else {
                *i < self.editor.tabs.len()
            },
            Msg::Append { line, job_id } => *job_id != self.run.current_job_id
                || can_load(line.as_str()),
            Msg::EditorAction(action) => self.editor.can_perform(action),
            Msg::PasteText(Some(text)) => self.editor.can_paste(text),
            Msg::ContextCut => self.editor.selection().is_none() || self.editor.can_perform(
                &Action::Edit(Edit::Backspace),
            ),
            Msg::FilePicked(Some((path, text))) => self.editor.opens(path, text.as_str()),
            Msg::DiagnosticFileLoaded(Some((path, text, _, _, _))) => self.editor.opens(
                path,
                text.as_str(),
            ),
            Msg::ReplaceOne => self.editor.can_replace_one(),
            Msg::ReplaceAll => self.editor.can_replace_all(),
            _ => true,
        }
    }

    /// The name for a new project without white space round it, where there is
    /// one.
    pub fn new_name(&self) -> (r: Option<String>)
        ensures
            match r {
                Some(name) => self@.has_new_name() && name@ == trimmed(self@.new_project_name),
                None => !self@.has_new_name(),
            },
    {
        let v: Vec<char> = to_chars(self.new_project_name.as_str());
        let (a, b): (usize, usize) = trim(&v, 0, v.len());
        assert(v@.subrange(0, v@.len() as int) =~= v@);
        let name: String = chars_to_string(&v, a, b);
        if a == b {
            None
        } else {
            Some(name)
        }
    }

    /// Starts a run with the given command, unless one is under way.
    fn run_command(&mut self, args: String) -> (r: Effect)
        requires
            old(self).wf(),
            old(self)@.run.running || old(self)@.run.job < u64::MAX,
        ensures
            final(self)@ == old(self)@.run_with(args@),
            r@ == old(self)@.run_effect(args@),
            final(self).wf(),
    {
        if self.run.running {
            return Effect::Nothing;
        }
        let ghost start = self@;
        self.cargo_args = args;
        self.output.trimmed = false;
        self.run.start(self.cargo_args.clone());
        self.status = RUNNING.to_owned();
        self.log.clear();
        assert(self@ =~= start.run_with(args@));
        Effect::RunCargo {
            path: self.project_path.clone(),
            args: self.cargo_args.clone(),
            job_id: self.run.current_job_id,
        }
    }

    /// Takes a line of a run.
    fn append_line(&mut self, line: String, job_id: u64)
        requires
            old(self).wf(),
            job_id == old(self)@.run.job ==> loads(line@),
        ensures
            final(self)@ == old(self)@.line_appended(line@, job_id as nat),
            final(self).wf(),
    {
        if job_id != self.run.current_job_id {
            return;
        }
        let ghost start = self@;
        self.log.note(line.as_str(), self.project_path.as_str(), &self.platform);
        self.output.append(line);
        assert(self@ =~= start.line_appended(line@, job_id as nat));
    }

    /// Ends a run.
    fn end_run(&mut self, success: bool, job_id: u64, elapsed_ms: u64) -> (r: Effect)
        requires
            old(self).wf(),
        ensures
            final(self)@ == old(self)@.run_ended(success, job_id as nat, elapsed_ms as nat),
            r@ == if job_id == old(self)@.run.job {
                EffectModel::ScrollOutputToTop
            } else {
                EffectModel::Nothing
            },
            final(self).wf(),
    {
        if job_id != self.run.current_job_id {
            return Effect::Nothing;
        }
        let ghost start = self@;
        self.run.end(elapsed_ms);
        self.status = if success {
            SUCCEEDED.to_owned()
        } else {
            FAILED.to_owned()
        };
        self.output.flush();
        assert(self@ =~= start.run_ended(success, job_id as nat, elapsed_ms as nat));
        Effect::ScrollOutputToTop
    }

    /// Makes the output anew, if lines came, and notes the time.
    fn flush_output(&mut self, elapsed_ms: u64) -> (r: Effect)
        requires
            old(self).wf(),
        ensures
            final(self)@ == (AppModel {
                output: if old(self)@.output.dirty {
                    old(self)@.output.flushed()
                } else {
                    old(self)@.output
                },
                run: old(self)@.run.ticked(elapsed_ms as nat),
                ..old(self)@
            }),
            r@ == if old(self)@.output.dirty {
                EffectModel::ScrollOutputToTop
            } else {
                EffectModel::Nothing
            },
            final(self).wf(),
    {
        let was_dirty: bool = self.output.dirty;
        if was_dirty {
            self.output.flush();
        }
        self.run.tick(elapsed_ms);
        if was_dirty {
            Effect::ScrollOutputToTop
        } else {
            Effect::Nothing
        }
    }

    /// Copies what is selected where the context menu was opened.
    fn copy_selection(&mut self) -> (r: Effect)
        requires
            old(self).wf(),
        ensures
            final(self)@ == (AppModel { menu: None, ..old(self)@ }),
            r@ == EffectModel::copy(old(self)@.menu_selection(old(self).outside())),
            final(self).wf(),
    {
        let selected: Option<String> = match &self.context_menu {
            Some(menu) => match menu.kind {
                ContextMenuKind::Editor => self.editor.selection(),
                ContextMenuKind::Output => self.output.selection(),
            },
            None => None,
        };
        self.context_menu = None;
        match selected {
            Some(text) => Effect::CopyToClipboard(text),
            None => Effect::Nothing,
        }
    }

    /// Cuts what is selected in the editor.
    fn cut_selection(&mut self) -> (r: Effect)
        requires
            old(self).wf(),
            old(self)@.accepts(Msg::ContextCut, old(self).outside()),
        ensures
            final(self)@ == old(self)@.cut(old(self).outside()),
            r@ == EffectModel::copy(old(self).outside().editor_selection),
            final(self).wf(),
            selection_removed(*old(self), *final(self)),
    {
        let ghost start = *self;
        let selected: Option<String> = self.editor.selection();
        self.context_menu = None;
        match selected {
            Some(text) => {
                self.editor.perform(Action::Edit(Edit::Backspace));
                assert(self@ =~= start@.cut(start.outside()));
                Effect::CopyToClipboard(text)
            },
            None => {
                assert(self@ =~= start@.cut(start.outside()));
                Effect::Nothing
            },
        }
    }

    /// Selects everything where the context menu was opened.
    fn select_all(&mut self)
        requires
            old(self).wf(),
        ensures
            final(self)@ == old(self)@.all_selected(),
            final(self).wf(),
            menu_text_selected(*old(self), *final(self)),
    {
        let ghost start = self@;
        match &self.context_menu {
            Some(menu) => match menu.kind {
                ContextMenuKind::Editor => self.editor.select_all(),
                ContextMenuKind::Output => self.output.select_all(),
            },
            None => {},
        }
        self.context_menu = None;
        assert(self@ =~= start.all_selected());
    }

    /// Notes how saving ended.
    fn save_done(&mut self, result: Option<Result<FilePath, String>>)
        requires
            old(self).wf(),
        ensures
            final(self)@ == old(self)@.next(Msg::SaveDone(result), old(self).outside()),
            final(self).wf(),
    {
        let ghost start = self@;
        match result {
            None => {},
            Some(Ok(path)) => {
                self.status = join2(SAVED, path.as_str());
                self.editor.note_saved(path);
                assert(self@ =~= (AppModel {
                    editor: start.editor.saved_to(path@),
                    status: SAVED@ + path@.text,
                    ..start
                }));
            },
            Some(Err(reason)) => {
                self.status = join2(SAVE_FAILED, reason.as_str());
            },
        }
    }

    /// Shows the place of a diagnostic whose file was read.
    fn show_diagnostic(
        &mut self,
        path: FilePath,
        text: String,
        line: usize,
        col: usize,
        level: DiagnosticLevel,
    ) -> (r: Effect)
        requires
            old(self).wf(),
            old(self)@.editor.opens(path@, text@),
        ensures
            final(self)@ == old(self)@.diagnostic_shown(path@, text@, line, col, level),
            r@ == EffectModel::ScrollEditorTo(below(line as nat)),
            final(self).wf(),
    {
        let ghost start = self@;
        let (message, error_code): (String, Option<String>) = self.log.about(&path, line);
        let target: usize = self.editor.show_diagnostic(
            path,
            text.as_str(),
            line,
            col,
            level,
            message,
            error_code,
        );
        self.shown_level = level;
        self.current_page = Page::Editor;
        assert(self@ =~= start.diagnostic_shown(path@, text@, line, col, level));
        Effect::ScrollEditorTo(target)
    }

    /// What shows the diagnostic that was chosen from the list.
    fn choose_diagnostic(&self, idx: usize) -> (r: Effect)
        ensures
            r@ == self@.effect(Msg::SelectErrorFromDropdown(idx), self.outside()),
    {
        if idx < self.log.diagnostics.len() {
            let d: &Diagnostic = &self.log.diagnostics[idx];
            assert(self@.log.diagnostics[idx as int] == d@);
            Effect::LoadDiagnosticFile {
                path: d.file.resolve(self.project_path.as_str()),
                line: d.line,
                col: d.column,
                level: d.level,
            }
        } else {
            Effect::Nothing
        }
    }

    /// What saves the shown tab.
    fn save_effect(&self) -> (r: Effect)
        requires
            self.wf(),
        ensures
            r@ == self@.effect(Msg::SaveFile, self.outside()),
    {
        let i: usize = self.editor.active_tab;
        assert(self@.editor.tab() == self.editor.tabs@[i as int]@);
        let path: Option<FilePath> = match &self.editor.tabs[i].path {
            Some(p) => Some(p.duplicate()),
            None => None,
        };
        Effect::SaveText { path, text: self.editor.tabs[i].content.text() }
    }

    /// Does what a message about the page and the project asks for.
    fn update_project(&mut self, msg: Msg) -> (r: Effect)
        requires
            old(self).wf(),
            old(self)@.accepts(msg, old(self).outside()),
            area(msg) == Area::Project,
        ensures
            final(self)@ == old(self)@.next_project(msg, old(self).outside()),
            r@ == old(self)@.effect_project(msg, old(self).outside()),
            final(self).wf(),
    {
        match msg {
            Msg::NavigateTo(page) => {
                self.current_page = page;
                Effect::Nothing
            },
            Msg::PathChanged(p) => {
                self.project_path = p;
                Effect::Nothing
            },
            Msg::ArgsChanged(a) => {
                self.cargo_args = a;
                Effect::Nothing
            },
            Msg::BrowsePath => Effect::PickFolder,
            Msg::PathPicked(picked) => {
                if let Some(p) = picked {
                    self.project_path = p;
                }
                Effect::Nothing
            },
            Msg::SetAsDefault => {
                self.config.default_path = self.project_path.clone();
                self.status = PATH_SET.to_owned();
                Effect::SaveConfig
            },
            Msg::RestoreDefault => {
                if !is_empty(self.config.default_path.as_str()) {
                    self.project_path = self.config.default_path.clone();
                }
                Effect::Nothing
            },
            Msg::NewProjectNameChanged(n) => {
                self.new_project_name = n;
                Effect::Nothing
            },
            _ => Effect::Nothing,
        }
    }

    /// Does what a message about running cargo asks for.
    fn update_run(&mut self, msg: Msg) -> (r: Effect)
        requires
            old(self).wf(),
            old(self)@.accepts(msg, old(self).outside()),
            area(msg) == Area::Run,
        ensures
            final(self)@ == old(self)@.next_run(msg, old(self).outside()),
            r@ == old(self)@.effect_run(msg, old(self).outside()),
            final(self).wf(),
    {
        match msg {
            Msg::RunCargoNew => match self.new_name() {
                Some(name) => self.run_command(join2("new ", name.as_str())),
                None => Effect::Nothing,
            },
            Msg::RunCommand(command) => self.run_command(command),
            Msg::Run => self.run_command(self.cargo_args.clone()),
            Msg::Stop => {
                let stoppable: bool = self.run.stoppable;
                self.run.stoppable = false;
                self.status = STOPPING.to_owned();
                if stoppable {
                    Effect::StopCargo
                } else {
                    Effect::Nothing
                }
            },
            Msg::Append { line, job_id } => {
                self.append_line(line, job_id);
                Effect::Nothing
            },
            Msg::Done { success, job_id, elapsed_ms } => self.end_run(success, job_id, elapsed_ms),
            _ => Effect::Nothing,
        }
    }

    /// Does what a message about the output asks for.
    fn update_output(&mut self, msg: Msg) -> (r: Effect)
        requires
            old(self).wf(),
            old(self)@.accepts(msg, old(self).outside()),
            area(msg) == Area::Output,
        ensures
            final(self)@ == old(self)@.next_output(msg, old(self).outside()),
            r@ == old(self)@.effect_output(msg, old(self).outside()),
            final(self).wf(),
    {
        match msg {
            Msg::Clear => {
                self.output.clear();
                self.log.clear();
                self.status = READY.to_owned();
                Effect::Nothing
            },
            Msg::CopyOutput => {
                let text: String = self.output.content.text();
                if is_empty(text.as_str()) {
                    Effect::Nothing
                } else {
                    Effect::CopyToClipboard(text)
                }
            },
            Msg::FlushOutput { elapsed_ms } => self.flush_output(elapsed_ms),
            Msg::OutputAction(action) => {
                self.output.perform(action);
                Effect::Nothing
            },
            Msg::ToggleOutputFind => {
                self.output.toggle_find();
                self.context_menu = None;
                Effect::Nothing
            },
            Msg::OutputFindTextChanged(s) => {
                self.output.change_find_text(s);
                Effect::Nothing
            },
            Msg::OutputFindNext => {
                self.output.find_next();
                Effect::Nothing
            },
            Msg::OutputFindPrev => {
                self.output.find_prev();
                Effect::Nothing
            },
            _ => Effect::Nothing,
        }
    }

    /// Does what a message about the tabs of the editor asks for.
    fn update_tabs(&mut self, msg: Msg) -> (r: Effect)
        requires
            old(self).wf(),
            old(self)@.accepts(msg, old(self).outside()),
            area(msg) == Area::Tabs,
        ensures
            final(self)@ == old(self)@.next_tabs(msg, old(self).outside()),
            r@ == old(self)@.effect_tabs(msg, old(self).outside()),
            final(self).wf(),
    {
        match msg {
            Msg::EditorAction(action) => {
                self.editor.perform(action);
                Effect::Nothing
            },
            Msg::TabNew => Effect::scroll(self.editor.new_tab()),
            Msg::TabSelect(idx) => Effect::scroll(self.editor.select_tab(idx)),
            Msg::TabClose(idx) => Effect::scroll(self.editor.close_tab(idx)),
            Msg::OpenFile => Effect::PickFile,
            Msg::FilePicked(picked) => match picked {
                Some((path, text)) => Effect::scroll(self.editor.open_file(path, text.as_str())),
                None => Effect::Nothing,
            },
            Msg::SaveFile => self.save_effect(),
            Msg::SaveDone(result) => {
                self.save_done(result);
                Effect::Nothing
            },
            _ => Effect::Nothing,
        }
    }

    /// Does what a message about the find panel of the editor asks for.
    fn update_find(&mut self, msg: Msg) -> (r: Effect)
        requires
            old(self).wf(),
            old(self)@.accepts(msg, old(self).outside()),
            area(msg) == Area::Find,
        ensures
            final(self)@ == old(self)@.next_find(msg, old(self).outside()),
            r@ == old(self)@.effect_find(msg, old(self).outside()),
            final(self).wf(),
    {
        match msg {
            Msg::ToggleFindReplace => {
                self.editor.toggle_find();
                Effect::Nothing
            },
            Msg::OpenInlineFind => {
                if self.current_page == Page::Editor {
                    self.editor.open_find(false);
                }
                Effect::Nothing
            },
            Msg::OpenInlineReplace => {
                if self.current_page == Page::Editor {
                    self.editor.open_find(true);
                }
                Effect::Nothing
            },
            Msg::CloseInlineFind => {
                self.editor.close_find();
                Effect::Nothing
            },
            Msg::ToggleReplaceField => {
                self.editor.toggle_replace();
                Effect::Nothing
            },
            Msg::FindTextChanged(s) => Effect::scroll(self.editor.change_find_text(s)),
            Msg::ReplaceTextChanged(s) => {
                self.editor.change_replace_text(s);
                Effect::Nothing
            },
            Msg::FindNext => Effect::scroll(self.editor.find_next()),
            Msg::FindPrev => Effect::scroll(self.editor.find_prev()),
            Msg::ReplaceOne => Effect::scroll(self.editor.replace_one()),
            Msg::ReplaceAll => {
                self.editor.replace_all();
                Effect::Nothing
            },
            _ => Effect::Nothing,
        }
    }

    /// Does what a message about the context menu asks for.
    fn update_menu(&mut self, msg: Msg) -> (r: Effect)
        requires
            old(self).wf(),
            old(self)@.accepts(msg, old(self).outside()),
            area(msg) == Area::Menu,
        ensures
            final(self)@ == old(self)@.next_menu(msg, old(self).outside()),
            r@ == old(self)@.effect_menu(msg, old(self).outside()),
            final(self).wf(),
            msg is ContextCut ==> selection_removed(*old(self), *final(self)),
            msg is ContextSelectAll ==> menu_text_selected(*old(self), *final(self)),
    {
        match msg {
            Msg::ShowContextMenu(kind) => {
                self.context_menu = Some(ContextMenuState { place: self.mouse, kind });
                Effect::Nothing
            },
            Msg::HideContextMenu => {
                self.context_menu = None;
                Effect::Nothing
            },
            Msg::ContextCopy => self.copy_selection(),
            Msg::ContextCut => self.cut_selection(),
            Msg::ContextPaste => {
                self.context_menu = None;
                Effect::ReadClipboard
            },
            Msg::ContextSelectAll => {
                self.select_all();
                Effect::Nothing
            },
            Msg::PasteText(pasted) => {
                if let Some(text) = pasted {
                    self.editor.perform(Action::Edit(Edit::Paste(text)));
                }
                Effect::Nothing
            },
            _ => Effect::Nothing,
        }
    }

    /// Does what a message about the settings asks for.
    fn update_settings(&mut self, msg: Msg) -> (r: Effect)
        requires
            old(self).wf(),
            old(self)@.accepts(msg, old(self).outside()),
            area(msg) == Area::Settings,
        ensures
            final(self)@ == old(self)@.next_settings(msg, old(self).outside()),
            r@ == old(self)@.effect_settings(msg, old(self).outside()),
            final(self).wf(),
    {
        match msg {
            Msg::DefaultPathChanged(p) => {
                self.config.default_path = p;
                Effect::SaveConfig
            },
            Msg::ThemeChanged(theme) => {
                self.config.theme = theme;
                Effect::SaveConfig
            },
            Msg::ResetSettings => {
                self.config = Config::default();
                self.status = SETTINGS_RESET.to_owned();
                Effect::ResetAndSaveConfig
            },
            Msg::WindowModeChanged(is_fullscreen) => {
                self.config.is_fullscreen = is_fullscreen;
                Effect::SaveConfig
            },
            Msg::SetFindTestColor(color) => {
                self.config.highlight_color = color;
                Effect::SaveConfig
            },
            Msg::Quit => Effect::SaveConfigAndExit,
            _ => Effect::Nothing,
        }
    }

    /// Does what a message about the window and the help asks for.
    fn update_window(&mut self, msg: Msg) -> (r: Effect)
        requires
            old(self).wf(),
            old(self)@.accepts(msg, old(self).outside()),
            area(msg) == Area::Window,
        ensures
            final(self)@ == old(self)@.next_window(msg, old(self).outside()),
            r@ == old(self)@.effect_window(msg, old(self).outside()),
            final(self).wf(),
    {
        match msg {
            Msg::MouseMoved(place) => {
                self.mouse = place;
                Effect::Nothing
            },
            Msg::TooltipShow(tip) => {
                self.tooltip_text = Some(tip);
                Effect::Nothing
            },
            Msg::TooltipHide => {
                self.tooltip_text = None;
                Effect::Nothing
            },
            Msg::OpenHelpPdf => Effect::OpenHelpPdf,
            Msg::HelpPdfFailed(reason) => {
                self.status = join2(PDF_FAILED, reason.as_str());
                Effect::Nothing
            },
            Msg::OpenPublicDomainLink => Effect::OpenPublicDomainLink,
            Msg::LinkFailed(reason) => {
                self.status = join2(LINK_FAILED, reason.as_str());
                Effect::Nothing
            },
            _ => Effect::Nothing,
        }
    }

    /// Does what a message about diagnostics asks for.
    fn update_diagnostics(&mut self, msg: Msg) -> (r: Effect)
        requires
            old(self).wf(),
            old(self)@.accepts(msg, old(self).outside()),
            area(msg) == Area::Diagnostics,
        ensures
            final(self)@ == old(self)@.next_diagnostics(msg, old(self).outside()),
            r@ == old(self)@.effect_diagnostics(msg, old(self).outside()),
            final(self).wf(),
    {
        match msg {
            Msg::OpenDiagnostic { path, line, col, level } => Effect::LoadDiagnosticFile {
                path: path.resolve(self.project_path.as_str()),
                line,
                col,
                level,
            },
            Msg::DiagnosticFileLoaded(loaded) => match loaded {
                Some((path, text, line, col, level)) => self.show_diagnostic(
                    path,
                    text,
                    line,
                    col,
                    level,
                ),
                None => Effect::Nothing,
            },
            Msg::SelectErrorFromDropdown(idx) => self.choose_diagnostic(idx),
            _ => Effect::Nothing,
        }
    }

    /// Does what a message asks for.
    pub fn update(&mut self, msg: Msg) -> (r: Effect)
        requires
            old(self).wf(),
            old(self)@.accepts(msg, old(self).outside()),
        ensures
            final(self)@ == old(self)@.next(msg, old(self).outside()),
            r@ == old(self)@.effect(msg, old(self).outside()),
            final(self).wf(),
            msg is ContextCut ==> selection_removed(*old(self), *final(self)),
            msg is ContextSelectAll ==> menu_text_selected(*old(self), *final(self)),
    {
        match area_of(&msg) {
            Area::Project => self.update_project(msg),
            Area::Run => self.update_run(msg),
            Area::Output => self.update_output(msg),
            Area::Tabs => self.update_tabs(msg),
            Area::Find => self.update_find(msg),
            Area::Menu => self.update_menu(msg),
            Area::Settings => self.update_settings(msg),
            Area::Window => self.update_window(msg),
            Area::Diagnostics => self.update_diagnostics(msg),
        }
    }

    /// Does what a message asks for, if it can be taken now; `None` where it
    /// cannot, and nothing is then changed.
    pub fn try_update(&mut self, msg: Msg) -> (r: Option<Effect>)
        requires
            old(self).wf(),
        ensures
            match r {
                Some(effect) => {
                    &&& old(self)@.accepts(msg, old(self).outside())
                    &&& final(self)@ == old(self)@.next(msg, old(self).outside())
                    &&& effect@ == old(self)@.effect(msg, old(self).outside())
                    &&& msg is ContextCut ==> selection_removed(*old(self), *final(self))
                    &&& msg is ContextSelectAll ==> menu_text_selected(*old(self), *final(self))
                },
                None => !old(self)@.accepts(msg, old(self).outside()) && *final(self) == *old(self),
            },
            final(self).wf(),
    {
        if self.accepts(&msg) {
            Some(self.update(msg))
        } else {
            None
        }
    }
}

} // verus!
