//! What can happen to the application, and what it asks for in return.

use vstd::prelude::*;

use crate::config::{AppTheme, HighlightColor};
use crate::content::Action;
use crate::diagnostics::DiagnosticLevel;
use crate::paths::{FilePath, PathModel};

verus! {

/// The pages of the application.
#[derive(Debug, Clone, Copy, PartialEq, Eq, Structural)]
pub enum Page {
    Main,
    Settings,
    Editor,
    Help,
    About,
}

/// What a context menu was opened on.
#[derive(Debug, Clone, Copy, PartialEq, Eq, Structural)]
pub enum ContextMenuKind {
    Editor,
    Output,
}

/// A place in the window.
#[derive(Debug, Clone, Copy)]
pub struct Place {
    pub point: iced::Point,
}

/// An open context menu.
#[derive(Debug, Clone, Copy)]
pub struct ContextMenuState {
    /// Where the menu is shown.
    pub place: Place,
    pub kind: ContextMenuKind,
}

/// Something that happened.
#[derive(Debug, Clone)]
pub enum Msg {
    /// Another page was asked for.
    NavigateTo(Page),
    PathChanged(String),
    ArgsChanged(String),
    /// A folder is to be picked as the project directory.
    BrowsePath,
    /// A folder was picked, or none.
    PathPicked(Option<String>),
    /// The project directory is to be the one at the start.
    SetAsDefault,
    /// The directory at the start is to be the project directory.
    RestoreDefault,
    NewProjectNameChanged(String),
    /// A new project is to be made.
    RunCargoNew,
    /// A command is to be taken over and run.
    RunCommand(String),
    /// The command is to be run.
    Run,
    /// The run is to be stopped.
    Stop,
    /// A run wrote a line.
    Append { line: String, job_id: u64 },
    /// A run ended, so many milliseconds after its start.
    Done { success: bool, job_id: u64, elapsed_ms: u64 },
    /// The output is to be emptied.
    Clear,
    /// The output is to be copied.
    CopyOutput,
    /// Some time passed; the run under way started so many milliseconds ago.
    FlushOutput { elapsed_ms: u64 },
    /// The user did something in the output.
    OutputAction(Action),
    /// The user did something in the editor.
    EditorAction(Action),
    /// A tab without a file is to be opened.
    TabNew,
    TabSelect(usize),
    TabClose(usize),
    /// A file is to be picked and opened.
    OpenFile,
    /// A file was picked and read, or none.
    FilePicked(Option<(FilePath, String)>),
    /// The shown tab is to be saved.
    SaveFile,
    /// Saving ended: nothing was picked, or it was written, or it failed.
    SaveDone(Option<Result<FilePath, String>>),
    /// The find panel is to be opened or closed.
    ToggleFindReplace,
    OpenInlineFind,
    OpenInlineReplace,
    CloseInlineFind,
    ToggleReplaceField,
    FindTextChanged(String),
    ReplaceTextChanged(String),
    FindNext,
    FindPrev,
    /// The current match is to be replaced.
    ReplaceOne,
    /// All matches are to be replaced.
    ReplaceAll,
    /// The find panel of the output is to be opened or closed.
    ToggleOutputFind,
    OutputFindTextChanged(String),
    OutputFindNext,
    OutputFindPrev,
    /// A context menu is to be opened where the mouse is.
    ShowContextMenu(ContextMenuKind),
    HideContextMenu,
    ContextCopy,
    ContextCut,
    ContextPaste,
    ContextSelectAll,
    /// The clipboard was read.
    PasteText(Option<String>),
    DefaultPathChanged(String),
    ThemeChanged(AppTheme),
    /// All settings are to be as at a first start.
    ResetSettings,
    MouseMoved(Place),
    TooltipShow(String),
    TooltipHide,
    /// The window fills the screen now, or no longer does.
    WindowModeChanged(bool),
    Quit,
    OpenHelpPdf,
    /// The manual could not be opened, for the given reason.
    HelpPdfFailed(String),
    OpenPublicDomainLink,
    /// The link could not be opened, for the given reason.
    LinkFailed(String),
    /// Another colour for the current match was chosen.
    SetFindTestColor(HighlightColor),
    /// The place of a diagnostic is to be shown.
    OpenDiagnostic { path: FilePath, line: usize, col: usize, level: DiagnosticLevel },
    /// The file of a diagnostic was read, or could not be.
    DiagnosticFileLoaded(Option<(FilePath, String, usize, usize, DiagnosticLevel)>),
    /// A diagnostic was chosen from the list in the editor.
    SelectErrorFromDropdown(usize),
}

/// What is to be done outside.
#[derive(Debug, Clone)]
pub enum Effect {
    Nothing,
    /// Let the window fill the screen.
    EnterFullscreen,
    /// Let the user pick a folder; then `PathPicked`.
    PickFolder,
    /// Run cargo; then `Append` for each line and `Done`.
    RunCargo { path: String, args: String, job_id: u64 },
    /// Ask the run to stop.
    StopCargo,
    ScrollOutputToTop,
    /// Scroll the editor to a line, counted from 0.
    ScrollEditorTo(usize),
    CopyToClipboard(String),
    /// Read the clipboard; then `PasteText`.
    ReadClipboard,
    /// Let the user pick a file and read it; then `FilePicked`.
    PickFile,
    /// Write a text to a file, or to one that the user picks; then `SaveDone`.
    SaveText { path: Option<FilePath>, text: String },
    /// Store the settings.
    SaveConfig,
    /// Take the defaults for all other settings too, and store the settings.
    ResetAndSaveConfig,
    /// Store the settings and leave.
    SaveConfigAndExit,
    /// Open the manual; `HelpPdfFailed` where that fails.
    OpenHelpPdf,
    /// Open the page on the licence; `LinkFailed` where that fails.
    OpenPublicDomainLink,
    /// Read the file of a diagnostic; then `DiagnosticFileLoaded`.
    LoadDiagnosticFile { path: FilePath, line: usize, col: usize, level: DiagnosticLevel },
}

/// What an [`Effect`] holds.
#[verifier::ext_equal]
pub enum EffectModel {
    Nothing,
    EnterFullscreen,
    PickFolder,
    RunCargo { path: Seq<char>, args: Seq<char>, job: nat },
    StopCargo,
    ScrollOutputToTop,
    ScrollEditorTo(nat),
    CopyToClipboard(Seq<char>),
    ReadClipboard,
    PickFile,
    SaveText { path: Option<PathModel>, text: Seq<char> },
    SaveConfig,
    ResetAndSaveConfig,
    SaveConfigAndExit,
    OpenHelpPdf,
    OpenPublicDomainLink,
    LoadDiagnosticFile { path: PathModel, line: usize, col: usize, level: DiagnosticLevel },
}

impl View for Effect {
    type V = EffectModel;

    open spec fn view(&self) -> EffectModel {
        match self {
            Effect::Nothing => EffectModel::Nothing,
            Effect::EnterFullscreen => EffectModel::EnterFullscreen,
            Effect::PickFolder => EffectModel::PickFolder,
            Effect::RunCargo { path, args, job_id } => EffectModel::RunCargo {
                path: path@,
                args: args@,
                job: *job_id as nat,
            },
            Effect::StopCargo => EffectModel::StopCargo,
            Effect::ScrollOutputToTop => EffectModel::ScrollOutputToTop,
            Effect::ScrollEditorTo(line) => EffectModel::ScrollEditorTo(*line as nat),
            Effect::CopyToClipboard(text) => EffectModel::CopyToClipboard(text@),
            Effect::ReadClipboard => EffectModel::ReadClipboard,
            Effect::PickFile => EffectModel::PickFile,
            Effect::SaveText { path, text } => EffectModel::SaveText {
                path: match path {
                    Some(p) => Some(p@),
                    None => None,
                },
                text: text@,
            },
            Effect::SaveConfig => EffectModel::SaveConfig,
            Effect::ResetAndSaveConfig => EffectModel::ResetAndSaveConfig,
            Effect::SaveConfigAndExit => EffectModel::SaveConfigAndExit,
            Effect::OpenHelpPdf => EffectModel::OpenHelpPdf,
            Effect::OpenPublicDomainLink => EffectModel::OpenPublicDomainLink,
            Effect::LoadDiagnosticFile { path, line, col, level } => {
                EffectModel::LoadDiagnosticFile {
                    path: path@,
                    line: *line,
                    col: *col,
                    level: *level,
                }
            },
        }
    }
}

impl EffectModel {
    /// Scrolling the editor to a line, if there is one to scroll to.
    pub open spec fn scroll(line: Option<nat>) -> EffectModel {
        match line {
            Some(l) => EffectModel::ScrollEditorTo(l),
            None => EffectModel::Nothing,
        }
    }

    /// Copying a text, if there is one.
    pub open spec fn copy(text: Option<Seq<char>>) -> EffectModel {
        match text {
            Some(t) => EffectModel::CopyToClipboard(t),
            None => EffectModel::Nothing,
        }
    }

    /// Whether the settings are stored.
    pub open spec fn saves_config(self) -> bool {
        self is SaveConfig || self is ResetAndSaveConfig || self is SaveConfigAndExit
    }
}

impl Effect {
    /// Scrolling the editor to a line, if there is one to scroll to.
    pub fn scroll(line: Option<usize>) -> (r: Effect)
        ensures
            r@ == EffectModel::scroll(
                match line {
                    Some(l) => Some(l as nat),
                    None => None,
                },
            ),
    {
        match line {
            Some(l) => Effect::ScrollEditorTo(l),
            None => Effect::Nothing,
        }
    }
}

} // verus!
