//! What the pages show of the application's state.

use vstd::prelude::*;

use crate::app::{App, AppModel, Outside};
use crate::diagnostics::{
    diagnostic_label, Diagnostic, DiagnosticLevel, DiagnosticModel,
};
use crate::duration::{duration_text, format_duration};
use crate::editor::EditorTab;
use crate::message::{ContextMenuKind, Msg};
use crate::run::RunModel;
use crate::strings::{decimal, join2, push_decimal, same_text};

verus! {

// ---------------------------------------------------------------------------
// Commands
// ---------------------------------------------------------------------------

/// A button that runs a command.
#[derive(Debug, Clone, Copy)]
pub struct CommandButton {
    pub label: &'static str,
    pub command: &'static str,
    pub tip: &'static str,
}

/// Label, command and tooltip of a button.
pub open spec fn button_texts(b: CommandButton) -> (Seq<char>, Seq<char>, Seq<char>) {
    (b.label@, b.command@, b.tip@)
}

/// Label, command and tooltip of the buttons of the left column.
pub open spec fn left_commands() -> Seq<(Seq<char>, Seq<char>, Seq<char>)> {
    seq![
        (
            "Build"@,
            "build"@,
            "cargo build — Kompiliert das Projekt"@,
        ),
        (
            "Build --release"@,
            "build --release"@,
            "cargo build --release — Kompiliert optimiert (Release-Modus)"@,
        ),
        (
            "Run"@,
            "run"@,
            "cargo run — Kompiliert und startet das Projekt"@,
        ),
        (
            "Run --release"@,
            "run --release"@,
            "cargo run --release — Startet die optimierte Release-Version"@,
        ),
        (
            "Test"@,
            "test"@,
            "cargo test — Führt alle Tests aus"@,
        ),
        (
            "Check"@,
            "check"@,
            "cargo check — Prüft Syntax ohne vollständige Kompilierung"@,
        ),
        (
            "Fmt"@,
            "fmt"@,
            "cargo fmt — Formatiert den Quellcode automatisch"@,
        ),
        (
            "Clippy"@,
            "clippy"@,
            "cargo clippy — Führt den Linter aus (Code-Qualitätsprüfung)"@,
        ),
    ]
}

/// Label, command and tooltip of the buttons of the right column.
pub open spec fn right_commands() -> Seq<(Seq<char>, Seq<char>, Seq<char>)> {
    seq![
        (
            "Update"@,
            "update"@,
            "cargo update — Aktualisiert alle Abhängigkeiten in Cargo.lock"@,
        ),
        (
            "New"@,
            "new"@,
            "cargo new — Neues Rust-Projekt anlegen"@,
        ),
        (
            "Init"@,
            "init"@,
            "cargo init — Aktuelles Verzeichnis als Rust-Projekt initialisieren"@,
        ),
        (
            "Clean"@,
            "clean"@,
            "cargo clean — Build-Artefakte und Target-Verzeichnis löschen"@,
        ),
        (
            "Doc"@,
            "doc"@,
            "cargo doc — API-Dokumentation für das Projekt generieren"@,
        ),
        (
            "Bench"@,
            "bench"@,
            "cargo bench — Benchmarks ausführen"@,
        ),
    ]
}

fn command_button(
    label: &'static str,
    command: &'static str,
    tip: &'static str,
) -> (r: CommandButton)
    ensures
        button_texts(r) == (label@, command@, tip@),
{
    CommandButton { label, command, tip }
}

/// The buttons of the left column.
pub fn commands_left() -> (r: Vec<CommandButton>)
    ensures
        r@.map_values(|b: CommandButton| button_texts(b)) == left_commands(),
{
    let r: Vec<CommandButton> = vec![
        command_button(
            "Build",
            "build",
            "cargo build — Kompiliert das Projekt",
        ),
        command_button(
            "Build --release",
            "build --release",
            "cargo build --release — Kompiliert optimiert (Release-Modus)",
        ),
        command_button(
            "Run",
            "run",
            "cargo run — Kompiliert und startet das Projekt",
        ),
        command_button(
            "Run --release",
            "run --release",
            "cargo run --release — Startet die optimierte Release-Version",
        ),
        command_button(
            "Test",
            "test",
            "cargo test — Führt alle Tests aus",
        ),
        command_button(
            "Check",
            "check",
            "cargo check — Prüft Syntax ohne vollständige Kompilierung",
        ),
        command_button(
            "Fmt",
            "fmt",
            "cargo fmt — Formatiert den Quellcode automatisch",
        ),
        command_button(
            "Clippy",
            "clippy",
            "cargo clippy — Führt den Linter aus (Code-Qualitätsprüfung)",
        ),
    ];
    assert(r@.map_values(|b: CommandButton| button_texts(b)) =~= left_commands());
    r
}

/// The buttons of the right column.
pub fn commands_right() -> (r: Vec<CommandButton>)
    ensures
        r@.map_values(|b: CommandButton| button_texts(b)) == right_commands(),
{
    let r: Vec<CommandButton> = vec![
        command_button(
            "Update",
            "update",
            "cargo update — Aktualisiert alle Abhängigkeiten in Cargo.lock",
        ),
        command_button(
            "New",
            "new",
            "cargo new — Neues Rust-Projekt anlegen",
        ),
        command_button(
            "Init",
            "init",
            "cargo init — Aktuelles Verzeichnis als Rust-Projekt initialisieren",
        ),
        command_button(
            "Clean",
            "clean",
            "cargo clean — Build-Artefakte und Target-Verzeichnis löschen",
        ),
        command_button(
            "Doc",
            "doc",
            "cargo doc — API-Dokumentation für das Projekt generieren",
        ),
        command_button(
            "Bench",
            "bench",
            "cargo bench — Benchmarks ausführen",
        ),
    ];
    assert(r@.map_values(|b: CommandButton| button_texts(b)) =~= right_commands());
    r
}

/// What stands below the button of a command: how long it took when it last
/// ran, and while it runs how long it has taken so far.
pub open spec fn command_timing(run: RunModel, command: Seq<char>) -> Seq<char> {
    let expected = "est:"@ + if run.durations.dom().contains(command) {
        duration_text(run.durations[command])
    } else {
        "?"@
    };
    if run.running && run.command == command {
        expected + " jetzt:"@ + duration_text(run.elapsed)
    } else {
        expected
    }
}

/// What stands beside the output: how long the last run took.
pub open spec fn elapsed_text(run: RunModel) -> Seq<char> {
    if run.elapsed > 0 {
        "Ausführungszeit: "@ + duration_text(run.elapsed)
    } else {
        "Ausführungszeit: —"@
    }
}

impl App {
    /// What stands below the button of a command.
    pub fn command_timing(&self, command: &str) -> (r: String)
        requires
            self.wf(),
        ensures
            r@ == command_timing(self@.run, command@),
    {
        let mut s: String = "est:".to_owned();
        match self.run.last_duration(command) {
            Some(ms) => {
                let text: String = format_duration(ms);
                s.append(text.as_str());
            },
            None => {
                s.append("?");
            },
        }
        if self.run.running && same_text(self.run.running_cmd.as_str(), command) {
            s.append(" jetzt:");
            let text: String = format_duration(self.run.display_elapsed_ms);
            s.append(text.as_str());
        }
        s
    }

    /// What pressing the button of a command asks for: nothing while a run is
    /// under way.
    pub fn command_message(&self, command: &str) -> (r: Option<Msg>)
        ensures
            self@.run.running ==> r is None,
            !self@.run.running ==> (r matches Some(Msg::RunCommand(c)) && c@ == command@),
    {
        if self.run.running {
            None
        } else {
            Some(Msg::RunCommand(command.to_owned()))
        }
    }

    /// What pressing the run button asks for: nothing while a run is under way.
    pub fn run_message(&self) -> (r: Option<Msg>)
        ensures
            r == if self@.run.running {
                None
            } else {
                Some(Msg::Run)
            },
    {
        if self.run.running {
            None
        } else {
            Some(Msg::Run)
        }
    }

    /// What pressing the stop button asks for: nothing unless a run is under
    /// way.
    pub fn stop_message(&self) -> (r: Option<Msg>)
        ensures
            r == if self@.run.running {
                Some(Msg::Stop)
            } else {
                None
            },
    {
        if self.run.running {
            Some(Msg::Stop)
        } else {
            None
        }
    }

    /// What pressing the button for a new project asks for: nothing while a run
    /// is under way or the project has no name.
    pub fn new_project_message(&self) -> (r: Option<Msg>)
        ensures
            r == if !self@.run.running && self@.has_new_name() {
                Some(Msg::RunCargoNew)
            } else {
                None
            },
    {
        if !self.run.running && self.new_name().is_some() {
            Some(Msg::RunCargoNew)
        } else {
            None
        }
    }

    /// What stands beside the output.
    pub fn elapsed_text(&self) -> (r: String)
        ensures
            r@ == elapsed_text(self@.run),
    {
        if self.run.display_elapsed_ms > 0 {
            let text: String = format_duration(self.run.display_elapsed_ms);
            join2("Ausführungszeit: ", text.as_str())
        } else {
            "Ausführungszeit: —".to_owned()
        }
    }

    /// The status in the bar below the page.
    pub fn status_text(&self) -> (r: String)
        ensures
            r@ == "Status: "@ + self@.status,
    {
        join2("Status: ", self.status.as_str())
    }
}

/// An enabled button does something: what the buttons for running and stopping
/// ask for is never ignored.
pub proof fn law_enabled_buttons_act(m: AppModel, o: Outside, command: String)
    ensures
        !m.run.running ==> m.effect(Msg::Run, o) is RunCargo,
        !m.run.running ==> m.effect(Msg::RunCommand(command), o) is RunCargo,
        !m.run.running && m.has_new_name() ==> m.effect(Msg::RunCargoNew, o) is RunCargo,
        m.run.running ==> m.next(Msg::Run, o) == m && m.next(Msg::RunCommand(command), o) == m
            && m.next(Msg::RunCargoNew, o) == m,
{
}

// ---------------------------------------------------------------------------
// Diagnostics
// ---------------------------------------------------------------------------

/// A button that shows the place of a diagnostic.
pub struct DiagnosticButton {
    pub label: String,
    pub level: DiagnosticLevel,
    /// What pressing it asks for.
    pub message: Msg,
}

/// Whether a button is the one for a diagnostic.
pub open spec fn is_button_for(b: DiagnosticButton, d: DiagnosticModel) -> bool {
    &&& b.label@ == diagnostic_label(d)
    &&& b.level == d.level
    &&& b.message matches Msg::OpenDiagnostic { path, line, col, level } && path@ == d.file && line
        == d.line && col == d.column && level == d.level
}

impl App {
    /// The title of the list of diagnostics, where there are any.
    pub fn diagnostics_title(&self) -> (r: Option<String>)
        ensures
            match r {
                Some(title) => self@.log.diagnostics.len() > 0 && title@ == "Diagnosen ("@
                    + decimal(self@.log.diagnostics.len())
                    + "): — klicken zum Öffnen im Editor"@,
                None => self@.log.diagnostics.len() == 0,
            },
    {
        if self.log.diagnostics.len() == 0 {
            return None;
        }
        let mut s: String = "Diagnosen (".to_owned();
        push_decimal(&mut s, self.log.diagnostics.len() as u128);
        s.append("): — klicken zum Öffnen im Editor");
        Some(s)
    }

    /// The buttons of the diagnostics, in the order in which they came.
    pub fn diagnostic_buttons(&self) -> (r: Vec<DiagnosticButton>)
        ensures
            r@.len() == self@.log.diagnostics.len(),
            forall|i: int|
                0 <= i < r@.len() ==> is_button_for(
                    #[trigger] r@[i],
                    self@.log.diagnostics[i],
                ),
    {
        let mut r: Vec<DiagnosticButton> = Vec::new();
        for i in 0..self.log.diagnostics.len()
            invariant
                r@.len() == i,
                forall|j: int|
                    0 <= j < i ==> is_button_for(#[trigger] r@[j], self@.log.diagnostics[j]),
        {
            let d: &Diagnostic = &self.log.diagnostics[i];
            assert(self@.log.diagnostics[i as int] == d@);
            r.push(
                DiagnosticButton {
                    label: d.label(),
                    level: d.level,
                    message: Msg::OpenDiagnostic {
                        path: d.file.duplicate(),
                        line: d.line,
                        col: d.column,
                        level: d.level,
                    },
                },
            );
        }
        r
    }
}

// ---------------------------------------------------------------------------
// The editor page
// ---------------------------------------------------------------------------

/// A tab in the tab bar.
pub struct TabButton {
    pub title: String,
    pub active: bool,
    pub tip: &'static str,
}

/// What the tooltip of a tab says.
pub open spec fn tab_tip(active: bool) -> Seq<char> {
    if active {
        "Aktiver Tab"@
    } else {
        "Zu diesem Tab wechseln"@
    }
}

impl App {
    /// The tab bar.
    pub fn tab_buttons(&self) -> (r: Vec<TabButton>)
        ensures
            r@.len() == self@.editor.tabs.len(),
            forall|i: int|
                0 <= i < r@.len() ==> (#[trigger] r@[i]).title@
                    == self@.editor.tabs[i].display_title() && r@[i].active == (i
                    == self@.editor.active) && r@[i].tip@ == tab_tip(r@[i].active),
    {
        let mut r: Vec<TabButton> = Vec::new();
        for i in 0..self.editor.tabs.len()
            invariant
                r@.len() == i,
                forall|j: int|
                    0 <= j < i ==> (#[trigger] r@[j]).title@
                        == self@.editor.tabs[j].display_title() && r@[j].active == (j
                        == self@.editor.active) && r@[j].tip@ == tab_tip(r@[j].active),
        {
            let tab: &EditorTab = &self.editor.tabs[i];
            assert(self@.editor.tabs[i as int] == tab@);
            let active: bool = i == self.editor.active_tab;
            let tip: &'static str = if active {
                "Aktiver Tab"
            } else {
                "Zu diesem Tab wechseln"
            };
            r.push(TabButton { title: tab.display_title(), active, tip });
        }
        r
    }

    /// The label of the button that opens or closes the find panel.
    pub fn find_button_label(&self) -> (r: &'static str)
        ensures
            r@ == if self@.editor.open {
                " Suchen ✕"@
            } else {
                " Suchen"@
            },
    {
        if self.editor.find_replace_open {
            " Suchen ✕"
        } else {
            " Suchen"
        }
    }
}

// ---------------------------------------------------------------------------
// The context menu
// ---------------------------------------------------------------------------

/// An entry of a context menu.
#[derive(Debug, Clone, Copy, PartialEq, Eq, Structural)]
pub enum MenuEntry {
    Copy,
    SelectAll,
    Cut,
    Paste,
    FindReplace,
    FindInOutput,
}

/// The entries of a context menu, from the top down. Only the editor's text
/// can be changed.
pub open spec fn menu_of(kind: ContextMenuKind) -> Seq<MenuEntry> {
    match kind {
        ContextMenuKind::Editor => seq![
            MenuEntry::Copy,
            MenuEntry::SelectAll,
            MenuEntry::Cut,
            MenuEntry::Paste,
            MenuEntry::FindReplace,
        ],
        ContextMenuKind::Output => seq![
            MenuEntry::Copy,
            MenuEntry::SelectAll,
            MenuEntry::FindInOutput,
        ],
    }
}

/// The label of an entry.
pub open spec fn entry_label(entry: MenuEntry) -> Seq<char> {
    match entry {
        MenuEntry::Copy => " Kopieren (Copy)"@,
        MenuEntry::SelectAll => " Alles auswählen (Select All)"@,
        MenuEntry::Cut => " Ausschneiden (Cut)"@,
        MenuEntry::Paste => " Einfügen (Paste)"@,
        MenuEntry::FindReplace => " Suchen/Ersetzen…"@,
        MenuEntry::FindInOutput => " Suchen…"@,
    }
}

/// What choosing an entry asks for.
pub open spec fn entry_message(entry: MenuEntry) -> Msg {
    match entry {
        MenuEntry::Copy => Msg::ContextCopy,
        MenuEntry::SelectAll => Msg::ContextSelectAll,
        MenuEntry::Cut => Msg::ContextCut,
        MenuEntry::Paste => Msg::ContextPaste,
        MenuEntry::FindReplace => Msg::ToggleFindReplace,
        MenuEntry::FindInOutput => Msg::ToggleOutputFind,
    }
}

/// The entries of a context menu, from the top down.
pub fn menu_entries(kind: ContextMenuKind) -> (r: Vec<MenuEntry>)
    ensures
        r@ == menu_of(kind),
{
    match kind {
        ContextMenuKind::Editor => vec![
            MenuEntry::Copy,
            MenuEntry::SelectAll,
            MenuEntry::Cut,
            MenuEntry::Paste,
            MenuEntry::FindReplace,
        ],
        ContextMenuKind::Output => vec![
            MenuEntry::Copy,
            MenuEntry::SelectAll,
            MenuEntry::FindInOutput,
        ],
    }
}

impl MenuEntry {
    /// The label.
    pub fn label(self) -> (r: &'static str)
        ensures
            r@ == entry_label(self),
    {
        match self {
            MenuEntry::Copy => " Kopieren (Copy)",
            MenuEntry::SelectAll => " Alles auswählen (Select All)",
            MenuEntry::Cut => " Ausschneiden (Cut)",
            MenuEntry::Paste => " Einfügen (Paste)",
            MenuEntry::FindReplace => " Suchen/Ersetzen…",
            MenuEntry::FindInOutput => " Suchen…",
        }
    }

    /// What choosing it asks for.
    pub fn message(self) -> (r: Msg)
        ensures
            r == entry_message(self),
    {
        match self {
            MenuEntry::Copy => Msg::ContextCopy,
            MenuEntry::SelectAll => Msg::ContextSelectAll,
            MenuEntry::Cut => Msg::ContextCut,
            MenuEntry::Paste => Msg::ContextPaste,
            MenuEntry::FindReplace => Msg::ToggleFindReplace,
            MenuEntry::FindInOutput => Msg::ToggleOutputFind,
        }
    }
}

// ---------------------------------------------------------------------------
// The settings page
// ---------------------------------------------------------------------------

/// Where the settings are stored, as the user reads it.
pub fn config_hint(path: Option<&str>) -> (r: String)
    ensures
        r@ == match path {
            Some(p) => "Konfigurationsdatei: "@ + p@,
            None => "Konfigurationsdatei: (kein Pfad verfügbar)"@,
        },
{
    match path {
        Some(p) => join2("Konfigurationsdatei: ", p),
        None => "Konfigurationsdatei: (kein Pfad verfügbar)".to_owned(),
    }
}

} // verus!
