//! What holds of what the pages show and of what the keys ask for.

use vstd::prelude::*;

use crate::app::{AppModel, Outside};
use crate::config::{all_themes, color_label, theme_label, AppTheme, HighlightColor};
use crate::duration::duration_text;
use crate::editor::TabModel;
use crate::keys::{key_message, Key};
use crate::layout::{layers_of, line_top, slots_of, EditorSlot, LayerModel};
use crate::message::{ContextMenuKind, Msg};
use crate::run::RunModel;
use crate::view::{
    command_timing, elapsed_text, entry_label, entry_message, left_commands, menu_of,
    right_commands, tab_tip, MenuEntry,
};

verus! {

// ---------------------------------------------------------------------------
// Keys
// ---------------------------------------------------------------------------

/// Which keys ask for something, and for what: Control with F or H opens the
/// find panel without or with replacing, Escape closes it, Shift with Enter
/// steps back. The arrows and page keys alone step down and up unless a widget
/// has used them. No other key asks for anything.
pub proof fn law_keys(key: Key, control: bool, shift: bool, captured: bool)
    ensures
        ({
            let asked = key_message(key, control, shift, captured);
            let alone = !control && !shift && !captured;
            let is_f = key matches Key::Character(c) && c@ == "f"@;
            let is_h = key matches Key::Character(c) && c@ == "h"@;
            &&& asked == Some(Msg::OpenInlineFind) <==> is_f && control && !shift
            &&& asked == Some(Msg::OpenInlineReplace) <==> is_h && control && !shift
            &&& asked == Some(Msg::CloseInlineFind) <==> key is Escape
            &&& asked == Some(Msg::FindNext) <==> (key is ArrowDown || key is PageDown) && alone
            &&& asked == Some(Msg::FindPrev) <==> ((key is ArrowUp || key is PageUp) && alone) || (
            key is Enter && shift && !control)
            &&& asked is None || asked == Some(Msg::OpenInlineFind) || asked == Some(
                Msg::OpenInlineReplace,
            ) || asked == Some(Msg::CloseInlineFind) || asked == Some(Msg::FindNext) || asked
                == Some(Msg::FindPrev)
        }),
{
    reveal_strlit("f");
    reveal_strlit("h");
    assert("f"@[0] != "h"@[0]);
}

// ---------------------------------------------------------------------------
// Times
// ---------------------------------------------------------------------------

/// Below the button of a command stands how long it last took, or a question
/// mark; while that command runs, and no other, how long it has taken so far
/// stands behind it.
pub proof fn law_times_of_commands(run: RunModel, command: Seq<char>)
    ensures
        ({
            let shown = command_timing(run, command);
            let known = run.durations.dom().contains(command);
            let now = run.running && run.command == command;
            &&& known && !now ==> shown == "est:"@ + duration_text(run.durations[command])
            &&& !known && !now ==> shown == "est:"@ + "?"@
            &&& known && now ==> shown == "est:"@ + duration_text(run.durations[command])
                + " jetzt:"@ + duration_text(run.elapsed)
            &&& !known && now ==> shown == "est:"@ + "?"@ + " jetzt:"@ + duration_text(run.elapsed)
        }),
{
}

/// As the time of a run is noted, it is what is shown beside the output; before
/// any time has passed a dash stands there.
pub proof fn law_time_beside_the_output(m: AppModel, o: Outside, elapsed_ms: u64)
    ensures
        m.run.running && elapsed_ms > 0 ==> elapsed_text(
            m.next(Msg::FlushOutput { elapsed_ms }, o).run,
        ) == "Ausführungszeit: "@ + duration_text(elapsed_ms as nat),
        m.run.elapsed == 0 ==> elapsed_text(m.run) == "Ausführungszeit: —"@,
        m.run.elapsed > 0 ==> elapsed_text(m.run) == "Ausführungszeit: "@ + duration_text(
            m.run.elapsed,
        ),
{
}

// ---------------------------------------------------------------------------
// Buttons, tabs and menus
// ---------------------------------------------------------------------------

/// Whether a button is explained as running cargo with its own command, and
/// its label is the command with a capital letter in front.
pub open spec fn says_what_it_runs(label: Seq<char>, command: Seq<char>, tip: Seq<char>) -> bool {
    &&& ("cargo "@ + command + " — "@).is_prefix_of(tip)
    &&& label.len() == command.len() > 0
    &&& label.skip(1) == command.skip(1)
    &&& label[0] as u32 + 32 == command[0] as u32
}

proof fn lemma_button_build()
    ensures
        says_what_it_runs("Build"@, "build"@, "cargo build — Kompiliert das Projekt"@),
{
    reveal_strlit("Build");
    reveal_strlit("build");
    reveal_strlit("cargo build — Kompiliert das Projekt");
    reveal_strlit("cargo ");
    reveal_strlit(" — ");
    let start = "cargo "@ + "build"@ + " — "@;
    assert(start =~= "cargo build — Kompiliert das Projekt"@.take(start.len() as int));
    assert("Build"@.skip(1) =~= "build"@.skip(1));
}

proof fn lemma_button_build_release()
    ensures
        says_what_it_runs("Build --release"@, "build --release"@, "cargo build --release — Kompiliert optimiert (Release-Modus)"@),
{
    reveal_strlit("Build --release");
    reveal_strlit("build --release");
    reveal_strlit("cargo build --release — Kompiliert optimiert (Release-Modus)");
    reveal_strlit("cargo ");
    reveal_strlit(" — ");
    let start = "cargo "@ + "build --release"@ + " — "@;
    assert(start =~= "cargo build --release — Kompiliert optimiert (Release-Modus)"@.take(start.len() as int));
    assert("Build --release"@.skip(1) =~= "build --release"@.skip(1));
}

proof fn lemma_button_run()
    ensures
        says_what_it_runs("Run"@, "run"@, "cargo run — Kompiliert und startet das Projekt"@),
{
    reveal_strlit("Run");
    reveal_strlit("run");
    reveal_strlit("cargo run — Kompiliert und startet das Projekt");
    reveal_strlit("cargo ");
    reveal_strlit(" — ");
    let start = "cargo "@ + "run"@ + " — "@;
    assert(start =~= "cargo run — Kompiliert und startet das Projekt"@.take(start.len() as int));
    assert("Run"@.skip(1) =~= "run"@.skip(1));
}

proof fn lemma_button_run_release()
    ensures
        says_what_it_runs("Run --release"@, "run --release"@, "cargo run --release — Startet die optimierte Release-Version"@),
{
    reveal_strlit("Run --release");
    reveal_strlit("run --release");
    reveal_strlit("cargo run --release — Startet die optimierte Release-Version");
    reveal_strlit("cargo ");
    reveal_strlit(" — ");
    let start = "cargo "@ + "run --release"@ + " — "@;
    assert(start =~= "cargo run --release — Startet die optimierte Release-Version"@.take(start.len() as int));
    assert("Run --release"@.skip(1) =~= "run --release"@.skip(1));
}

proof fn lemma_button_test()
    ensures
        says_what_it_runs("Test"@, "test"@, "cargo test — Führt alle Tests aus"@),
{
    reveal_strlit("Test");
    reveal_strlit("test");
    reveal_strlit("cargo test — Führt alle Tests aus");
    reveal_strlit("cargo ");
    reveal_strlit(" — ");
    let start = "cargo "@ + "test"@ + " — "@;
    assert(start =~= "cargo test — Führt alle Tests aus"@.take(start.len() as int));
    assert("Test"@.skip(1) =~= "test"@.skip(1));
}

proof fn lemma_button_check()
    ensures
        says_what_it_runs("Check"@, "check"@, "cargo check — Prüft Syntax ohne vollständige Kompilierung"@),
{
    reveal_strlit("Check");
    reveal_strlit("check");
    reveal_strlit("cargo check — Prüft Syntax ohne vollständige Kompilierung");
    reveal_strlit("cargo ");
    reveal_strlit(" — ");
    let start = "cargo "@ + "check"@ + " — "@;
    assert(start =~= "cargo check — Prüft Syntax ohne vollständige Kompilierung"@.take(start.len() as int));
    assert("Check"@.skip(1) =~= "check"@.skip(1));
}

proof fn lemma_button_fmt()
    ensures
        says_what_it_runs("Fmt"@, "fmt"@, "cargo fmt — Formatiert den Quellcode automatisch"@),
{
    reveal_strlit("Fmt");
    reveal_strlit("fmt");
    reveal_strlit("cargo fmt — Formatiert den Quellcode automatisch");
    reveal_strlit("cargo ");
    reveal_strlit(" — ");
    let start = "cargo "@ + "fmt"@ + " — "@;
    assert(start =~= "cargo fmt — Formatiert den Quellcode automatisch"@.take(start.len() as int));
    assert("Fmt"@.skip(1) =~= "fmt"@.skip(1));
}

proof fn lemma_button_clippy()
    ensures
        says_what_it_runs("Clippy"@, "clippy"@, "cargo clippy — Führt den Linter aus (Code-Qualitätsprüfung)"@),
{
    reveal_strlit("Clippy");
    reveal_strlit("clippy");
    reveal_strlit("cargo clippy — Führt den Linter aus (Code-Qualitätsprüfung)");
    reveal_strlit("cargo ");
    reveal_strlit(" — ");
    let start = "cargo "@ + "clippy"@ + " — "@;
    assert(start =~= "cargo clippy — Führt den Linter aus (Code-Qualitätsprüfung)"@.take(start.len() as int));
    assert("Clippy"@.skip(1) =~= "clippy"@.skip(1));
}

proof fn lemma_button_update()
    ensures
        says_what_it_runs("Update"@, "update"@, "cargo update — Aktualisiert alle Abhängigkeiten in Cargo.lock"@),
{
    reveal_strlit("Update");
    reveal_strlit("update");
    reveal_strlit("cargo update — Aktualisiert alle Abhängigkeiten in Cargo.lock");
    reveal_strlit("cargo ");
    reveal_strlit(" — ");
    let start = "cargo "@ + "update"@ + " — "@;
    assert(start =~= "cargo update — Aktualisiert alle Abhängigkeiten in Cargo.lock"@.take(start.len() as int));
    assert("Update"@.skip(1) =~= "update"@.skip(1));
}

proof fn lemma_button_new()
    ensures
        says_what_it_runs("New"@, "new"@, "cargo new — Neues Rust-Projekt anlegen"@),
{
    reveal_strlit("New");
    reveal_strlit("new");
    reveal_strlit("cargo new — Neues Rust-Projekt anlegen");
    reveal_strlit("cargo ");
    reveal_strlit(" — ");
    let start = "cargo "@ + "new"@ + " — "@;
    assert(start =~= "cargo new — Neues Rust-Projekt anlegen"@.take(start.len() as int));
    assert("New"@.skip(1) =~= "new"@.skip(1));
}

proof fn lemma_button_init()
    ensures
        says_what_it_runs("Init"@, "init"@, "cargo init — Aktuelles Verzeichnis als Rust-Projekt initialisieren"@),
{
    reveal_strlit("Init");
    reveal_strlit("init");
    reveal_strlit("cargo init — Aktuelles Verzeichnis als Rust-Projekt initialisieren");
    reveal_strlit("cargo ");
    reveal_strlit(" — ");
    let start = "cargo "@ + "init"@ + " — "@;
    assert(start =~= "cargo init — Aktuelles Verzeichnis als Rust-Projekt initialisieren"@.take(start.len() as int));
    assert("Init"@.skip(1) =~= "init"@.skip(1));
}

proof fn lemma_button_clean()
    ensures
        says_what_it_runs("Clean"@, "clean"@, "cargo clean — Build-Artefakte und Target-Verzeichnis löschen"@),
{
    reveal_strlit("Clean");
    reveal_strlit("clean");
    reveal_strlit("cargo clean — Build-Artefakte und Target-Verzeichnis löschen");
    reveal_strlit("cargo ");
    reveal_strlit(" — ");
    let start = "cargo "@ + "clean"@ + " — "@;
    assert(start =~= "cargo clean — Build-Artefakte und Target-Verzeichnis löschen"@.take(start.len() as int));
    assert("Clean"@.skip(1) =~= "clean"@.skip(1));
}

proof fn lemma_button_doc()
    ensures
        says_what_it_runs("Doc"@, "doc"@, "cargo doc — API-Dokumentation für das Projekt generieren"@),
{
    reveal_strlit("Doc");
    reveal_strlit("doc");
    reveal_strlit("cargo doc — API-Dokumentation für das Projekt generieren");
    reveal_strlit("cargo ");
    reveal_strlit(" — ");
    let start = "cargo "@ + "doc"@ + " — "@;
    assert(start =~= "cargo doc — API-Dokumentation für das Projekt generieren"@.take(start.len() as int));
    assert("Doc"@.skip(1) =~= "doc"@.skip(1));
}

proof fn lemma_button_bench()
    ensures
        says_what_it_runs("Bench"@, "bench"@, "cargo bench — Benchmarks ausführen"@),
{
    reveal_strlit("Bench");
    reveal_strlit("bench");
    reveal_strlit("cargo bench — Benchmarks ausführen");
    reveal_strlit("cargo ");
    reveal_strlit(" — ");
    let start = "cargo "@ + "bench"@ + " — "@;
    assert(start =~= "cargo bench — Benchmarks ausführen"@.take(start.len() as int));
    assert("Bench"@.skip(1) =~= "bench"@.skip(1));
}

/// Every button of the two columns is explained as running cargo with its own
/// command, and its label is that command.
pub proof fn law_buttons_run_what_they_say(i: int)
    requires
        0 <= i < left_commands().len() + right_commands().len(),
    ensures
        left_commands().len() == 8,
        right_commands().len() == 6,
        ({
            let (label, command, tip) = (left_commands() + right_commands())[i];
            &&& says_what_it_runs(label, command, tip)
            &&& i == 0 ==> command == "build"@
            &&& i == 1 ==> command == "build --release"@
            &&& i == 2 ==> command == "run"@
            &&& i == 3 ==> command == "run --release"@
            &&& i == 4 ==> command == "test"@
            &&& i == 5 ==> command == "check"@
            &&& i == 6 ==> command == "fmt"@
            &&& i == 7 ==> command == "clippy"@
            &&& i == 8 ==> command == "update"@
            &&& i == 9 ==> command == "new"@
            &&& i == 10 ==> command == "init"@
            &&& i == 11 ==> command == "clean"@
            &&& i == 12 ==> command == "doc"@
            &&& i == 13 ==> command == "bench"@
        }),
{
    let all = left_commands() + right_commands();
    lemma_button_build();
    lemma_button_build_release();
    lemma_button_run();
    lemma_button_run_release();
    lemma_button_test();
    lemma_button_check();
    lemma_button_fmt();
    lemma_button_clippy();
    lemma_button_update();
    lemma_button_new();
    lemma_button_init();
    lemma_button_clean();
    lemma_button_doc();
    lemma_button_bench();
}

/// The text of a tab in the tab bar is its title, with a star behind it where
/// there is something to save.
pub proof fn law_a_star_marks_unsaved_tabs(tab: TabModel)
    ensures
        tab.dirty ==> tab.display_title() == tab.title + "*"@,
        !tab.dirty ==> tab.display_title() == tab.title,
        tab_tip(true) == "Aktiver Tab"@,
        tab_tip(false) == "Zu diesem Tab wechseln"@,
{
}

/// Both context menus offer copying and selecting; only that of the editor
/// offers changing the text, and each offers its own find panel. Nothing is
/// offered twice.
pub proof fn law_menus_offer_what_can_be_done(entry: MenuEntry)
    ensures
        menu_of(ContextMenuKind::Editor).len() == 5,
        menu_of(ContextMenuKind::Output).len() == 3,
        menu_of(ContextMenuKind::Editor).contains(entry) <==> !(entry is FindInOutput),
        menu_of(ContextMenuKind::Output).contains(entry) <==> entry is Copy || entry is SelectAll
            || entry is FindInOutput,
        forall|k: ContextMenuKind|
            (#[trigger] menu_of(k))[0] is Copy && menu_of(k)[1] is SelectAll,
        menu_of(ContextMenuKind::Editor)[2] is Cut,
        menu_of(ContextMenuKind::Editor)[3] is Paste,
{
    let e = menu_of(ContextMenuKind::Editor);
    let p = menu_of(ContextMenuKind::Output);
    assert(e[0] is Copy && e[1] is SelectAll && e[2] is Cut && e[3] is Paste && e[4] is FindReplace);
    assert(p[0] is Copy && p[1] is SelectAll && p[2] is FindInOutput);
}

/// Choosing an entry of a menu does what the entry says.
pub proof fn law_menu_entries_do_what_they_say(m: AppModel, o: Outside, entry: MenuEntry)
    ensures
        entry is Copy ==> entry_message(entry) is ContextCopy && entry_label(entry)
            == " Kopieren (Copy)"@,
        entry is SelectAll ==> entry_message(entry) is ContextSelectAll && entry_label(entry)
            == " Alles auswählen (Select All)"@,
        entry is Cut ==> entry_message(entry) is ContextCut && entry_label(entry)
            == " Ausschneiden (Cut)"@,
        entry is Paste ==> m.effect(entry_message(entry), o) is ReadClipboard && entry_label(entry)
            == " Einfügen (Paste)"@,
        entry is FindReplace ==> m.next(entry_message(entry), o).editor.open == !m.editor.open
            && entry_label(entry) == " Suchen/Ersetzen…"@,
        entry is FindInOutput ==> m.next(entry_message(entry), o).output.open == !m.output.open
            && entry_label(entry) == " Suchen…"@,
{
}

/// The layers and the parts of the editor page show what the application holds:
/// the context menu, the tooltip, and whether the find panel is open.
pub proof fn law_layers_show_the_state(m: AppModel)
    ensures
        layers_of(m)[1] == LayerModel::ContextMenu(m.menu),
        layers_of(m)[2] == LayerModel::Tooltip(m.tooltip),
        slots_of(m)[0] is Header,
        slots_of(m)[1] is Colors,
        slots_of(m)[2] is Tabs,
        slots_of(m)[3] == (EditorSlot::FindPanel { open: m.editor.open }),
{
}

/// The first line of a text starts five pixels from its top, and each line is
/// twenty pixels high.
pub proof fn law_lines_stand_twenty_pixels_apart(line: nat)
    ensures
        line_top(line) == 5 + 20 * line,
{
}

// ---------------------------------------------------------------------------
// Settings
// ---------------------------------------------------------------------------

/// The themes in the order in which they are offered, and the colours, each
/// under its own name.
pub proof fn law_themes_and_colors_are_named()
    ensures
        all_themes().len() == 21,
        all_themes()[0] is Light && theme_label(AppTheme::Light) == "Hell (Light)"@,
        all_themes()[1] is Dark && theme_label(AppTheme::Dark) == "Dunkel (Dark)"@,
        all_themes()[2] is Dracula && theme_label(AppTheme::Dracula) == "Dracula"@,
        all_themes()[3] is Nord && theme_label(AppTheme::Nord) == "Nord"@,
        all_themes()[4] is SolarizedLight && theme_label(AppTheme::SolarizedLight) == "Solarized Light"@,
        all_themes()[5] is SolarizedDark && theme_label(AppTheme::SolarizedDark) == "Solarized Dark"@,
        all_themes()[6] is GruvboxLight && theme_label(AppTheme::GruvboxLight) == "Gruvbox Light"@,
        all_themes()[7] is GruvboxDark && theme_label(AppTheme::GruvboxDark) == "Gruvbox Dark"@,
        all_themes()[8] is CatppuccinLatte && theme_label(AppTheme::CatppuccinLatte) == "Catppuccin Latte"@,
        all_themes()[9] is CatppuccinFrappe && theme_label(AppTheme::CatppuccinFrappe) == "Catppuccin Frappé"@,
        all_themes()[10] is CatppuccinMacchiato && theme_label(AppTheme::CatppuccinMacchiato) == "Catppuccin Macchiato"@,
        all_themes()[11] is CatppuccinMocha && theme_label(AppTheme::CatppuccinMocha) == "Catppuccin Mocha"@,
        all_themes()[12] is TokyoNight && theme_label(AppTheme::TokyoNight) == "Tokyo Night"@,
        all_themes()[13] is TokyoNightStorm && theme_label(AppTheme::TokyoNightStorm) == "Tokyo Night Storm"@,
        all_themes()[14] is TokyoNightLight && theme_label(AppTheme::TokyoNightLight) == "Tokyo Night Light"@,
        all_themes()[15] is KanagawaWave && theme_label(AppTheme::KanagawaWave) == "Kanagawa Wave"@,
        all_themes()[16] is KanagawaDragon && theme_label(AppTheme::KanagawaDragon) == "Kanagawa Dragon"@,
        all_themes()[17] is KanagawaLotus && theme_label(AppTheme::KanagawaLotus) == "Kanagawa Lotus"@,
        all_themes()[18] is Moonfly && theme_label(AppTheme::Moonfly) == "Moonfly"@,
        all_themes()[19] is Nightfly && theme_label(AppTheme::Nightfly) == "Nightfly"@,
        all_themes()[20] is Oxocarbon && theme_label(AppTheme::Oxocarbon) == "Oxocarbon"@,
        color_label(HighlightColor::Yellow) == "Gelb"@,
        color_label(HighlightColor::Green) == "Grün"@,
        color_label(HighlightColor::Red) == "Rot"@,
{
}

} // verus!
