//! What each message does, stated of the application as a whole: which parts
//! of the state it changes, to what, and what is asked for in return.

use vstd::prelude::*;

use crate::app::{initial_app, AppModel, Outside};
use crate::config::{AppTheme, ConfigModel, HighlightColor};
use crate::content::{brought_in, loaded_text, Action, CursorStep, Edit, Request};
use crate::diagnostics::DiagnosticLevel;
use crate::direction::{free_of, lemma_one_direction, loads, one_direction, CharKind, Ends};
use crate::log::LogModel;
use crate::message::{
    ContextMenuKind, ContextMenuState, EffectModel, Msg, Page, Place,
};
use crate::output::{shown_text, OutputModel};
use crate::paths::{resolved, FilePath};
use crate::process::{tells, ReportModel};
use crate::run::RunModel;
use crate::search::{
    all_matches, law_matches_are_disjoint_occurrences, occurs_at, replaced_from,
};
use crate::strings::{is_white_space, trimmed};
use crate::view::{is_button_for, DiagnosticButton};

verus! {

// ---------------------------------------------------------------------------
// The start
// ---------------------------------------------------------------------------

/// At the start the main page is shown, the project is in the stored
/// directory, `build` is the command, nothing runs and nothing was reported.
pub proof fn law_the_start(config: ConfigModel, mouse: Place, separator: char)
    ensures
        ({
            let m = initial_app(config, mouse, separator);
            &&& m.page is Main
            &&& m.config == config
            &&& m.project_path == config.default_path
            &&& m.cargo_args == "build"@
            &&& m.new_project_name.len() == 0
            &&& m.output.lines.len() == 0 && !m.output.dirty && !m.output.trimmed && !m.output.open
            &&& m.output.content.text == loaded_text(Seq::empty())
            &&& m.output.find_text.len() == 0 && m.output.status.len() == 0
            &&& m.output.current == 0 && m.output.highlight is None
            &&& m.run.command.len() == 0
            &&& !m.run.running && m.run.job == 0 && !m.run.stoppable && m.run.elapsed == 0
            &&& m.run.durations == Map::<Seq<char>, nat>::empty()
            &&& m.log.diagnostics.len() == 0 && m.log.pending is None
            &&& m.status == "Bereit"@
            &&& m.editor.tabs.len() == 1 && m.editor.active == 0 && m.editor.untitled_counter == 1
            &&& m.editor.tab().path is None && !m.editor.tab().dirty
            &&& m.editor.tab().title == "Untitled-"@ + crate::strings::decimal(1)
            &&& !m.editor.open && !m.editor.show_replace && m.editor.find_text.len() == 0
            &&& m.editor.replace_text.len() == 0 && m.editor.status.len() == 0
            &&& m.editor.current == 0 && m.editor.lines.len() == 0 && m.editor.highlight is None
            &&& m.editor.tab().content.text == loaded_text(Seq::empty())
            &&& m.editor.tab().errors.len() == 0
            &&& m.menu is None && m.tooltip is None
            &&& m.mouse == mouse
            &&& m.shown_level is Error
            &&& m.separator == separator
        }),
{
}

// ---------------------------------------------------------------------------
// The page and the project
// ---------------------------------------------------------------------------

/// What the user enters or picks on the pages is taken over as it is, and
/// nothing else changes.
pub proof fn law_entries_are_taken_over(m: AppModel, o: Outside, page: Page, text: String)
    ensures
        m.next(Msg::NavigateTo(page), o) == (AppModel { page, ..m }),
        m.next(Msg::PathChanged(text), o) == (AppModel { project_path: text@, ..m }),
        m.next(Msg::PathPicked(Some(text)), o) == (AppModel { project_path: text@, ..m }),
        m.next(Msg::PathPicked(None), o) == m,
        m.next(Msg::ArgsChanged(text), o) == (AppModel { cargo_args: text@, ..m }),
        m.next(Msg::NewProjectNameChanged(text), o) == (AppModel { new_project_name: text@, ..m }),
        m.next(Msg::BrowsePath, o) == m,
        m.effect(Msg::BrowsePath, o) is PickFolder,
        m.effect(Msg::NavigateTo(page), o) is Nothing,
        m.effect(Msg::PathChanged(text), o) is Nothing,
        m.effect(Msg::PathPicked(Some(text)), o) is Nothing,
        m.effect(Msg::PathPicked(None), o) is Nothing,
        m.effect(Msg::ArgsChanged(text), o) is Nothing,
        m.effect(Msg::NewProjectNameChanged(text), o) is Nothing,
{
}

/// The directory that was made the default comes back when the default is
/// restored, whatever was entered meanwhile; it is stored at once.
pub proof fn law_default_path_comes_back(m: AppModel, o: Outside, text: String)
    requires
        m.project_path.len() > 0,
    ensures
        ({
            let set = m.next(Msg::SetAsDefault, o);
            let back = set.next(Msg::PathChanged(text), o).next(Msg::RestoreDefault, o);
            &&& back == set
            &&& set.config == (ConfigModel { default_path: m.project_path, ..m.config })
            &&& set.status == "Startpfad gesetzt"@
            &&& (AppModel { config: m.config, status: m.status, ..set }) == m
            &&& m.effect(Msg::SetAsDefault, o) is SaveConfig
        }),
{
}

/// Without a default there is none to restore; otherwise only the directory
/// changes.
pub proof fn law_restoring_the_default(m: AppModel, o: Outside)
    ensures
        m.effect(Msg::RestoreDefault, o) is Nothing,
        m.config.default_path.len() == 0 ==> m.next(Msg::RestoreDefault, o) == m,
        m.config.default_path.len() > 0 ==> m.next(Msg::RestoreDefault, o) == (AppModel {
            project_path: m.config.default_path,
            ..m
        }),
        m.next(Msg::SetAsDefault, o).config.default_path == m.project_path,
        m.next(Msg::SetAsDefault, o).project_path == m.project_path,
{
}

// ---------------------------------------------------------------------------
// Runs
// ---------------------------------------------------------------------------

/// Whether `after` is `before` with a run of `args` just started: it is the
/// next run, it can be stopped, and what an earlier run left of diagnostics is
/// gone.
pub open spec fn run_begun(before: AppModel, after: AppModel, args: Seq<char>) -> bool {
    after == (AppModel {
        cargo_args: args,
        status: "Läuft…"@,
        output: OutputModel { trimmed: false, ..before.output },
        log: LogModel { diagnostics: Seq::empty(), pending: None },
        run: RunModel {
            running: true,
            job: before.run.job + 1,
            stoppable: true,
            command: args,
            elapsed: 0,
            durations: before.run.durations,
        },
        ..before
    })
}

/// While nothing runs, a command is run as it was given, in the project's
/// directory and under the next number; the command line, the run and what is
/// asked for name the same command.
pub proof fn law_the_given_command_is_run(m: AppModel, o: Outside, command: String)
    requires
        !m.run.running,
    ensures
        m.effect(Msg::RunCommand(command), o) == (EffectModel::RunCargo {
            path: m.project_path,
            args: command@,
            job: m.run.job + 1,
        }),
        run_begun(m, m.next(Msg::RunCommand(command), o), command@),
        m.effect(Msg::Run, o) == (EffectModel::RunCargo {
            path: m.project_path,
            args: m.cargo_args,
            job: m.run.job + 1,
        }),
        run_begun(m, m.next(Msg::Run, o), m.cargo_args),
        m.next(Msg::ArgsChanged(command), o).next(Msg::Run, o) == m.next(
            Msg::RunCommand(command),
            o,
        ),
        m.next(Msg::ArgsChanged(command), o).effect(Msg::Run, o) == m.effect(
            Msg::RunCommand(command),
            o,
        ),
{
    assert(m.next(Msg::ArgsChanged(command), o) == (AppModel { cargo_args: command@, ..m }));
}

/// While nothing runs, a new project is made under its name without the white
/// space round it; without a name nothing happens.
pub proof fn law_new_project_is_made_under_its_name(
    m: AppModel,
    o: Outside,
    front: Seq<char>,
    name: Seq<char>,
    back: Seq<char>,
)
    requires
        !m.run.running,
        m.new_project_name == front + name + back,
        forall|i: int| 0 <= i < front.len() ==> is_white_space(#[trigger] front[i]),
        forall|i: int| 0 <= i < back.len() ==> is_white_space(#[trigger] back[i]),
        name.len() > 0 ==> !is_white_space(name[0]) && !is_white_space(name.last()),
    ensures
        name.len() > 0 ==> m.effect(Msg::RunCargoNew, o) == (EffectModel::RunCargo {
            path: m.project_path,
            args: "new "@ + name,
            job: m.run.job + 1,
        }),
        name.len() > 0 ==> run_begun(m, m.next(Msg::RunCargoNew, o), "new "@ + name),
        name.len() == 0 ==> m.next(Msg::RunCargoNew, o) == m && m.effect(
            Msg::RunCargoNew,
            o,
        ) is Nothing,
{
    crate::text_laws::law_trimming(front, name, back);
    assert(trimmed(m.new_project_name) == name);
}

/// While a run is under way no other is started.
pub proof fn law_one_run_at_a_time(m: AppModel, o: Outside, command: String)
    requires
        m.run.running,
    ensures
        m.next(Msg::Run, o) == m,
        m.next(Msg::RunCommand(command), o) == m,
        m.next(Msg::RunCargoNew, o) == m,
        m.effect(Msg::Run, o) is Nothing,
        m.effect(Msg::RunCommand(command), o) is Nothing,
        m.effect(Msg::RunCargoNew, o) is Nothing,
{
}

/// Asking for a stop says so in the status, and asks the process once; the run
/// itself goes on until its end is reported.
pub proof fn law_stopping(m: AppModel, o: Outside)
    ensures
        m.effect(Msg::Stop, o) is StopCargo <==> m.run.stoppable,
        m.effect(Msg::Stop, o) is Nothing <==> !m.run.stoppable,
        m.next(Msg::Stop, o) == (AppModel {
            status: "Abbrechen…"@,
            run: RunModel { stoppable: false, ..m.run },
            ..m
        }),
{
}

/// The end of the current run is shown as a success exactly where it was one.
/// The command is known from then on by the time it took, and the output is
/// shown anew.
pub proof fn law_the_end_is_shown(
    m: AppModel,
    o: Outside,
    success: bool,
    job_id: u64,
    elapsed_ms: u64,
)
    requires
        job_id == m.run.job,
    ensures
        ({
            let msg = Msg::Done { success, job_id, elapsed_ms };
            let after = m.next(msg, o);
            &&& success ==> after.status == "Fertig ✓"@
            &&& !success ==> after.status == "Fehlgeschlagen ✗"@
            &&& m.run.running ==> after.run == (RunModel {
                running: false,
                stoppable: false,
                elapsed: elapsed_ms as nat,
                durations: m.run.durations.insert(m.run.command, elapsed_ms as nat),
                ..m.run
            })
            &&& !m.run.running ==> after.run == (RunModel { stoppable: false, ..m.run })
            &&& m.effect(msg, o) is ScrollOutputToTop
            &&& is_flushed(m.output, after.output)
            &&& (AppModel { status: m.status, run: m.run, output: m.output, ..after }) == m
        }),
{
}

/// What is reported of a process reaches the application: the line as it is
/// kept, the end as the success or failure that it was.
pub proof fn law_reports_reach_the_application(
    m: AppModel,
    o: Outside,
    msg: Msg,
    report: ReportModel,
    job_id: u64,
)
    requires
        job_id == m.run.job,
        tells(msg, report, job_id),
    ensures
        match report {
            ReportModel::Line(text) => m.next(msg, o).output.lines.len() > 0 && m.next(
                msg,
                o,
            ).output.lines.last() == text && m.next(msg, o).run == m.run,
            ReportModel::Done(success) => !m.next(msg, o).run.running && m.next(msg, o).status
                == if success {
                "Fertig ✓"@
            } else {
                "Fehlgeschlagen ✗"@
            },
        },
{
}

/// Whether `after` is `before` with the text shown made anew from the lines.
pub open spec fn is_flushed(before: OutputModel, after: OutputModel) -> bool {
    &&& after.content.text == loaded_text(shown_text(before.lines, before.trimmed))
    &&& after.content.requests.len() == 0
    &&& after == (OutputModel {
        content: after.content,
        dirty: false,
        highlight: None,
        status: Seq::empty(),
        current: 0,
        ..before
    })
}

/// A line of the current run is looked at for diagnostics and kept, in the
/// place of the oldest where five thousand are kept already; nothing else
/// changes but that the matches found before are out of date.
pub proof fn law_a_line_is_kept(m: AppModel, o: Outside, line: String, job_id: u64)
    requires
        job_id == m.run.job,
    ensures
        ({
            let msg = Msg::Append { line, job_id };
            let after = m.next(msg, o);
            &&& m.effect(msg, o) is Nothing
            &&& after.log == m.log.noted(line@, m.project_path, m.separator)
            &&& after.output.dirty
            &&& after.output.lines.len() > 0 && after.output.lines.last() == line@
            &&& m.output.lines.len() < 5000 ==> after.output.lines == m.output.lines.push(line@)
                && after.output.trimmed == m.output.trimmed
            &&& m.output.lines.len() == 5000 ==> after.output.lines == m.output.lines.push(
                line@,
            ).skip(1) && after.output.trimmed
            &&& after.output == (OutputModel {
                lines: after.output.lines,
                trimmed: after.output.trimmed,
                dirty: true,
                highlight: None,
                status: Seq::empty(),
                current: 0,
                ..m.output
            })
            &&& (AppModel { log: m.log, output: m.output, ..after }) == m
        }),
{
}

// ---------------------------------------------------------------------------
// Output
// ---------------------------------------------------------------------------

/// As time passes the output is shown anew, if lines came, and the time of the
/// run under way is noted; nothing else changes.
pub proof fn law_time_passes(m: AppModel, o: Outside, elapsed_ms: u64)
    ensures
        ({
            let msg = Msg::FlushOutput { elapsed_ms };
            let after = m.next(msg, o);
            &&& m.output.dirty ==> is_flushed(m.output, after.output)
            &&& m.output.dirty <==> m.effect(msg, o) is ScrollOutputToTop
            &&& !m.output.dirty ==> after.output == m.output && m.effect(msg, o) is Nothing
            &&& after.run.elapsed == if m.run.running {
                elapsed_ms as nat
            } else {
                m.run.elapsed
            }
            &&& after == (AppModel {
                output: after.output,
                run: RunModel { elapsed: after.run.elapsed, ..m.run },
                ..m
            })
        }),
{
}

/// Emptying the output leaves nothing of it but the find panel; the run goes
/// on.
pub proof fn law_clearing(m: AppModel, o: Outside)
    ensures
        ({
            let after = m.next(Msg::Clear, o);
            &&& after.output.lines.len() == 0
            &&& after.output.content.text == loaded_text(Seq::empty())
            &&& after.output.content.requests.len() == 0
            &&& after.output == (OutputModel {
                lines: Seq::empty(),
                content: after.output.content,
                dirty: false,
                trimmed: false,
                highlight: None,
                ..m.output
            })
            &&& after == (AppModel {
                output: after.output,
                log: LogModel { diagnostics: Seq::empty(), pending: None },
                status: "Bereit"@,
                ..m
            })
            &&& m.effect(Msg::Clear, o) is Nothing
        }),
{
    let after = m.next(Msg::Clear, o);
    assert(after.output.lines =~= Seq::empty());
}

/// Copying the output copies the whole text shown.
pub proof fn law_copying_the_output(m: AppModel, o: Outside)
    ensures
        m.next(Msg::CopyOutput, o) == m,
        m.output.content.text.len() > 0 ==> m.effect(Msg::CopyOutput, o)
            == EffectModel::CopyToClipboard(m.output.content.text),
        m.output.content.text.len() == 0 ==> m.effect(Msg::CopyOutput, o) is Nothing,
{
}

/// What the user does in the output is done by its widget, and only there; an
/// edit does nothing.
pub proof fn law_acting_in_the_output(m: AppModel, o: Outside, action: Action)
    ensures
        m.effect(Msg::OutputAction(action), o) is Nothing,
        action is Edit ==> m.next(Msg::OutputAction(action), o) == m,
        action is Navigate ==> ({
            let after = m.next(Msg::OutputAction(action), o);
            &&& after.output.content.text == m.output.content.text
            &&& after.output.content.requests == m.output.content.requests.push(
                Request::User(action),
            )
            &&& after == (AppModel {
                output: OutputModel { content: after.output.content, ..m.output },
                ..m
            })
        }),
{
    if action is Navigate {
        let after = m.next(Msg::OutputAction(action), o);
        assert(after.output.content.requests =~= m.output.content.requests.push(
            Request::User(action),
        ));
    }
}

/// The find panel of the output is opened where it is closed and closed where
/// it is open; the context menu is gone either way.
pub proof fn law_toggling_the_output_panel(m: AppModel, o: Outside)
    ensures
        m.effect(Msg::ToggleOutputFind, o) is Nothing,
        !m.output.open ==> m.next(Msg::ToggleOutputFind, o) == (AppModel {
            output: OutputModel { open: true, ..m.output },
            menu: None,
            ..m
        }),
        m.output.open ==> m.next(Msg::ToggleOutputFind, o) == (AppModel {
            output: OutputModel { open: false, status: Seq::empty(), highlight: None, ..m.output },
            menu: None,
            ..m
        }),
{
}

// ---------------------------------------------------------------------------
// The context menu and the clipboard
// ---------------------------------------------------------------------------

/// The context menu is opened where the mouse is, on what was clicked, and
/// goes when it is dismissed.
pub proof fn law_context_menu_opens_at_the_mouse(
    m: AppModel,
    o: Outside,
    place: Place,
    kind: ContextMenuKind,
)
    ensures
        m.next(Msg::MouseMoved(place), o) == (AppModel { mouse: place, ..m }),
        m.next(Msg::ShowContextMenu(kind), o) == (AppModel {
            menu: Some(ContextMenuState { place: m.mouse, kind }),
            ..m
        }),
        m.next(Msg::HideContextMenu, o) == (AppModel { menu: None, ..m }),
        m.effect(Msg::MouseMoved(place), o) is Nothing,
        m.effect(Msg::ShowContextMenu(kind), o) is Nothing,
        m.effect(Msg::HideContextMenu, o) is Nothing,
{
}

/// Copying copies what is selected where the menu was opened, and changes no
/// text.
pub proof fn law_copying(m: AppModel, o: Outside, kind: ContextMenuKind)
    ensures
        ({
            let opened = m.next(Msg::ShowContextMenu(kind), o);
            let selected = match kind {
                ContextMenuKind::Editor => o.editor_selection,
                ContextMenuKind::Output => o.output_selection,
            };
            &&& opened.next(Msg::ContextCopy, o) == (AppModel { menu: None, ..m })
            &&& selected is None ==> opened.effect(Msg::ContextCopy, o) is Nothing
            &&& selected is Some ==> opened.effect(Msg::ContextCopy, o)
                == EffectModel::CopyToClipboard(selected->0)
        }),
        m.menu is None ==> m.effect(Msg::ContextCopy, o) is Nothing,
{
}

/// Cutting copies what is selected in the editor and takes it away as
/// Backspace does; without a selection it does nothing.
pub proof fn law_cutting(m: AppModel, o: Outside)
    ensures
        o.editor_selection is None ==> m.effect(Msg::ContextCut, o) is Nothing && m.next(
            Msg::ContextCut,
            o,
        ) == (AppModel { menu: None, ..m }),
        o.editor_selection is Some ==> m.effect(Msg::ContextCut, o)
            == EffectModel::CopyToClipboard(o.editor_selection->0) && m.next(Msg::ContextCut, o)
            == (AppModel {
            menu: None,
            ..m.next(Msg::EditorAction(Action::Edit(Edit::Backspace)), o)
        }),
{
}

/// Pasting reads the clipboard first, and then does in the editor what pasting
/// there does; an empty clipboard changes nothing.
pub proof fn law_pasting(m: AppModel, o: Outside, text: String)
    ensures
        m.effect(Msg::ContextPaste, o) is ReadClipboard,
        m.next(Msg::ContextPaste, o) == (AppModel { menu: None, ..m }),
        m.next(Msg::PasteText(Some(text)), o) == m.next(
            Msg::EditorAction(Action::Edit(Edit::Paste(text))),
            o,
        ),
        m.next(Msg::PasteText(None), o) == m,
        m.effect(Msg::PasteText(Some(text)), o) is Nothing,
        m.effect(Msg::PasteText(None), o) is Nothing,
{
}

/// Selecting all selects in the text that the menu was opened on, and there
/// alone.
pub proof fn law_selecting_all(m: AppModel, o: Outside, kind: ContextMenuKind)
    requires
        m.editor.active < m.editor.tabs.len(),
    ensures
        ({
            let opened = m.next(Msg::ShowContextMenu(kind), o);
            let after = opened.next(Msg::ContextSelectAll, o);
            let all = Request::Step(CursorStep::SelectAll);
            &&& opened.effect(Msg::ContextSelectAll, o) is Nothing
            &&& after.menu is None
            &&& kind is Editor ==> {
                &&& after.output == m.output
                &&& after.editor.tab().content.text == m.editor.tab().content.text
                &&& after.editor.tab().content.requests == m.editor.tab().content.requests.push(all)
                &&& crate::editor_laws::only_content_changed(m.editor, after.editor)
            }
            &&& kind is Output ==> {
                &&& after.editor == m.editor
                &&& after.output.content.text == m.output.content.text
                &&& after.output.content.requests == m.output.content.requests.push(all)
                &&& after.output == (OutputModel { content: after.output.content, ..m.output })
            }
            &&& (AppModel { menu: m.menu, editor: m.editor, output: m.output, ..after }) == m
        }),
        m.menu is None ==> m.next(Msg::ContextSelectAll, o) == m,
{
    let opened = m.next(Msg::ShowContextMenu(kind), o);
    let after = opened.next(Msg::ContextSelectAll, o);
    let all = Request::Step(CursorStep::SelectAll);
    assert(m.editor.tab().content.requests.push(all) =~= m.editor.tab().content.requests
        + seq![all]);
    assert(m.output.content.requests.push(all) =~= m.output.content.requests + seq![all]);
    if kind is Editor {
        assert(after.editor.tabs =~= m.editor.tabs.update(
            m.editor.active as int,
            after.editor.tab(),
        ));
    }
}

// ---------------------------------------------------------------------------
// Settings
// ---------------------------------------------------------------------------

/// Each setting is changed alone, and stored at once.
pub proof fn law_settings_change_alone(
    m: AppModel,
    o: Outside,
    text: String,
    theme: AppTheme,
    full: bool,
    color: HighlightColor,
)
    ensures
        m.next(Msg::DefaultPathChanged(text), o) == (AppModel {
            config: ConfigModel { default_path: text@, ..m.config },
            ..m
        }),
        m.next(Msg::ThemeChanged(theme), o) == (AppModel {
            config: ConfigModel { theme, ..m.config },
            ..m
        }),
        m.next(Msg::WindowModeChanged(full), o) == (AppModel {
            config: ConfigModel { is_fullscreen: full, ..m.config },
            ..m
        }),
        m.next(Msg::SetFindTestColor(color), o) == (AppModel {
            config: ConfigModel { highlight_color: color, ..m.config },
            ..m
        }),
        m.next(Msg::Quit, o) == m,
        m.effect(Msg::Quit, o) is SaveConfigAndExit,
        m.effect(Msg::DefaultPathChanged(text), o) is SaveConfig,
        m.effect(Msg::ThemeChanged(theme), o) is SaveConfig,
        m.effect(Msg::WindowModeChanged(full), o) is SaveConfig,
        m.effect(Msg::SetFindTestColor(color), o) is SaveConfig,
{
}

/// Resetting brings back the settings of a first start, whatever they were: no
/// directory, the light theme, a window and yellow.
pub proof fn law_reset_forgets_all_settings(m: AppModel, n: AppModel, o: Outside)
    ensures
        m.next(Msg::ResetSettings, o).config == n.next(Msg::ResetSettings, o).config,
        ({
            let after = m.next(Msg::ResetSettings, o);
            &&& after.config.default_path.len() == 0
            &&& after.config.theme is Light
            &&& !after.config.is_fullscreen
            &&& after.config.highlight_color is Yellow
            &&& after == (AppModel {
                config: after.config,
                status: "Einstellungen zurückgesetzt ✓"@,
                ..m
            })
            &&& m.effect(Msg::ResetSettings, o) is ResetAndSaveConfig
        }),
{
}

// ---------------------------------------------------------------------------
// The window and the help
// ---------------------------------------------------------------------------

/// A tooltip shows the text that was given. What could not be opened is named
/// in the status with the reason.
pub proof fn law_tooltips_and_failures(m: AppModel, o: Outside, text: String)
    ensures
        m.next(Msg::TooltipShow(text), o) == (AppModel { tooltip: Some(text@), ..m }),
        m.next(Msg::TooltipHide, o) == (AppModel { tooltip: None, ..m }),
        m.next(Msg::OpenHelpPdf, o) == m,
        m.next(Msg::OpenPublicDomainLink, o) == m,
        m.effect(Msg::OpenHelpPdf, o) is OpenHelpPdf,
        m.effect(Msg::OpenPublicDomainLink, o) is OpenPublicDomainLink,
        m.next(Msg::HelpPdfFailed(text), o) == (AppModel {
            status: "PDF konnte nicht geöffnet werden: "@ + text@,
            ..m
        }),
        m.next(Msg::LinkFailed(text), o) == (AppModel {
            status: "Link konnte nicht geöffnet werden: "@ + text@,
            ..m
        }),
        m.effect(Msg::HelpPdfFailed(text), o) is Nothing,
        m.effect(Msg::LinkFailed(text), o) is Nothing,
{
}

// ---------------------------------------------------------------------------
// Diagnostics
// ---------------------------------------------------------------------------

/// Choosing a diagnostic from the list leads where that very diagnostic is:
/// to its file as seen from the project, its line, its column, under its
/// level. A place that is not in the list leads nowhere.
pub proof fn law_chosen_diagnostic_is_opened(m: AppModel, o: Outside, idx: usize)
    ensures
        m.next(Msg::SelectErrorFromDropdown(idx), o) == m,
        idx >= m.log.diagnostics.len() ==> m.effect(
            Msg::SelectErrorFromDropdown(idx),
            o,
        ) is Nothing,
        idx < m.log.diagnostics.len() ==> m.effect(Msg::SelectErrorFromDropdown(idx), o) == (
        EffectModel::LoadDiagnosticFile {
            path: resolved(m.project_path, m.log.diagnostics[idx as int].file),
            line: m.log.diagnostics[idx as int].line,
            col: m.log.diagnostics[idx as int].column,
            level: m.log.diagnostics[idx as int].level,
        }),
{
}

/// Asking for a place leads to that place.
pub proof fn law_place_is_opened(
    m: AppModel,
    o: Outside,
    path: FilePath,
    line: usize,
    col: usize,
    level: DiagnosticLevel,
)
    ensures
        m.next(Msg::OpenDiagnostic { path, line, col, level }, o) == m,
        m.effect(Msg::OpenDiagnostic { path, line, col, level }, o) == (
        EffectModel::LoadDiagnosticFile { path: resolved(m.project_path, path@), line, col, level }),
        m.next(Msg::DiagnosticFileLoaded(None), o) == m,
        m.effect(Msg::DiagnosticFileLoaded(None), o) is Nothing,
{
}

/// The button of a diagnostic leads where the list in the editor leads for the
/// same diagnostic.
pub proof fn law_button_and_list_agree(m: AppModel, o: Outside, b: DiagnosticButton, idx: usize)
    requires
        idx < m.log.diagnostics.len(),
        is_button_for(b, m.log.diagnostics[idx as int]),
    ensures
        m.effect(b.message, o) == m.effect(Msg::SelectErrorFromDropdown(idx), o),
        m.effect(b.message, o) is LoadDiagnosticFile,
        m.next(b.message, o) == m,
        b.level == m.log.diagnostics[idx as int].level,
{
}

// ---------------------------------------------------------------------------
// What can be taken
// ---------------------------------------------------------------------------

/// Only few messages can ever be refused: those that start a run, open or close
/// a tab, or bring text in.
pub proof fn law_most_messages_are_taken(m: AppModel, o: Outside, msg: Msg)
    requires
        match msg {
            Msg::Run
            | Msg::RunCommand(_)
            | Msg::RunCargoNew
            | Msg::Append { .. }
            | Msg::EditorAction(_)
            | Msg::TabNew
            | Msg::TabClose(_)
            | Msg::FilePicked(_)
            | Msg::ReplaceOne
            | Msg::ReplaceAll
            | Msg::ContextCut
            | Msg::PasteText(_)
            | Msg::DiagnosticFileLoaded(_) => false,
            _ => true,
        },
    ensures
        m.accepts(msg, o),
{
}

/// Runs are refused only when their number cannot be counted on, lines of
/// earlier runs never, tabs only when they are not there, and cursor motions
/// never.
pub proof fn law_what_is_refused(
    m: AppModel,
    o: Outside,
    command: String,
    line: String,
    job_id: u64,
    i: usize,
    action: Action,
)
    ensures
        m.accepts(Msg::Run, o) <==> m.run.running || m.run.job < u64::MAX,
        m.accepts(Msg::RunCommand(command), o) <==> m.run.running || m.run.job < u64::MAX,
        m.run.running || m.run.job < u64::MAX ==> m.accepts(Msg::RunCargoNew, o),
        job_id != m.run.job ==> m.accepts(Msg::Append { line, job_id }, o),
        m.accepts(Msg::TabNew, o) <==> m.editor.untitled_counter < usize::MAX,
        m.editor.tabs.len() > 1 ==> (m.accepts(Msg::TabClose(i), o) <==> i
            < m.editor.tabs.len()),
        m.editor.tabs.len() == 1 ==> (m.accepts(Msg::TabClose(i), o)
            <==> m.editor.untitled_counter < usize::MAX),
        action is Navigate ==> m.accepts(Msg::EditorAction(action), o),
        m.accepts(Msg::FilePicked(None), o),
        m.accepts(Msg::PasteText(None), o),
        m.accepts(Msg::DiagnosticFileLoaded(None), o),
        o.editor_selection is None ==> m.accepts(Msg::ContextCut, o),
{
}

/// Whether a text is written in scripts that run from left to right and come
/// first in Unicode: Latin, Greek, Cyrillic and their like.
pub open spec fn is_plain(s: Seq<char>) -> bool {
    forall|i: int| 0 <= i < s.len() ==> #[trigger] s[i] < '\u{590}'
}

proof fn lemma_plain_loads(s: Seq<char>)
    requires
        is_plain(s),
    ensures
        one_direction(s),
        loads(s),
{
    assert(free_of(s, CharKind::RightToLeft));
    lemma_one_direction(s, Ends::LineEnd);
}

proof fn lemma_replaced_plain(text: Seq<char>, needle: Seq<char>, by: Seq<char>, from: int)
    requires
        is_plain(text),
        is_plain(by),
        0 <= from <= text.len(),
    ensures
        is_plain(replaced_from(text, needle, by, from)),
    decreases text.len() - from,
{
    if needle.len() == 0 || from + needle.len() > text.len() {
    } else if occurs_at(text, needle, from) {
        lemma_replaced_plain(text, needle, by, from + needle.len());
    } else {
        lemma_replaced_plain(text, needle, by, from + 1);
    }
}

/// Where all texts are plain, nothing that brings text in is refused: lines,
/// files, edits, pastes and replacements.
pub proof fn law_plain_text_is_taken(
    m: AppModel,
    o: Outside,
    path: FilePath,
    text: String,
    c: char,
    e: Edit,
    job_id: u64,
)
    requires
        is_plain(m.editor.tab().content.text),
        is_plain(m.editor.replace_text),
        is_plain(text@),
        e == Edit::Insert(c) && c < '\u{590}' || e == Edit::Paste(text) || e is Enter
            || e is Backspace || e is Delete,
    ensures
        m.accepts(Msg::Append { line: text, job_id }, o),
        m.accepts(Msg::FilePicked(Some((path, text))), o),
        m.accepts(Msg::EditorAction(Action::Edit(e)), o),
        m.accepts(Msg::PasteText(Some(text)), o),
        m.accepts(Msg::ContextCut, o),
        m.accepts(Msg::ReplaceOne, o),
        m.accepts(Msg::ReplaceAll, o),
{
    let shown = m.editor.tab().content.text;
    lemma_plain_loads(text@);
    assert(is_plain(shown + brought_in(e)));
    lemma_plain_loads(shown + brought_in(e));
    assert(is_plain(shown + brought_in(Edit::Paste(text))));
    lemma_plain_loads(shown + brought_in(Edit::Paste(text)));
    assert(is_plain(shown + brought_in(Edit::Backspace)));
    lemma_plain_loads(shown + brought_in(Edit::Backspace));
    if let Some(new) = m.editor.one_replacement() {
        law_matches_are_disjoint_occurrences(shown, m.editor.find_text);
        let found = all_matches(shown, m.editor.find_text);
        let p = found[(m.editor.current % found.len()) as int];
        assert(occurs_at(shown, m.editor.find_text, p));
        assert(is_plain(new));
        lemma_plain_loads(new);
    }
    if let Some(new) = m.editor.full_replacement() {
        lemma_replaced_plain(shown, m.editor.find_text, m.editor.replace_text, 0);
        lemma_plain_loads(new);
    }
}

} // verus!
