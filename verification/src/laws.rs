//! What holds of the application as a whole.

use vstd::prelude::*;

use crate::app::{area, AppModel, Area, Outside};
use crate::content::{
    goto_requests, joined_lines, line_len, lines_of, loaded_text, Action, Edit, Navigation,
};
use crate::diagnostics::{DiagnosticLevel, EditorErrorModel};
use crate::direction::loads;
use crate::duration::duration_text;
use crate::editor::{
    below, file_tab, first_tab_of, next_match, previous_match, untitled_tab, EditorModel, TabModel,
    NO_MATCH,
};
use crate::layout::line_top;
use crate::log::empty_log;
use crate::message::{EffectModel, Msg};
use crate::output::{newest, shown_text, OutputModel, MAX_LINES, TRIM_NOTICE};
use crate::paths::{same_path, FilePath, PathModel};
use crate::search::{find_status, match_lines};
use crate::view::command_timing;

verus! {

// ---------------------------------------------------------------------------
// Runs
// ---------------------------------------------------------------------------

/// What an earlier run still sends is ignored.
pub proof fn law_stale_run_ignored(
    m: AppModel,
    o: Outside,
    line: String,
    success: bool,
    job_id: u64,
    elapsed_ms: u64,
)
    requires
        job_id != m.run.job,
    ensures
        m.next(Msg::Append { line, job_id }, o) == m,
        m.next(Msg::Done { success, job_id, elapsed_ms }, o) == m,
        m.effect(Msg::Append { line, job_id }, o) is Nothing,
        m.effect(Msg::Done { success, job_id, elapsed_ms }, o) is Nothing,
{
}

/// A new run has a number of its own, and starts with no diagnostics and no
/// time gone by.
pub proof fn law_run_starts_afresh(m: AppModel, o: Outside)
    requires
        !m.run.running,
    ensures
        m.next(Msg::Run, o).run.running,
        m.next(Msg::Run, o).run.job == m.run.job + 1,
        m.next(Msg::Run, o).run.elapsed == 0,
        m.next(Msg::Run, o).log == empty_log(),
        !m.next(Msg::Run, o).output.trimmed,
        m.effect(Msg::Run, o) == (EffectModel::RunCargo {
            path: m.project_path,
            args: m.cargo_args,
            job: m.run.job + 1,
        }),
{
}

/// A run under way can be asked to stop once.
pub proof fn law_stop_asked_once(m: AppModel, o: Outside)
    requires
        !m.run.running,
    ensures
        m.next(Msg::Run, o).effect(Msg::Stop, o) is StopCargo,
        m.next(Msg::Run, o).next(Msg::Stop, o).effect(Msg::Stop, o) is Nothing,
{
}

/// When a run ends, its command is shown from then on with the time it took,
/// and all other commands with the times they had.
pub proof fn law_duration_remembered(
    m: AppModel,
    o: Outside,
    success: bool,
    job_id: u64,
    elapsed_ms: u64,
    other: Seq<char>,
)
    requires
        m.run.running,
        job_id == m.run.job,
        other != m.run.command,
    ensures
        !m.next(Msg::Done { success, job_id, elapsed_ms }, o).run.running,
        command_timing(
            m.next(Msg::Done { success, job_id, elapsed_ms }, o).run,
            m.run.command,
        ) == "est:"@ + duration_text(elapsed_ms as nat),
        command_timing(m.next(Msg::Done { success, job_id, elapsed_ms }, o).run, other)
            == command_timing(m.run, other),
{
}

// ---------------------------------------------------------------------------
// Output
// ---------------------------------------------------------------------------

/// The panel after a series of lines came.
pub open spec fn all_appended(m: OutputModel, lines: Seq<Seq<char>>) -> OutputModel
    decreases lines.len(),
{
    if lines.len() == 0 {
        m
    } else {
        all_appended(m, lines.drop_last()).appended(lines.last())
    }
}

/// However many lines come, the newest are kept, as many as may be, and the
/// panel knows whether older ones were dropped.
pub proof fn law_newest_lines_kept(m: OutputModel, lines: Seq<Seq<char>>)
    requires
        m.wf(),
    ensures
        all_appended(m, lines).lines == newest(m.lines + lines),
        all_appended(m, lines).lines.len() <= MAX_LINES,
        all_appended(m, lines).trimmed == (m.trimmed || (m.lines + lines).len() > MAX_LINES),
    decreases lines.len(),
{
    if lines.len() == 0 {
        assert(m.lines + lines =~= m.lines);
    } else {
        law_newest_lines_kept(m, lines.drop_last());
        let before = m.lines + lines.drop_last();
        let all = m.lines + lines;
        assert(all =~= before.push(lines.last()));
        assert(newest(newest(before).push(lines.last())) =~= newest(all));
    }
}

proof fn lemma_joined_first(list: Seq<Seq<char>>)
    requires
        list.len() > 0,
    ensures
        list[0].is_prefix_of(joined_lines(list)),
        list.len() > 1 ==> joined_lines(list).len() > list[0].len() && joined_lines(
            list,
        )[list[0].len() as int] == '\n',
    decreases list.len(),
{
    reveal_strlit("\n");
    if list.len() > 1 {
        let init = list.drop_last();
        lemma_joined_first(init);
        let whole = joined_lines(list);
        let front = joined_lines(init);
        assert(whole == front + "\n"@ + list.last());
        assert(list[0] =~= whole.take(list[0].len() as int)) by {
            assert(list[0] == front.take(list[0].len() as int));
        }
        if init.len() == 1 {
            assert(front == list[0]);
        }
    }
}

/// The newest line stands at the top of the output, on a line of its own, and
/// the notice about dropped lines at its end.
pub proof fn law_newest_line_first(lines: Seq<Seq<char>>, trimmed: bool)
    requires
        lines.len() > 0,
    ensures
        lines.last().is_prefix_of(shown_text(lines, trimmed)),
        lines.len() > 1 || trimmed ==> shown_text(lines, trimmed).len() > lines.last().len()
            && shown_text(lines, trimmed)[lines.last().len() as int] == '\n',
        trimmed ==> TRIM_NOTICE@.is_suffix_of(shown_text(lines, trimmed)),
{
    let list = lines.reverse() + if trimmed {
        seq![TRIM_NOTICE@]
    } else {
        Seq::empty()
    };
    assert(list[0] == lines.last());
    lemma_joined_first(list);
    if trimmed {
        assert(list.last() == TRIM_NOTICE@);
        let whole = joined_lines(list);
        assert(whole == joined_lines(list.drop_last()) + "\n"@ + list.last());
        assert(TRIM_NOTICE@ =~= whole.subrange(
            whole.len() - TRIM_NOTICE@.len(),
            whole.len() as int,
        ));
    }
}

/// Whatever message comes, no more lines are kept than may be. A line of the
/// current run is added at the end; the oldest line is dropped for it only
/// where the panel is full, and the panel then knows that lines were dropped.
pub proof fn law_output_is_capped(m: AppModel, o: Outside, msg: Msg)
    requires
        m.output.lines.len() <= MAX_LINES,
    ensures
        m.next(msg, o).output.lines.len() <= MAX_LINES,
        match msg {
            Msg::Append { line, job_id } => job_id == m.run.job ==> ({
                let after = m.next(msg, o).output;
                let full = m.output.lines.len() == MAX_LINES;
                &&& after.lines == if full {
                    m.output.lines.push(line@).skip(1)
                } else {
                    m.output.lines.push(line@)
                }
                &&& after.trimmed == (full || m.output.trimmed)
                &&& after.dirty
            }),
            _ => true,
        },
{
}

/// A line of the current run is taken whatever lines came before: it is judged
/// alone.
pub proof fn law_lines_are_judged_alone(m: AppModel, o: Outside, line: String, job_id: u64)
    requires
        job_id == m.run.job,
    ensures
        m.accepts(Msg::Append { line, job_id }, o) == loads(line@),
{
}

/// Nothing that the user does in the output changes its text.
pub proof fn law_output_cannot_be_edited(m: AppModel, o: Outside, action: Action)
    ensures
        m.next(Msg::OutputAction(action), o).output.content.text == m.output.content.text,
        m.next(Msg::OutputAction(action), o).output.lines == m.output.lines,
{
}

/// Emptying the output forgets the diagnostics too.
pub proof fn law_clear_forgets(m: AppModel, o: Outside)
    ensures
        m.next(Msg::Clear, o).output.lines.len() == 0,
        m.next(Msg::Clear, o).log == empty_log(),
        m.next(Msg::Clear, o).run == m.run,
{
}

// ---------------------------------------------------------------------------
// Finding
// ---------------------------------------------------------------------------

/// The next match of the previous one, and the previous one of the next, is the
/// match itself.
pub proof fn law_next_and_previous_undo_each_other(k: nat, total: nat)
    requires
        k < total,
    ensures
        previous_match(next_match(k, total), total) == k,
        next_match(previous_match(k, total), total) == k,
        next_match(k, total) < total,
        previous_match(k, total) < total,
{
    if k + 1 == total {
        assert((k + 1) % total == 0) by (nonlinear_arith)
            requires
                k + 1 == total,
        ;
    } else {
        assert((k + 1) % total == k + 1) by (nonlinear_arith)
            requires
                k + 1 < total,
        ;
    }
    if k > 0 {
        assert(k % total == k) by (nonlinear_arith)
            requires
                k < total,
        ;
    } else {
        assert(total % total == 0) by (nonlinear_arith)
            requires
                total > 0,
        ;
    }
}

/// The match reached after `n` steps forward.
pub open spec fn steps_forward(k: nat, total: nat, n: nat) -> nat
    decreases n,
{
    if n == 0 {
        k
    } else {
        next_match(steps_forward(k, total, (n - 1) as nat), total)
    }
}

/// As many steps forward as there are matches lead back to the same match.
pub proof fn law_steps_go_round(k: nat, total: nat)
    requires
        k < total,
    ensures
        steps_forward(k, total, total) == k,
{
    lemma_steps_forward(k, total, total);
    vstd::arithmetic::div_mod::lemma_mod_add_multiples_vanish(k as int, total as int);
    vstd::arithmetic::div_mod::lemma_small_mod(k, total);
}

proof fn lemma_steps_forward(k: nat, total: nat, n: nat)
    requires
        k < total,
    ensures
        steps_forward(k, total, n) == (k + n) % total,
    decreases n,
{
    if n == 0 {
        vstd::arithmetic::div_mod::lemma_small_mod(k, total);
    } else {
        lemma_steps_forward(k, total, (n - 1) as nat);
        vstd::arithmetic::div_mod::lemma_add_mod_noop(k + n - 1, 1, total as int);
        vstd::arithmetic::div_mod::lemma_add_mod_noop((k + n - 1) % total as int, 1, total as int);
        vstd::arithmetic::div_mod::lemma_mod_twice(k + n - 1, total as int);
    }
}

/// While the find panel is closed, stepping through matches does nothing.
pub proof fn law_no_steps_while_closed(m: AppModel, o: Outside)
    requires
        !m.editor.open,
    ensures
        m.next(Msg::FindNext, o) == m,
        m.next(Msg::FindPrev, o) == m,
        m.effect(Msg::FindNext, o) is Nothing,
        m.effect(Msg::FindPrev, o) is Nothing,
{
}

/// Whether the panel, the mark and the list of matches tell the same match, on
/// line `line`.
pub open spec fn shows_match_on(e: EditorModel, line: nat) -> bool {
    &&& e.current < e.lines.len()
    &&& e.lines[e.current as int] == line
    &&& e.highlight == Some(line)
    &&& e.status == find_status(e.current, e.lines.len(), Some(line))
}

/// The editor at a match shows that match.
proof fn lemma_at_match_shows(e: EditorModel, k: nat)
    requires
        k < e.lines.len(),
    ensures
        shows_match_on(e.at_match(k), e.lines[k as int]),
        e.at_match(k).highlight == Some(e.lines[k as int]),
{
}

/// Whenever looking for another text scrolls the editor, it scrolls to the line
/// of the current match, which is the line that is marked and the line that the
/// status names.
pub proof fn law_search_scrolls_to_current_match(m: AppModel, o: Outside, text: String, line: nat)
    requires
        m.editor.wf(),
        m.effect(Msg::FindTextChanged(text), o) == EffectModel::ScrollEditorTo(line),
    ensures
        shows_match_on(m.next(Msg::FindTextChanged(text), o).editor, line),
{
    let lines = match_lines(m.editor.tab().content.text, text@);
    let searched = EditorModel { find_text: text@, current: 0, lines, ..m.editor };
    if lines.len() > 0 {
        lemma_at_match_shows(searched, 0);
    }
}

/// The same holds of every step to the next or the previous match.
pub proof fn law_step_scrolls_to_current_match(m: AppModel, o: Outside, forward: bool, line: nat)
    requires
        m.editor.wf(),
        m.effect(
            if forward {
                Msg::FindNext
            } else {
                Msg::FindPrev
            },
            o,
        ) == EffectModel::ScrollEditorTo(line),
    ensures
        shows_match_on(
            m.next(
                if forward {
                    Msg::FindNext
                } else {
                    Msg::FindPrev
                },
                o,
            ).editor,
            line,
        ),
{
    let total = m.editor.lines.len();
    if total > 0 {
        law_next_and_previous_undo_each_other(m.editor.current, total);
        lemma_at_match_shows(m.editor, next_match(m.editor.current, total));
        lemma_at_match_shows(m.editor, previous_match(m.editor.current, total));
    }
}

/// Where another tab came on view and a line is marked, it is the line of the
/// current match.
proof fn lemma_refreshed_shows(e: EditorModel, line: nat)
    requires
        e.refreshed().highlight == Some(line),
    ensures
        shows_match_on(e.refreshed(), line),
{
    let lines = match_lines(e.tab().content.text, e.find_text);
    let searched = EditorModel { highlight: None, lines, ..e };
    if lines.len() > 0 {
        lemma_at_match_shows(searched, (lines.len() - 1) as nat);
        if e.current < lines.len() {
            lemma_at_match_shows(searched, e.current);
        }
    }
}

/// The same holds of every tab that is opened or closed, and of every file that
/// is opened.
pub proof fn law_shown_tab_scrolls_to_current_match(m: AppModel, o: Outside, msg: Msg, line: nat)
    requires
        m.editor.wf(),
        msg is TabNew || msg is TabClose || msg is FilePicked,
        m.effect(msg, o) == EffectModel::ScrollEditorTo(line),
    ensures
        shows_match_on(m.next(msg, o).editor, line),
{
    let e = m.editor;
    match msg {
        Msg::TabClose(i) => {
            if e.tabs.len() > 1 {
                lemma_refreshed_shows(
                    EditorModel {
                        tabs: e.tabs.remove(i as int),
                        active: if e.active >= e.tabs.len() - 1 {
                            (e.tabs.len() - 2) as nat
                        } else {
                            e.active
                        },
                        ..e
                    },
                    line,
                );
            } else {
                lemma_refreshed_shows(
                    EditorModel {
                        tabs: e.tabs.update(0, untitled_tab(e.untitled_counter)),
                        untitled_counter: e.untitled_counter + 1,
                        ..e
                    },
                    line,
                );
            }
        },
        Msg::FilePicked(Some((path, text))) => {
            match first_tab_of(e.tabs, path@, 0) {
                Some(i) => lemma_refreshed_shows(EditorModel { active: i, ..e }, line),
                None => lemma_refreshed_shows(
                    EditorModel {
                        tabs: e.tabs.push(file_tab(path@, text@)),
                        active: e.tabs.len(),
                        ..e
                    },
                    line,
                ),
            }
        },
        _ => lemma_refreshed_shows(
            EditorModel {
                tabs: e.tabs.push(untitled_tab(e.untitled_counter)),
                active: e.tabs.len(),
                untitled_counter: e.untitled_counter + 1,
                ..e
            },
            line,
        ),
    }
}

/// The same holds of every change to another tab.
pub proof fn law_tab_scrolls_to_current_match(m: AppModel, o: Outside, i: usize, line: nat)
    requires
        m.editor.wf(),
        m.effect(Msg::TabSelect(i), o) == EffectModel::ScrollEditorTo(line),
    ensures
        shows_match_on(m.next(Msg::TabSelect(i), o).editor, line),
{
    lemma_refreshed_shows(EditorModel { active: i as nat, ..m.editor }, line);
}

/// Whether the list of matches, where there is one, is that of the text shown.
pub open spec fn matches_up_to_date(e: EditorModel) -> bool {
    e.lines.len() > 0 ==> e.lines == match_lines(e.tab().content.text, e.find_text)
}

/// Whether `after` shows one of its tabs, and its list of matches is up to date
/// if that of `before` is.
spec fn stays_sound(before: EditorModel, after: EditorModel) -> bool {
    &&& after.active < after.tabs.len()
    &&& matches_up_to_date(before) ==> matches_up_to_date(after)
}

proof fn lemma_at_match_sound(e: EditorModel, k: nat)
    requires
        e.active < e.tabs.len(),
    ensures
        stays_sound(e, e.at_match(k)),
{
    assert(e.at_match(k).tab().content.text == e.tab().content.text);
}

proof fn lemma_refreshed_sound(e: EditorModel)
    requires
        e.active < e.tabs.len(),
    ensures
        e.refreshed().active < e.refreshed().tabs.len(),
        matches_up_to_date(e.refreshed()),
{
    let lines = match_lines(e.tab().content.text, e.find_text);
    let searched = EditorModel { highlight: None, lines, ..e };
    lemma_at_match_sound(searched, e.current);
    lemma_at_match_sound(searched, (lines.len() - 1) as nat);
}

proof fn lemma_tab_selected_sound(e: EditorModel, i: int)
    requires
        e.active < e.tabs.len(),
    ensures
        stays_sound(e, e.tab_selected(i)),
{
    if e.switches_to(i) {
        lemma_refreshed_sound(EditorModel { active: i as nat, ..e });
    }
}

proof fn lemma_tab_closed_sound(e: EditorModel, i: int)
    requires
        e.active < e.tabs.len(),
        0 <= i < e.tabs.len(),
    ensures
        stays_sound(e, e.tab_closed(i)),
{
    if e.tabs.len() <= 1 {
        lemma_refreshed_sound(
            EditorModel {
                tabs: e.tabs.update(0, untitled_tab(e.untitled_counter)),
                untitled_counter: e.untitled_counter + 1,
                ..e
            },
        );
    } else {
        let closed = EditorModel {
            tabs: e.tabs.remove(i),
            active: if e.active >= e.tabs.len() - 1 {
                (e.tabs.len() - 2) as nat
            } else {
                e.active
            },
            ..e
        };
        if e.stays_shown(i) {
            assert(closed.tab() == e.tab());
        } else {
            lemma_refreshed_sound(closed);
        }
    }
}

proof fn lemma_file_opened_sound(e: EditorModel, path: PathModel, text: Seq<char>)
    requires
        e.active < e.tabs.len(),
    ensures
        stays_sound(e, e.file_opened(path, text)),
{
    match first_tab_of(e.tabs, path, 0) {
        Some(i) => lemma_tab_selected_sound(e, i as int),
        None => lemma_refreshed_sound(
            EditorModel {
                tabs: e.tabs.push(file_tab(path, text)),
                active: e.tabs.len(),
                ..e
            },
        ),
    }
}

proof fn lemma_search_sound(e: EditorModel, find_text: Seq<char>, forward: bool)
    requires
        e.active < e.tabs.len(),
    ensures
        stays_sound(e, e.find_text_changed(find_text)),
        stays_sound(e, e.stepped(forward)),
{
    let lines = match_lines(e.tab().content.text, find_text);
    lemma_at_match_sound(EditorModel { find_text, current: 0, lines, ..e }, 0);
    lemma_at_match_sound(e, next_match(e.current, e.lines.len()));
    lemma_at_match_sound(e, previous_match(e.current, e.lines.len()));
}

proof fn lemma_replaced_sound(e: EditorModel)
    requires
        e.active < e.tabs.len(),
    ensures
        stays_sound(e, e.one_replaced()),
        stays_sound(e, e.all_replaced()),
{
    if let Some(text) = e.one_replacement() {
        let changed = e.rewritten(text);
        let lines = match_lines(changed.tab().content.text, e.find_text);
        lemma_at_match_sound(EditorModel { lines, ..changed }, e.current % lines.len());
    }
}

proof fn lemma_tabs_sound(m: AppModel, o: Outside, msg: Msg)
    requires
        m.editor.active < m.editor.tabs.len(),
        msg matches Msg::TabClose(i) ==> i < m.editor.tabs.len(),
    ensures
        stays_sound(m.editor, m.next_tabs(msg, o).editor),
{
    let e = m.editor;
    match msg {
        Msg::TabNew => lemma_refreshed_sound(
            EditorModel {
                tabs: e.tabs.push(untitled_tab(e.untitled_counter)),
                active: e.tabs.len(),
                untitled_counter: e.untitled_counter + 1,
                ..e
            },
        ),
        Msg::TabSelect(i) => lemma_tab_selected_sound(e, i as int),
        Msg::TabClose(i) => lemma_tab_closed_sound(e, i as int),
        Msg::FilePicked(Some((path, text))) => lemma_file_opened_sound(e, path@, text@),
        _ => {},
    }
}

proof fn lemma_find_sound(m: AppModel, o: Outside, msg: Msg)
    requires
        m.editor.active < m.editor.tabs.len(),
    ensures
        stays_sound(m.editor, m.next_find(msg, o).editor),
{
    lemma_replaced_sound(m.editor);
    lemma_search_sound(m.editor, m.editor.find_text, true);
    lemma_search_sound(m.editor, m.editor.find_text, false);
    if let Msg::FindTextChanged(text) = msg {
        lemma_search_sound(m.editor, text@, true);
    }
}

proof fn lemma_diagnostics_sound(m: AppModel, o: Outside, msg: Msg)
    requires
        m.editor.active < m.editor.tabs.len(),
    ensures
        stays_sound(m.editor, m.next_diagnostics(msg, o).editor),
{
    if let Msg::DiagnosticFileLoaded(Some((path, text, line, col, level))) = msg {
        let opened = m.editor.file_opened(path@, text@);
        let after = m.diagnostic_shown(path@, text@, line, col, level).editor;
        lemma_file_opened_sound(m.editor, path@, text@);
        assert(after.active == opened.active && after.lines == opened.lines);
        assert(after.tab().content.text == opened.tab().content.text);
    }
}

proof fn lemma_editor_sound(m: AppModel, o: Outside, msg: Msg)
    requires
        m.editor.active < m.editor.tabs.len(),
        msg matches Msg::TabClose(i) ==> i < m.editor.tabs.len(),
    ensures
        stays_sound(m.editor, m.next(msg, o).editor),
{
    match area(msg) {
        Area::Tabs => lemma_tabs_sound(m, o, msg),
        Area::Find => lemma_find_sound(m, o, msg),
        Area::Diagnostics => lemma_diagnostics_sound(m, o, msg),
        _ => {},
    }
}

/// Whatever message comes, the list of matches never shows those of another
/// tab, of a text that was changed since or of another search.
pub proof fn law_matches_stay_up_to_date(m: AppModel, o: Outside, msg: Msg)
    requires
        m.editor.active < m.editor.tabs.len(),
        msg matches Msg::TabClose(i) ==> i < m.editor.tabs.len(),
        matches_up_to_date(m.editor),
    ensures
        matches_up_to_date(m.next(msg, o).editor),
{
    lemma_editor_sound(m, o, msg);
}

/// Looking for a text finds all its matches in the shown tab, starts at the
/// first one, and changes no text.
pub proof fn law_search_finds_all(m: AppModel, o: Outside, text: String)
    requires
        m.editor.wf(),
    ensures
        ({
            let e = m.next(Msg::FindTextChanged(text), o).editor;
            &&& e.tab().content.text == m.editor.tab().content.text
            &&& e.lines == match_lines(e.tab().content.text, text@)
            &&& e.current == 0
            &&& e.lines.len() == 0 <==> e.highlight is None
            &&& e.lines.len() == 0 && text@.len() > 0 ==> e.status == NO_MATCH@
        }),
{
}

/// Asking for the tab that is shown changes nothing.
pub proof fn law_same_tab_is_no_change(m: AppModel, o: Outside, i: usize)
    requires
        i == m.editor.active,
    ensures
        m.next(Msg::TabSelect(i), o) == m,
        m.effect(Msg::TabSelect(i), o) is Nothing,
{
}

/// Another tab is shown with its own matches, and the panel stays at its match
/// where the tab has one at that place.
pub proof fn law_other_tab_keeps_place(m: AppModel, o: Outside, i: usize)
    requires
        m.editor.wf(),
        m.editor.switches_to(i as int),
        m.editor.open,
        m.editor.find_text.len() > 0,
    ensures
        ({
            let e = m.next(Msg::TabSelect(i), o).editor;
            &&& e.active == i
            &&& e.lines == match_lines(e.tab().content.text, e.find_text)
            &&& m.editor.current < e.lines.len() ==> e.current == m.editor.current
            &&& m.editor.current >= e.lines.len() > 0 ==> e.current == e.lines.len() - 1
            &&& e.lines.len() == 0 ==> e.current == 0 && e.status == NO_MATCH@
        }),
{
}

/// The mark on the current match stands where the editor scrolls to.
pub proof fn law_mark_stands_at_scroll_target(e: EditorModel, line: nat)
    requires
        shows_match_on(e, line),
    ensures
        line_top(e.lines[e.current as int]) == line_top(line),
        line_top(line) > 0,
{
}

// ---------------------------------------------------------------------------
// Tabs
// ---------------------------------------------------------------------------

/// Every edit marks the tab as unsaved.
pub proof fn law_edit_marks_unsaved(m: AppModel, o: Outside, edit: Edit, pasted: String)
    requires
        m.editor.wf(),
    ensures
        m.next(Msg::EditorAction(Action::Edit(edit)), o).editor.tab().dirty,
        m.next(Msg::PasteText(Some(pasted)), o).editor.tab().dirty,
        o.editor_selection is Some ==> m.next(Msg::ContextCut, o).editor.tab().dirty,
{
}

/// A successful save clears the mark and leaves the text alone.
pub proof fn law_save_clears_unsaved(m: AppModel, o: Outside, path: FilePath)
    requires
        m.editor.wf(),
    ensures
        !m.next(Msg::SaveDone(Some(Ok(path))), o).editor.tab().dirty,
        m.next(Msg::SaveDone(Some(Ok(path))), o).editor.tab().content == m.editor.tab().content,
{
}

/// Moving the cursor neither changes the text nor marks the tab.
pub proof fn law_navigation_changes_no_text(m: AppModel, o: Outside, n: Navigation)
    requires
        m.editor.wf(),
    ensures
        ({
            let e = m.next(Msg::EditorAction(Action::Navigate(n)), o).editor;
            &&& e.tab().content.text == m.editor.tab().content.text
            &&& e.tab().dirty == m.editor.tab().dirty
            &&& e.lines == m.editor.lines
        }),
{
}

proof fn lemma_first_tab_is_one(tabs: Seq<TabModel>, path: PathModel, from: int)
    requires
        0 <= from,
        first_tab_of(tabs, path, from) is Some,
    ensures
        ({
            let i = first_tab_of(tabs, path, from)->0 as int;
            from <= i < tabs.len() && tabs[i].path is Some && same_path(tabs[i].path->0, path)
        }),
    decreases tabs.len() - from,
{
    if from < tabs.len() && !(tabs[from].path is Some && same_path(tabs[from].path->0, path)) {
        lemma_first_tab_is_one(tabs, path, from + 1);
    }
}

/// Which tab shows a file depends on the paths of the tabs alone, and a tab
/// behind them counts only where none of them does.
proof fn lemma_first_tab_by_paths(
    tabs: Seq<TabModel>,
    others: Seq<TabModel>,
    path: PathModel,
    from: int,
)
    requires
        0 <= from <= tabs.len() <= others.len(),
        forall|i: int| 0 <= i < tabs.len() ==> (#[trigger] tabs[i]).path == others[i].path,
    ensures
        first_tab_of(tabs, path, from) is Some ==> first_tab_of(others, path, from) == first_tab_of(
            tabs,
            path,
            from,
        ),
        first_tab_of(tabs, path, from) is None ==> first_tab_of(others, path, from) == first_tab_of(
            others,
            path,
            tabs.len() as int,
        ),
    decreases tabs.len() - from,
{
    if from < tabs.len() {
        assert(tabs[from].path == others[from].path);
        lemma_first_tab_by_paths(tabs, others, path, from + 1);
    }
}

/// A file that was opened is shown, and opening it again changes nothing. The
/// path equals itself, as every path does.
pub proof fn law_file_opened_once(
    e: EditorModel,
    path: PathModel,
    text: Seq<char>,
    later_text: Seq<char>,
)
    requires
        e.wf(),
        same_path(path, path),
    ensures
        ({
            let once = e.file_opened(path, text);
            &&& once.active < once.tabs.len()
            &&& once.tab().path is Some && same_path(once.tab().path->0, path)
            &&& once.file_opened(path, later_text) == once
        }),
{
    let once = e.file_opened(path, text);
    match first_tab_of(e.tabs, path, 0) {
        Some(i) => {
            lemma_first_tab_is_one(e.tabs, path, 0);
            assert(once.active == i);
        },
        None => {
            assert(once.active == e.tabs.len());
            assert(once.tabs[e.tabs.len() as int].path == Some(path));
        },
    }
    lemma_first_tab_by_paths(e.tabs, once.tabs, path, 0);
}

/// Every tab that there is can be selected and closed.
pub proof fn law_shown_tabs_can_be_closed(m: AppModel, o: Outside, i: usize)
    requires
        i < m.editor.tabs.len(),
        m.editor.untitled_counter < usize::MAX,
    ensures
        m.accepts(Msg::TabSelect(i), o),
        m.accepts(Msg::TabClose(i), o),
{
}

/// Whether two tabs are the same but for the place of the cursor.
pub open spec fn same_tab(a: TabModel, b: TabModel) -> bool {
    &&& a.title == b.title
    &&& a.path == b.path
    &&& a.content.text == b.content.text
    &&& a.dirty == b.dirty
    &&& a.errors == b.errors
}

/// Whether tab `j` of `before` is still there in `after`, from which tab `i` is
/// gone.
pub open spec fn kept_without(before: EditorModel, after: EditorModel, i: int, j: int) -> bool {
    let k = if j < i {
        j
    } else {
        j - 1
    };
    &&& after.tabs.len() == before.tabs.len() - 1
    &&& same_tab(after.tabs[k], before.tabs[j])
    &&& k != after.active ==> after.tabs[k] == before.tabs[j]
}

proof fn lemma_closing_keeps(e: EditorModel, i: int, j: int)
    requires
        e.active < e.tabs.len(),
        e.tabs.len() > 1,
        0 <= i < e.tabs.len(),
        0 <= j < e.tabs.len(),
        i != j,
    ensures
        kept_without(e, e.tab_closed(i), i, j),
{
}

/// Closing a tab leaves the other tabs as they were, in their order. Only in
/// the tab that comes on view the cursor may move, to a match.
pub proof fn law_closing_keeps_other_tabs(m: AppModel, o: Outside, i: usize, j: int)
    requires
        m.editor.active < m.editor.tabs.len(),
        m.editor.tabs.len() > 1,
        i < m.editor.tabs.len(),
        0 <= j < m.editor.tabs.len(),
        i != j,
    ensures
        kept_without(m.editor, m.next(Msg::TabClose(i), o).editor, i as int, j),
{
    lemma_closing_keeps(m.editor, i as int, j);
}

/// Closing the only tab leaves one without a file, without changes and without
/// marks.
pub proof fn law_closing_the_only_tab(m: AppModel, o: Outside)
    requires
        m.editor.tabs.len() == 1,
        m.editor.active == 0,
    ensures
        m.next(Msg::TabClose(0), o).editor.tabs.len() == 1,
        same_tab(
            m.next(Msg::TabClose(0), o).editor.tab(),
            untitled_tab(m.editor.untitled_counter),
        ),
{
    assert(m.next(Msg::TabClose(0), o).editor == m.editor.tab_closed(0));
}

/// Whatever message comes, there is a tab and one of the tabs is shown. Only a
/// tab that is there can be closed.
pub proof fn law_a_tab_is_shown(m: AppModel, o: Outside, msg: Msg)
    requires
        m.editor.active < m.editor.tabs.len(),
        msg matches Msg::TabClose(i) ==> i < m.editor.tabs.len(),
    ensures
        m.next(msg, o).editor.active < m.next(msg, o).editor.tabs.len(),
{
    lemma_editor_sound(m, o, msg);
}

// ---------------------------------------------------------------------------
// Saving and reading back
// ---------------------------------------------------------------------------

proof fn lemma_joined_front(first: Seq<char>, rest: Seq<Seq<char>>)
    requires
        rest.len() > 0,
    ensures
        joined_lines(seq![first] + rest) == first + "\n"@ + joined_lines(rest),
    decreases rest.len(),
{
    let list = seq![first] + rest;
    if rest.len() == 1 {
        assert(list.drop_last() =~= seq![first]);
        assert(joined_lines(seq![first]) == first);
    } else {
        assert(list.drop_last() =~= seq![first] + rest.drop_last());
        lemma_joined_front(first, rest.drop_last());
        assert(first + "\n"@ + joined_lines(rest.drop_last()) + "\n"@ + rest.last() =~= first
            + "\n"@ + (joined_lines(rest.drop_last()) + "\n"@ + rest.last()));
    }
}

proof fn lemma_line_len(s: Seq<char>)
    ensures
        line_len(s) <= s.len(),
        line_len(s) < s.len() ==> s[line_len(s) as int] == '\r' || s[line_len(s) as int] == '\n',
    decreases s.len(),
{
    if s.len() > 0 && s[0] != '\r' && s[0] != '\n' {
        lemma_line_len(s.skip(1));
    }
}

/// The lines of a text without carriage returns, joined again, are the text
/// without the line feed at its end.
proof fn lemma_lines_joined(s: Seq<char>)
    requires
        forall|i: int| 0 <= i < s.len() ==> s[i] != '\r',
    ensures
        joined_lines(lines_of(s)) == if s.len() > 0 && s.last() == '\n' {
            s.drop_last()
        } else {
            s
        },
        s.len() > 0 ==> lines_of(s).len() > 0,
    decreases s.len(),
{
    reveal_strlit("\n");
    lemma_line_len(s);
    let n = line_len(s) as int;
    if s.len() == 0 {
        assert(joined_lines(lines_of(s)) =~= s);
    } else if n >= s.len() {
        assert(joined_lines(seq![s]) == s);
        if s.last() == '\n' {
            lemma_line_len_bound(s, s.len() - 1);
        }
    } else {
        let first = s.take(n);
        let rest = s.skip(n + 1);
        assert(s.skip(n)[0] == '\n');
        assert(lines_of(s) == seq![first] + lines_of(rest)) by {
            if s.skip(n).len() >= 2 {
                assert(s.skip(n)[1] == s[n + 1]);
            }
        }
        lemma_lines_joined(rest);
        if rest.len() == 0 {
            assert(lines_of(s) =~= seq![first]);
            assert(joined_lines(seq![first]) == first);
            assert(s.drop_last() =~= first);
        } else {
            lemma_joined_front(first, lines_of(rest));
            assert(first + "\n"@ + rest =~= s);
            if rest.last() == '\n' {
                assert(first + "\n"@ + rest.drop_last() =~= s.drop_last());
            }
        }
    }
}

/// A line ends at its first line feed.
proof fn lemma_line_len_bound(s: Seq<char>, at: int)
    requires
        0 <= at < s.len(),
        s[at] == '\n',
    ensures
        line_len(s) <= at,
    decreases s.len(),
{
    if s[0] != '\r' && s[0] != '\n' {
        lemma_line_len_bound(s.skip(1), at - 1);
    }
}

/// A text that was saved and is opened again is the same text, if it ends with
/// one line feed and holds no carriage returns. (Of several line feeds at the
/// end the last is dropped.)
pub proof fn law_saved_text_reads_back(text: Seq<char>)
    requires
        text.len() > 0,
        text.last() == '\n',
        text.len() > 1 ==> text[text.len() - 2] != '\n',
        forall|i: int| 0 <= i < text.len() ==> text[i] != '\r',
    ensures
        loaded_text(text) == text,
{
    lemma_lines_joined(text);
    let t = text.drop_last();
    if text.len() > 1 {
        assert(t.last() == text[text.len() - 2]);
    }
    assert(t.push('\n') =~= text);
}

/// A tab that is saved, and whose file is then opened elsewhere, has the same
/// text there.
pub proof fn law_saved_tab_reads_back(
    m: AppModel,
    n: AppModel,
    o: Outside,
    path: FilePath,
    text: String,
)
    requires
        m.effect(Msg::SaveFile, o) matches EffectModel::SaveText { text: written, .. }
            && written == text@,
        text@.len() > 0,
        text@.last() == '\n',
        text@.len() > 1 ==> text@[text@.len() - 2] != '\n',
        forall|i: int| 0 <= i < text@.len() ==> text@[i] != '\r',
        first_tab_of(n.editor.tabs, path@, 0) is None,
    ensures
        n.next(Msg::FilePicked(Some((path, text))), o).editor.tab().content.text
            == m.editor.tab().content.text,
        !n.next(Msg::FilePicked(Some((path, text))), o).editor.tab().dirty,
{
    law_saved_text_reads_back(text@);
    let e = n.next(Msg::FilePicked(Some((path, text))), o).editor;
    assert(e == n.editor.file_opened(path@, text@));
    assert(same_tab(e.tab(), file_tab(path@, text@)));
}

// ---------------------------------------------------------------------------
// Settings, tooltips and diagnostics
// ---------------------------------------------------------------------------

/// Whatever changes the settings has them stored.
pub proof fn law_every_change_is_stored(m: AppModel, o: Outside, msg: Msg)
    requires
        m.next(msg, o).config != m.config,
    ensures
        m.effect(msg, o).saves_config(),
{
}

/// The settings are stored on leaving.
pub proof fn law_quitting_stores_settings(m: AppModel, o: Outside)
    ensures
        m.effect(Msg::Quit, o) is SaveConfigAndExit,
        m.next(Msg::Quit, o) == m,
{
}

/// A tooltip that comes or goes changes nothing else.
pub proof fn law_tooltip_changes_nothing_else(m: AppModel, o: Outside, tip: String)
    ensures
        m.next(Msg::TooltipShow(tip), o).next(Msg::TooltipHide, o) == (AppModel {
            tooltip: None,
            ..m
        }),
        m.effect(Msg::TooltipShow(tip), o) is Nothing,
        m.effect(Msg::TooltipHide, o) is Nothing,
{
}

/// Showing a diagnostic leads to the editor, to a tab with the file, and to its
/// line and column; the line is marked from then on.
pub proof fn law_diagnostic_leads_to_its_line(
    m: AppModel,
    o: Outside,
    path: FilePath,
    text: String,
    line: usize,
    col: usize,
    level: DiagnosticLevel,
)
    requires
        m.editor.wf(),
        same_path(path@, path@),
    ensures
        ({
            let msg = Msg::DiagnosticFileLoaded(Some((path, text, line, col, level)));
            let after = m.next(msg, o);
            &&& after.page is Editor
            &&& after.editor.tab().path is Some
            &&& same_path(after.editor.tab().path->0, path@)
            &&& after.editor.highlight == Some(below(line as nat))
            &&& after.editor.tab().content == m.editor.file_opened(path@, text@).tab().content.asked(
                goto_requests(below(line as nat), below(col as nat)),
            )
            &&& m.effect(msg, o) == EffectModel::ScrollEditorTo(below(line as nat))
            &&& after.editor.tab().has_error_on(below(line as nat) as usize)
        }),
{
    let opened = m.editor.file_opened(path@, text@);
    law_file_opened_once(m.editor, path@, text@, text@);
    let msg = Msg::DiagnosticFileLoaded(Some((path, text, line, col, level)));
    let after = m.next(msg, o);
    assert(after == m.diagnostic_shown(path@, text@, line, col, level));
    let tab = after.editor.tab();
    let l = below(line as nat) as usize;
    assert(after.editor.active == opened.active);
    assert(tab.path == opened.tab().path);
    let (message, error_code) = m.log.about(path@, line);
    let error = EditorErrorModel { line: l, column: col, level, message, error_code };
    assert(tab.errors == opened.tab().with_error(error).errors);
    if opened.tab().has_error_on(l) {
        let i = choose|i: int|
            0 <= i < opened.tab().errors.len() && (#[trigger] opened.tab().errors[i]).line == l;
        assert(tab.errors[i].line == l);
    } else {
        assert(tab.errors[opened.tab().errors.len() as int].line == l);
    }
}

} // verus!
