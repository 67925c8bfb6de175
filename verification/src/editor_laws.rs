//! What the messages about the editor do: finding, replacing, tabs and files.

use vstd::prelude::*;

use crate::app::{AppModel, Outside};
use crate::content::{
    goto_requests, loaded_text, Action, ContentModel, CursorStep, Edit, Request,
};
use crate::diagnostics::{DiagnosticLevel, EditorErrorModel};
use crate::editor::{
    below, file_tab, first_tab_of, next_match, previous_match, untitled_tab, EditorModel, TabModel,
};
use crate::laws::matches_up_to_date;
use crate::message::{EffectModel, Msg, Page};
use crate::output::OutputModel;
use crate::paths::{name_or, same_path, FilePath, PathModel};
use crate::search::{
    all_matches, last_line_len, law_match_lines, match_lines, newlines, replaced_all,
};
use crate::strings::decimal;

verus! {

// ---------------------------------------------------------------------------
// Being at a match
// ---------------------------------------------------------------------------

/// Whether `after` is `before` followed by the motions that bring the cursor to
/// position `at` of `text`, from wherever it is: to the start, down to the
/// line, to the line's start, and along it.
pub open spec fn leads_to(
    before: Seq<Request>,
    after: Seq<Request>,
    text: Seq<char>,
    at: int,
    selected: nat,
) -> bool {
    walks(before, after, newlines(text.take(at)), last_line_len(text.take(at)), selected)
}

/// Whether `after` is `before` followed by the motions to a line and a column,
/// both counted from 0, and by the selection of the characters behind it.
pub open spec fn walks(
    before: Seq<Request>,
    after: Seq<Request>,
    line: nat,
    column: nat,
    selected: nat,
) -> bool {
    let n = before.len() as int;
    &&& after.len() == n + 1 + line + 1 + column + selected
    &&& forall|i: int| 0 <= i < n ==> after[i] == #[trigger] before[i]
    &&& forall|i: int|
        n <= i < after.len() ==> #[trigger] after[i] == Request::Step(
            if i == n {
                CursorStep::DocumentStart
            } else if i <= n + line {
                CursorStep::Down
            } else if i == n + line + 1 {
                CursorStep::Home
            } else if i < n + line + 2 + column {
                CursorStep::Right
            } else {
                CursorStep::SelectRight
            },
        )
}

proof fn lemma_walks(before: Seq<Request>, line: nat, column: nat, needle: Seq<char>)
    ensures
        walks(before, before + goto_requests(line, column), line, column, 0),
        walks(
            before,
            before + (goto_requests(line, column) + crate::content::repeated(
                CursorStep::SelectRight,
                needle.len(),
            )),
            line,
            column,
            needle.len(),
        ),
{
}

/// Whether the shown tab, with the content `before`, is now at the `k`-th
/// match: the panel knows the line of each match, the line of this one is
/// marked, the status names it, and the cursor was sent there and over it.
pub open spec fn stands_at(before: ContentModel, after: EditorModel, k: int) -> bool {
    let found = all_matches(before.text, after.find_text);
    let line = newlines(before.text.take(found[k]));
    &&& 0 <= k < found.len()
    &&& after.current == k
    &&& after.lines.len() == found.len()
    &&& forall|j: int|
        0 <= j < found.len() ==> #[trigger] after.lines[j] == newlines(before.text.take(found[j]))
    &&& after.highlight == Some(line)
    &&& after.status == "Treffer "@ + decimal((k + 1) as nat) + " von "@ + decimal(found.len())
        + " \u{2014} Zeile "@ + decimal(line + 1)
    &&& after.tab().content.text == before.text
    &&& leads_to(
        before.requests,
        after.tab().content.requests,
        before.text,
        found[k],
        after.find_text.len(),
    )
}

/// Whether two editors differ at most in the content of the shown tab.
pub open spec fn only_content_changed(before: EditorModel, after: EditorModel) -> bool {
    after == (EditorModel {
        tabs: before.tabs.update(
            before.active as int,
            TabModel { content: after.tabs[before.active as int].content, ..before.tab() },
        ),
        ..before
    })
}

/// Whether two editors differ at most in where the find panel and the cursor of
/// the shown tab are.
pub open spec fn only_search_moved(before: EditorModel, after: EditorModel) -> bool {
    after == (EditorModel {
        tabs: before.tabs.update(
            before.active as int,
            TabModel { content: after.tabs[before.active as int].content, ..before.tab() },
        ),
        current: after.current,
        lines: after.lines,
        highlight: after.highlight,
        status: after.status,
        ..before
    })
}

/// What is asked for when a line is marked: that it be scrolled to.
pub open spec fn scrolled(highlight: Option<nat>) -> EffectModel {
    match highlight {
        Some(line) => EffectModel::ScrollEditorTo(line),
        None => EffectModel::Nothing,
    }
}

proof fn lemma_at_match(e: EditorModel, k: nat)
    requires
        e.active < e.tabs.len(),
        e.lines == match_lines(e.tab().content.text, e.find_text),
        k < e.lines.len(),
    ensures
        stands_at(e.tab().content, e.at_match(k), k as int),
        only_search_moved(e, e.at_match(k)),
        e.at_match(k).lines == e.lines,
{
    let text = e.tab().content.text;
    let found = all_matches(text, e.find_text);
    let after = e.at_match(k);
    law_match_lines(text, e.find_text);
    lemma_walks(
        e.tab().content.requests,
        newlines(text.take(found[k as int])),
        last_line_len(text.take(found[k as int])),
        e.find_text,
    );
    assert(after.tabs[e.active as int] == after.tab());
    assert(after.tabs =~= e.tabs.update(
        e.active as int,
        TabModel { content: after.tab().content, ..e.tab() },
    ));
}

// ---------------------------------------------------------------------------
// Finding
// ---------------------------------------------------------------------------

/// A step forward leads to the match behind the current one, and from the last
/// to the first; a step back leads to the match in front of it, and from the
/// first to the last. The one undoes the other.
#[verifier::rlimit(40)]
pub proof fn law_steps_move_by_one(m: AppModel, o: Outside)
    requires
        m.editor.active < m.editor.tabs.len(),
        m.editor.open,
        m.editor.find_text.len() > 0,
        m.editor.lines.len() > 0,
        m.editor.current < m.editor.lines.len(),
        matches_up_to_date(m.editor),
    ensures
        ({
            let total = m.editor.lines.len();
            let at = m.editor.current;
            &&& m.next(Msg::FindNext, o).editor.current == if at + 1 < total {
                at + 1
            } else {
                0
            }
            &&& m.next(Msg::FindPrev, o).editor.current == if at > 0 {
                at - 1
            } else {
                total - 1
            }
            &&& m.next(Msg::FindNext, o).next(Msg::FindPrev, o).editor.current == at
            &&& m.next(Msg::FindPrev, o).next(Msg::FindNext, o).editor.current == at
        }),
{
    lemma_next_current(m, o);
    lemma_next_current(m.next(Msg::FindNext, o), o);
    lemma_next_current(m.next(Msg::FindPrev, o), o);
}

/// Whether the find panel is open and at one of the matches in the shown tab.
spec fn at_some_match(e: EditorModel) -> bool {
    &&& e.active < e.tabs.len()
    &&& e.open
    &&& e.find_text.len() > 0
    &&& e.lines.len() > 0
    &&& e.current < e.lines.len()
    &&& matches_up_to_date(e)
}

proof fn lemma_next_current(m: AppModel, o: Outside)
    requires
        at_some_match(m.editor),
    ensures
        at_some_match(m.next(Msg::FindNext, o).editor),
        at_some_match(m.next(Msg::FindPrev, o).editor),
        m.next(Msg::FindNext, o).editor.lines.len() == m.editor.lines.len(),
        m.next(Msg::FindPrev, o).editor.lines.len() == m.editor.lines.len(),
        m.next(Msg::FindNext, o).editor.current == if m.editor.current + 1 < m.editor.lines.len() {
            m.editor.current + 1
        } else {
            0
        },
        m.next(Msg::FindPrev, o).editor.current == if m.editor.current > 0 {
            m.editor.current - 1
        } else {
            m.editor.lines.len() - 1
        },
{
    lemma_step_current(m.editor, true);
    lemma_step_current(m.editor, false);
}

proof fn lemma_step_current(e: EditorModel, forward: bool)
    requires
        e.active < e.tabs.len(),
        e.open,
        e.find_text.len() > 0,
        e.lines.len() > 0,
        e.current < e.lines.len(),
        matches_up_to_date(e),
    ensures
        forward ==> e.stepped(forward).current == if e.current + 1 < e.lines.len() {
            e.current + 1
        } else {
            0
        },
        !forward ==> e.stepped(forward).current == if e.current > 0 {
            e.current - 1
        } else {
            e.lines.len() - 1
        },
        e.stepped(forward).lines.len() == e.lines.len(),
        e.stepped(forward).open,
        e.stepped(forward).find_text.len() > 0,
        e.stepped(forward).active < e.stepped(forward).tabs.len(),
        matches_up_to_date(e.stepped(forward)),
{
    lemma_stepped(e, forward);
}

/// A step brings the panel, the mark, the status and the cursor to the match
/// reached, whose line is scrolled to; nothing else changes.
pub proof fn law_a_step_shows_the_match(m: AppModel, o: Outside, msg: Msg)
    requires
        msg is FindNext || msg is FindPrev,
        m.editor.active < m.editor.tabs.len(),
        m.editor.open,
        m.editor.find_text.len() > 0,
        m.editor.lines.len() > 0,
        m.editor.current < m.editor.lines.len(),
        matches_up_to_date(m.editor),
    ensures
        ({
            let after = m.next(msg, o);
            &&& stands_at(m.editor.tab().content, after.editor, after.editor.current as int)
            &&& only_search_moved(m.editor, after.editor)
            &&& after == (AppModel { editor: after.editor, ..m })
            &&& m.effect(msg, o) == scrolled(after.editor.highlight)
        }),
{
    lemma_stepped(m.editor, msg is FindNext);
}

proof fn lemma_stepped(e: EditorModel, forward: bool)
    requires
        e.active < e.tabs.len(),
        e.open,
        e.find_text.len() > 0,
        e.lines.len() > 0,
        e.current < e.lines.len(),
        matches_up_to_date(e),
    ensures
        ({
            let after = e.stepped(forward);
            let total = e.lines.len();
            &&& forward ==> after.current == if e.current + 1 < total {
                e.current + 1
            } else {
                0
            }
            &&& !forward ==> after.current == if e.current > 0 {
                e.current - 1
            } else {
                total - 1
            }
            &&& stands_at(e.tab().content, after, after.current as int)
            &&& only_search_moved(e, after)
            &&& after.lines == e.lines
            &&& EffectModel::scroll(e.step_target(forward)) == scrolled(after.highlight)
            &&& after.active < after.tabs.len()
            &&& matches_up_to_date(after)
        }),
{
    let total = e.lines.len();
    crate::laws::law_next_and_previous_undo_each_other(e.current, total);
    assert((e.current + 1) % total == if e.current + 1 < total {
        e.current + 1
    } else {
        0nat
    }) by (nonlinear_arith)
        requires
            e.current < total,
    ;
    if forward {
        lemma_at_match(e, next_match(e.current, total));
    } else {
        lemma_at_match(e, previous_match(e.current, total));
    }
}

/// Where nothing was found, a step says so and marks nothing; where nothing is
/// looked for, it does nothing.
pub proof fn law_steps_without_matches(m: AppModel, o: Outside, msg: Msg)
    requires
        msg is FindNext || msg is FindPrev,
    ensures
        m.editor.open && m.editor.find_text.len() > 0 && m.editor.lines.len() == 0 ==> m.next(
            msg,
            o,
        ) == (AppModel {
            editor: EditorModel { status: "Keine Treffer"@, highlight: None, ..m.editor },
            ..m
        }) && m.effect(msg, o) is Nothing,
        m.editor.find_text.len() == 0 || !m.editor.open ==> m.next(msg, o) == m && m.effect(
            msg,
            o,
        ) is Nothing,
{
}

/// Looking for another text leads to its first match in the shown tab; without
/// one nothing is marked, and the status says so unless nothing is looked for.
pub proof fn law_search_starts_at_the_first_match(m: AppModel, o: Outside, text: String)
    requires
        m.editor.active < m.editor.tabs.len(),
    ensures
        ({
            let after = m.next(Msg::FindTextChanged(text), o);
            let found = all_matches(m.editor.tab().content.text, text@);
            &&& after.editor.find_text == text@
            &&& found.len() > 0 ==> stands_at(m.editor.tab().content, after.editor, 0)
            &&& found.len() > 0 ==> only_search_moved(
                EditorModel { find_text: text@, ..m.editor },
                after.editor,
            )
            &&& found.len() == 0 ==> after.editor == (EditorModel {
                find_text: text@,
                current: 0,
                lines: Seq::empty(),
                highlight: None,
                status: if text@.len() == 0 {
                    Seq::empty()
                } else {
                    "Keine Treffer"@
                },
                ..m.editor
            })
            &&& after == (AppModel { editor: after.editor, ..m })
            &&& m.effect(Msg::FindTextChanged(text), o) == scrolled(after.editor.highlight)
        }),
{
    let lines = match_lines(m.editor.tab().content.text, text@);
    let after = m.next(Msg::FindTextChanged(text), o);
    law_match_lines(m.editor.tab().content.text, text@);
    if lines.len() > 0 {
        lemma_at_match(EditorModel { find_text: text@, current: 0, lines, ..m.editor }, 0);
    } else {
        assert(lines =~= Seq::empty());
    }
}

/// The find panel opens and closes as asked, with replacing or without; closing
/// it forgets the matches. From other pages it cannot be opened.
pub proof fn law_find_panel_opens_and_closes(m: AppModel, o: Outside, text: String)
    ensures
        ({
            let closed = AppModel {
                editor: EditorModel {
                    open: false,
                    status: Seq::empty(),
                    highlight: None,
                    lines: Seq::empty(),
                    ..m.editor
                },
                ..m
            };
            let find = AppModel {
                editor: EditorModel { open: true, show_replace: false, ..m.editor },
                ..m
            };
            let replace = AppModel {
                editor: EditorModel { open: true, show_replace: true, ..m.editor },
                ..m
            };
            &&& m.next(Msg::ToggleFindReplace, o) == if m.editor.open {
                closed
            } else {
                find
            }
            &&& m.next(Msg::CloseInlineFind, o) == if m.editor.open {
                closed
            } else {
                m
            }
            &&& m.next(Msg::OpenInlineFind, o) == if m.page is Editor {
                find
            } else {
                m
            }
            &&& m.next(Msg::OpenInlineReplace, o) == if m.page is Editor {
                replace
            } else {
                m
            }
            &&& m.next(Msg::ToggleReplaceField, o) == (AppModel {
                editor: EditorModel { show_replace: !m.editor.show_replace, ..m.editor },
                ..m
            })
            &&& m.next(Msg::ReplaceTextChanged(text), o) == (AppModel {
                editor: EditorModel { replace_text: text@, ..m.editor },
                ..m
            })
            &&& m.effect(Msg::ToggleFindReplace, o) is Nothing
            &&& m.effect(Msg::CloseInlineFind, o) is Nothing
            &&& m.effect(Msg::OpenInlineFind, o) is Nothing
            &&& m.effect(Msg::OpenInlineReplace, o) is Nothing
            &&& m.effect(Msg::ToggleReplaceField, o) is Nothing
            &&& m.effect(Msg::ReplaceTextChanged(text), o) is Nothing
        }),
{
}

// ---------------------------------------------------------------------------
// Replacing
// ---------------------------------------------------------------------------

/// Whether `after` is `before` with another text in the shown tab, which is not
/// saved yet, and with the find panel elsewhere.
pub open spec fn only_text_replaced(before: EditorModel, after: EditorModel) -> bool {
    after == (EditorModel {
        tabs: before.tabs.update(
            before.active as int,
            TabModel {
                content: after.tabs[before.active as int].content,
                dirty: true,
                ..before.tab()
            },
        ),
        current: after.current,
        lines: after.lines,
        highlight: after.highlight,
        status: after.status,
        ..before
    })
}

/// Replacing one match replaces the current one, wherever it is in the list,
/// and leaves all other text as it is. The panel stays at the same place of the
/// list of what still matches, and goes on from the start behind the end.
pub proof fn law_replace_one_replaces_the_current_match(m: AppModel, o: Outside)
    requires
        m.editor.active < m.editor.tabs.len(),
        m.editor.find_text.len() > 0,
        m.editor.current < all_matches(m.editor.tab().content.text, m.editor.find_text).len(),
    ensures
        ({
            let text = m.editor.tab().content.text;
            let p = all_matches(text, m.editor.find_text)[m.editor.current as int];
            let new = loaded_text(
                text.take(p) + m.editor.replace_text + text.skip(p + m.editor.find_text.len()),
            );
            let left = all_matches(new, m.editor.find_text);
            let after = m.next(Msg::ReplaceOne, o);
            &&& after.editor.tab().content.text == new
            &&& after.editor.tab().dirty
            &&& only_text_replaced(m.editor, after.editor)
            &&& after == (AppModel { editor: after.editor, ..m })
            &&& left.len() == 0 ==> after.editor.current == 0 && after.editor.lines.len() == 0
                && after.editor.highlight is None && after.editor.status == "Keine Treffer"@
                && after.editor.tab().content.requests.len() == 0
            &&& left.len() > 0 ==> stands_at(
                ContentModel { text: new, requests: Seq::empty() },
                after.editor,
                m.editor.current as int % left.len() as int,
            )
            &&& m.effect(Msg::ReplaceOne, o) == scrolled(after.editor.highlight)
        }),
{
    let e = m.editor;
    let text = e.tab().content.text;
    let found = all_matches(text, e.find_text);
    vstd::arithmetic::div_mod::lemma_small_mod(e.current, found.len());
    lemma_one_replaced(e);
}

proof fn lemma_one_replaced(e: EditorModel)
    requires
        e.active < e.tabs.len(),
        e.find_text.len() > 0,
        all_matches(e.tab().content.text, e.find_text).len() > 0,
    ensures
        ({
            let text = e.tab().content.text;
            let found = all_matches(text, e.find_text);
            let p = found[e.current as int % found.len() as int];
            let new = loaded_text(text.take(p) + e.replace_text + text.skip(p + e.find_text.len()));
            let left = all_matches(new, e.find_text);
            let after = e.one_replaced();
            &&& after.tab().content.text == new
            &&& after.tab().dirty
            &&& only_text_replaced(e, after)
            &&& left.len() == 0 ==> after.current == 0 && after.lines.len() == 0
                && after.highlight is None && after.status == "Keine Treffer"@
                && after.tab().content.requests.len() == 0
            &&& left.len() > 0 ==> stands_at(
                ContentModel { text: new, requests: Seq::empty() },
                after,
                e.current as int % left.len() as int,
            )
            &&& EffectModel::scroll(e.replace_target()) == scrolled(after.highlight)
        }),
{
    let text = e.tab().content.text;
    let found = all_matches(text, e.find_text);
    let p = found[e.current as int % found.len() as int];
    let raw = text.take(p) + e.replace_text + text.skip(p + e.find_text.len());
    assert(e.one_replacement() == Some(raw));
    let changed = e.rewritten(raw);
    let new = changed.tab().content.text;
    let lines = match_lines(new, e.find_text);
    let with_lines = EditorModel { lines, ..changed };
    let after = e.one_replaced();
    law_match_lines(new, e.find_text);
    assert(changed.tabs[e.active as int] == changed.tab());
    if lines.len() > 0 {
        let k = e.current % lines.len();
        lemma_at_match(with_lines, k);
        assert(with_lines.tab() == changed.tab());
        assert(after.tabs =~= e.tabs.update(
            e.active as int,
            TabModel {
                content: after.tabs[e.active as int].content,
                dirty: true,
                ..e.tab()
            },
        ));
    } else {
        assert(after.tabs =~= e.tabs.update(
            e.active as int,
            TabModel {
                content: after.tabs[e.active as int].content,
                dirty: true,
                ..e.tab()
            },
        ));
    }
}

/// Where the panel is behind the last match of a text that changed meanwhile,
/// replacing one match counts on from the first.
pub proof fn law_replace_one_counts_on_from_the_first(m: AppModel, n: AppModel, o: Outside)
    requires
        m.editor.active < m.editor.tabs.len(),
        m.editor.find_text.len() > 0,
        m.editor.current >= all_matches(m.editor.tab().content.text, m.editor.find_text).len() > 0,
        n == (AppModel {
            editor: EditorModel {
                current: (m.editor.current - all_matches(
                    m.editor.tab().content.text,
                    m.editor.find_text,
                ).len()) as nat,
                ..m.editor
            },
            ..m
        }),
    ensures
        m.next(Msg::ReplaceOne, o).editor.tab().content.text == n.next(
            Msg::ReplaceOne,
            o,
        ).editor.tab().content.text,
{
    let total = all_matches(m.editor.tab().content.text, m.editor.find_text).len();
    vstd::arithmetic::div_mod::lemma_mod_sub_multiples_vanish(
        m.editor.current as int,
        total as int,
    );
    lemma_one_replaced(m.editor);
    lemma_one_replaced(n.editor);
}

/// Replacing all matches replaces each of them, says how many there were, and
/// leaves nothing marked.
pub proof fn law_replace_all_replaces_every_match(m: AppModel, o: Outside)
    requires
        m.editor.active < m.editor.tabs.len(),
        all_matches(m.editor.tab().content.text, m.editor.find_text).len() > 0,
    ensures
        ({
            let e = m.editor;
            let text = e.tab().content.text;
            let after = m.next(Msg::ReplaceAll, o);
            &&& after.editor.tab().content.text == loaded_text(
                replaced_all(text, e.find_text, e.replace_text),
            )
            &&& after.editor.tab().content.requests.len() == 0
            &&& only_text_replaced(e, after.editor)
            &&& after.editor.current == 0
            &&& after.editor.lines.len() == 0
            &&& after.editor.highlight is None
            &&& after.editor.status == decimal(all_matches(text, e.find_text).len()) + " ersetzt"@
            &&& after == (AppModel { editor: after.editor, ..m })
            &&& m.effect(Msg::ReplaceAll, o) is Nothing
        }),
{
    let e = m.editor;
    let after = m.next(Msg::ReplaceAll, o).editor;
    assert(after.tabs[e.active as int] == after.tab());
}

/// Where nothing matches, replacing says so and changes no text; where nothing
/// is looked for, it does nothing.
pub proof fn law_replacing_without_matches(m: AppModel, o: Outside, msg: Msg)
    requires
        msg is ReplaceOne || msg is ReplaceAll,
        all_matches(m.editor.tab().content.text, m.editor.find_text).len() == 0,
        matches_up_to_date(m.editor),
    ensures
        m.editor.find_text.len() > 0 ==> m.next(msg, o) == (AppModel {
            editor: EditorModel { status: "Keine Treffer"@, ..m.editor },
            ..m
        }),
        m.editor.find_text.len() == 0 ==> m.next(msg, o) == m,
        m.effect(msg, o) is Nothing,
        m.accepts(msg, o),
{
    law_match_lines(m.editor.tab().content.text, m.editor.find_text);
}

// ---------------------------------------------------------------------------
// Tabs
// ---------------------------------------------------------------------------

/// Whether the shown tab of `after`, which has the content `content`, came on
/// view in `before`: the panel is as near as it can be to the match it was at,
/// or knows of none.
pub open spec fn comes_on_view(
    before: EditorModel,
    after: EditorModel,
    content: ContentModel,
) -> bool {
    let found = if before.open {
        all_matches(content.text, before.find_text)
    } else {
        Seq::empty()
    };
    &&& after.open == before.open
    &&& after.show_replace == before.show_replace
    &&& after.find_text == before.find_text
    &&& after.replace_text == before.replace_text
    &&& found.len() == 0 ==> {
        &&& after.lines.len() == 0
        &&& after.current == 0
        &&& after.highlight is None
        &&& after.tab().content == content
        &&& after.status == if before.find_text.len() == 0 {
            Seq::empty()
        } else {
            "Keine Treffer"@
        }
    }
    &&& found.len() > 0 ==> stands_at(
        content,
        after,
        if before.current < found.len() {
            before.current as int
        } else {
            found.len() - 1
        },
    )
}

proof fn lemma_refreshed(e: EditorModel)
    requires
        e.active < e.tabs.len(),
    ensures
        comes_on_view(e, e.refreshed(), e.tab().content),
        only_search_moved(e, e.refreshed()),
{
    let text = e.tab().content.text;
    let lines = match_lines(text, e.find_text);
    law_match_lines(text, e.find_text);
    let found = all_matches(text, e.find_text);
    let searched = EditorModel { highlight: None, lines, ..e };
    if e.open && e.find_text.len() > 0 && lines.len() > 0 {
        if e.current < lines.len() {
            lemma_at_match(searched, e.current);
        } else {
            lemma_at_match(searched, (lines.len() - 1) as nat);
        }
        assert(searched.tab() == e.tab());
    } else {
        assert(e.refreshed().tabs =~= e.tabs.update(e.active as int, e.tab()));
        if e.find_text.len() == 0 {
            assert(found.len() == 0);
        }
    }
}

/// Asking for another tab shows that tab, with its own matches; no tab changes
/// but for the cursor of the one shown. A tab that is not there is not shown.
pub proof fn law_the_tab_asked_for_is_shown(m: AppModel, o: Outside, i: usize)
    requires
        i != m.editor.active,
    ensures
        ({
            let after = m.next(Msg::TabSelect(i), o);
            let e = after.editor;
            &&& i < m.editor.tabs.len() ==> {
                &&& e.active == i
                &&& comes_on_view(m.editor, e, m.editor.tabs[i as int].content)
                &&& only_search_moved(EditorModel { active: i as nat, ..m.editor }, e)
                &&& after == (AppModel { editor: e, ..m })
                &&& m.effect(Msg::TabSelect(i), o) == scrolled(e.highlight)
            }
            &&& i >= m.editor.tabs.len() ==> after == m && m.effect(
                Msg::TabSelect(i),
                o,
            ) is Nothing
        }),
{
    if i < m.editor.tabs.len() {
        lemma_refreshed(EditorModel { active: i as nat, ..m.editor });
    }
}

/// A new tab stands behind the others and is shown: it is empty and numbered
/// on. The other tabs stay as they are.
pub proof fn law_new_tab_stands_behind_the_others(m: AppModel, o: Outside)
    ensures
        ({
            let after = m.next(Msg::TabNew, o);
            let e = after.editor;
            let n = m.editor.tabs.len() as int;
            &&& e.tabs.len() == n + 1
            &&& forall|j: int| 0 <= j < n ==> #[trigger] e.tabs[j] == m.editor.tabs[j]
            &&& e.active == n
            &&& e.untitled_counter == m.editor.untitled_counter + 1
            &&& e.tab().title == "Untitled-"@ + decimal(m.editor.untitled_counter + 1)
            &&& e.tab().path is None
            &&& !e.tab().dirty
            &&& e.tab().errors.len() == 0
            &&& comes_on_view(
                m.editor,
                e,
                ContentModel { text: loaded_text(Seq::empty()), requests: Seq::empty() },
            )
            &&& after == (AppModel { editor: e, ..m })
            &&& m.effect(Msg::TabNew, o) == scrolled(e.highlight)
        }),
{
    let e = m.editor;
    let opened = EditorModel {
        tabs: e.tabs.push(untitled_tab(e.untitled_counter)),
        active: e.tabs.len(),
        untitled_counter: e.untitled_counter + 1,
        ..e
    };
    lemma_refreshed(opened);
    assert(opened.tab() == untitled_tab(e.untitled_counter));
}

/// Opening a file that a tab shows already is asking for that tab, the first of
/// them; what was read is not used.
pub proof fn law_open_file_is_shown_again(
    m: AppModel,
    o: Outside,
    path: FilePath,
    text: String,
    i: usize,
)
    requires
        i < m.editor.tabs.len(),
        m.editor.tabs[i as int].path matches Some(p) && same_path(p, path@),
        forall|j: int|
            0 <= j < i ==> !((#[trigger] m.editor.tabs[j]).path matches Some(p) && same_path(
                p,
                path@,
            )),
    ensures
        m.next(Msg::FilePicked(Some((path, text))), o) == m.next(Msg::TabSelect(i), o),
        m.effect(Msg::FilePicked(Some((path, text))), o) == m.effect(Msg::TabSelect(i), o),
        m.accepts(Msg::FilePicked(Some((path, text))), o),
{
    lemma_first_tab(m.editor.tabs, path@, 0, i as int);
}

proof fn lemma_first_tab(tabs: Seq<TabModel>, path: PathModel, from: int, i: int)
    requires
        0 <= from <= i < tabs.len(),
        tabs[i].path matches Some(p) && same_path(p, path),
        forall|j: int|
            0 <= j < i ==> !((#[trigger] tabs[j]).path matches Some(p) && same_path(p, path)),
    ensures
        first_tab_of(tabs, path, from) == Some(i as nat),
    decreases i - from,
{
    if from < i {
        assert(!(tabs[from].path matches Some(p) && same_path(p, path)));
        lemma_first_tab(tabs, path, from + 1, i);
    }
}

proof fn lemma_no_tab(tabs: Seq<TabModel>, path: PathModel, from: int)
    requires
        0 <= from,
        forall|j: int|
            0 <= j < tabs.len() ==> !((#[trigger] tabs[j]).path matches Some(p) && same_path(
                p,
                path,
            )),
    ensures
        first_tab_of(tabs, path, from) is None,
    decreases tabs.len() - from,
{
    if from < tabs.len() {
        assert(!(tabs[from].path matches Some(p) && same_path(p, path)));
        lemma_no_tab(tabs, path, from + 1);
    }
}

/// A file that no tab shows gets a tab behind the others, which is shown: it has
/// the file's name for its title, and the text that was read, saved.
pub proof fn law_other_file_gets_a_tab(m: AppModel, o: Outside, path: FilePath, text: String)
    requires
        forall|j: int|
            0 <= j < m.editor.tabs.len() ==> !((#[trigger] m.editor.tabs[j]).path matches Some(p)
                && same_path(p, path@)),
    ensures
        ({
            let msg = Msg::FilePicked(Some((path, text)));
            let after = m.next(msg, o);
            let e = after.editor;
            let n = m.editor.tabs.len() as int;
            &&& e.tabs.len() == n + 1
            &&& forall|j: int| 0 <= j < n ==> #[trigger] e.tabs[j] == m.editor.tabs[j]
            &&& e.active == n
            &&& e.untitled_counter == m.editor.untitled_counter
            &&& e.tab().title == name_or(path@, "Unbekannt"@)
            &&& e.tab().path == Some(path@)
            &&& !e.tab().dirty
            &&& e.tab().errors.len() == 0
            &&& comes_on_view(
                m.editor,
                e,
                ContentModel { text: loaded_text(text@), requests: Seq::empty() },
            )
            &&& after == (AppModel { editor: e, ..m })
            &&& m.effect(msg, o) == scrolled(e.highlight)
            &&& m.next(Msg::FilePicked(None), o) == m
            &&& m.effect(Msg::FilePicked(None), o) is Nothing
            &&& m.next(Msg::OpenFile, o) == m
            &&& m.effect(Msg::OpenFile, o) is PickFile
        }),
{
    let e = m.editor;
    lemma_no_tab(e.tabs, path@, 0);
    let opened = EditorModel {
        tabs: e.tabs.push(file_tab(path@, text@)),
        active: e.tabs.len(),
        ..e
    };
    lemma_refreshed(opened);
    assert(opened.tab() == file_tab(path@, text@));
}

/// Closing a tab takes that tab out and no other. The tab shown then is the one
/// at the same place, or the last one; where it was on view already, the panel
/// stays as it is.
pub proof fn law_the_tab_asked_for_is_closed(m: AppModel, o: Outside, i: usize)
    requires
        m.editor.active < m.editor.tabs.len(),
        m.editor.tabs.len() > 1,
        i < m.editor.tabs.len(),
    ensures
        ({
            let n = m.editor.tabs.len() as int;
            let active = m.editor.active as int;
            let left = m.editor.tabs.remove(i as int);
            let after = m.next(Msg::TabClose(i), o);
            let e = after.editor;
            &&& e.active == if active == n - 1 {
                n - 2
            } else {
                active
            }
            &&& e.untitled_counter == m.editor.untitled_counter
            &&& i > active || i < active == n - 1 ==> {
                &&& e == (EditorModel { tabs: left, active: e.active, ..m.editor })
                &&& m.effect(Msg::TabClose(i), o) is Nothing
                &&& left[e.active as int] == m.editor.tab()
            }
            &&& !(i > active || i < active == n - 1) ==> {
                &&& comes_on_view(m.editor, e, left[e.active as int].content)
                &&& only_search_moved(EditorModel { tabs: left, active: e.active, ..m.editor }, e)
                &&& m.effect(Msg::TabClose(i), o) == scrolled(e.highlight)
            }
            &&& after == (AppModel { editor: e, ..m })
        }),
{
    let e = m.editor;
    let closed = EditorModel {
        tabs: e.tabs.remove(i as int),
        active: if e.active >= e.tabs.len() - 1 {
            (e.tabs.len() - 2) as nat
        } else {
            e.active
        },
        ..e
    };
    lemma_refreshed(closed);
}

/// Closing the only tab leaves an empty one, numbered on.
pub proof fn law_the_only_tab_is_replaced(m: AppModel, o: Outside, i: usize)
    requires
        m.editor.active == 0,
        m.editor.tabs.len() == 1,
    ensures
        ({
            let after = m.next(Msg::TabClose(i), o);
            let e = after.editor;
            &&& e.tabs.len() == 1 && e.active == 0
            &&& e.untitled_counter == m.editor.untitled_counter + 1
            &&& e.tab().title == "Untitled-"@ + decimal(m.editor.untitled_counter + 1)
            &&& e.tab().path is None
            &&& !e.tab().dirty
            &&& e.tab().errors.len() == 0
            &&& comes_on_view(
                m.editor,
                e,
                ContentModel { text: loaded_text(Seq::empty()), requests: Seq::empty() },
            )
            &&& after == (AppModel { editor: e, ..m })
            &&& m.effect(Msg::TabClose(i), o) == scrolled(e.highlight)
        }),
{
    let e = m.editor;
    lemma_refreshed(
        EditorModel {
            tabs: e.tabs.update(0, untitled_tab(e.untitled_counter)),
            untitled_counter: e.untitled_counter + 1,
            ..e
        },
    );
}

// ---------------------------------------------------------------------------
// Editing and saving
// ---------------------------------------------------------------------------

/// What the user does in the editor is done in the shown tab and nowhere else.
/// An edit leaves the text that the widget makes of it, unsaved, and the
/// matches out of date; a motion leaves everything but the cursor.
pub proof fn law_acting_in_the_editor(m: AppModel, o: Outside, action: Action)
    requires
        m.editor.active < m.editor.tabs.len(),
    ensures
        ({
            let after = m.next(Msg::EditorAction(action), o);
            let e = after.editor;
            &&& after == (AppModel { editor: e, ..m })
            &&& m.effect(Msg::EditorAction(action), o) is Nothing
            &&& e.tab().content.requests == m.editor.tab().content.requests.push(
                Request::User(action),
            )
            &&& action is Navigate ==> {
                &&& e.tab().content.text == m.editor.tab().content.text
                &&& only_content_changed(m.editor, e)
            }
            &&& action is Edit ==> {
                &&& e.tab().content.text == (o.edited)(action->Edit_0)
                &&& only_text_replaced(m.editor, e)
                &&& e.lines.len() == 0
                &&& e.highlight is None
                &&& e.current == m.editor.current
                &&& e.status == m.editor.status
            }
        }),
{
    let after = m.next(Msg::EditorAction(action), o).editor;
    let before = m.editor;
    assert(after.tabs[before.active as int] == after.tab());
    assert(before.tab().content.requests.push(Request::User(action))
        =~= before.tab().content.requests + seq![Request::User(action)]);
}

/// The shown tab is what is saved, under its path if it has one. Nothing
/// changes until the file is written.
pub proof fn law_the_shown_tab_is_saved(m: AppModel, o: Outside)
    ensures
        m.next(Msg::SaveFile, o) == m,
        m.effect(Msg::SaveFile, o) == (EffectModel::SaveText {
            path: m.editor.tabs[m.editor.active as int].path,
            text: m.editor.tabs[m.editor.active as int].content.text,
        }),
{
}

/// Once written, the shown tab is saved and belongs to the file it was written
/// to, under its name; a tab that belonged to it keeps its title. The status
/// tells the path, or why the file could not be written.
pub proof fn law_saving_is_noted(m: AppModel, o: Outside, path: FilePath, reason: String)
    requires
        m.editor.active < m.editor.tabs.len(),
    ensures
        ({
            let after = m.next(Msg::SaveDone(Some(Ok(path))), o);
            let tab = m.editor.tab();
            let saved = after.editor.tab();
            &&& after.status == "Datei gespeichert: "@ + path@.text
            &&& !saved.dirty
            &&& saved.content == tab.content
            &&& saved.errors == tab.errors
            &&& (tab.path matches Some(p) && same_path(p, path@)) ==> saved.title == tab.title
                && saved.path == tab.path
            &&& !(tab.path matches Some(p) && same_path(p, path@)) ==> saved.title == name_or(
                path@,
                "Unbekannt"@,
            ) && saved.path == Some(path@)
            &&& after.editor == (EditorModel {
                tabs: m.editor.tabs.update(m.editor.active as int, saved),
                ..m.editor
            })
            &&& after == (AppModel { editor: after.editor, status: after.status, ..m })
        }),
        m.next(Msg::SaveDone(Some(Err(reason))), o) == (AppModel {
            status: "Fehler beim Speichern: "@ + reason@,
            ..m
        }),
        m.next(Msg::SaveDone(None), o) == m,
        m.effect(Msg::SaveDone(Some(Ok(path))), o) is Nothing,
        m.effect(Msg::SaveDone(Some(Err(reason))), o) is Nothing,
        m.effect(Msg::SaveDone(None), o) is Nothing,
{
    let after = m.next(Msg::SaveDone(Some(Ok(path))), o).editor;
    assert(after.tabs[m.editor.active as int] == after.tab());
}

// ---------------------------------------------------------------------------
// Diagnostics
// ---------------------------------------------------------------------------

/// A diagnostic is shown in its file, opened as any file is: the cursor goes to
/// the place, counted from 1 (a 0 counts as 1), the line is marked and scrolled to, and the
/// diagnostic is kept with the line unless another one is there already.
pub proof fn law_diagnostic_is_shown_in_its_file(
    m: AppModel,
    o: Outside,
    path: FilePath,
    text: String,
    line: usize,
    col: usize,
    level: DiagnosticLevel,
)
    requires
        m.editor.active < m.editor.tabs.len(),
    ensures
        ({
            let msg = Msg::DiagnosticFileLoaded(Some((path, text, line, col, level)));
            let opened = m.next(Msg::FilePicked(Some((path, text))), o).editor;
            let after = m.next(msg, o);
            let e = after.editor;
            let row: nat = if line > 0 {
                (line - 1) as nat
            } else {
                0
            };
            let column: nat = if col > 0 {
                (col - 1) as nat
            } else {
                0
            };
            let marked = exists|j: int|
                0 <= j < opened.tab().errors.len() && (#[trigger] opened.tab().errors[j]).line
                    == row;
            &&& e.active == opened.active
            &&& e.tab().content.text == opened.tab().content.text
            &&& walks(
                opened.tab().content.requests,
                e.tab().content.requests,
                row,
                column,
                0,
            )
            &&& e.highlight == Some(row)
            &&& marked ==> e.tab().errors == opened.tab().errors
            &&& !marked ==> e.tab().errors == opened.tab().errors.push(
                EditorErrorModel {
                    line: row as usize,
                    column: col,
                    level,
                    message: m.log.about(path@, line).0,
                    error_code: m.log.about(path@, line).1,
                },
            )
            &&& e == (EditorModel {
                tabs: opened.tabs.update(
                    opened.active as int,
                    TabModel {
                        content: e.tab().content,
                        errors: e.tab().errors,
                        ..opened.tab()
                    },
                ),
                highlight: e.highlight,
                ..opened
            })
            &&& after.page is Editor
            &&& after.shown_level == level
            &&& after == (AppModel { editor: e, page: Page::Editor, shown_level: level, ..m })
            &&& m.effect(msg, o) == EffectModel::ScrollEditorTo(row)
            &&& m.accepts(msg, o) == m.accepts(Msg::FilePicked(Some((path, text))), o)
        }),
{
    let opened = m.next(Msg::FilePicked(Some((path, text))), o).editor;
    let after = m.next(Msg::DiagnosticFileLoaded(Some((path, text, line, col, level))), o).editor;
    lemma_opened_is_shown(m.editor, path@, text@);
    assert(opened.active < opened.tabs.len());
    assert(after.tabs[opened.active as int] == after.tab());
    lemma_walks(
        opened.tab().content.requests,
        below(line as nat),
        below(col as nat),
        Seq::empty(),
    );
}

proof fn lemma_opened_is_shown(e: EditorModel, path: PathModel, text: Seq<char>)
    requires
        e.active < e.tabs.len(),
    ensures
        e.file_opened(path, text).active < e.file_opened(path, text).tabs.len(),
{
    match first_tab_of(e.tabs, path, 0) {
        Some(i) => {
            if e.switches_to(i as int) {
                lemma_refreshed(EditorModel { active: i, ..e });
            }
        },
        None => lemma_refreshed(
            EditorModel { tabs: e.tabs.push(file_tab(path, text)), active: e.tabs.len(), ..e },
        ),
    }
}

// ---------------------------------------------------------------------------
// Finding in the output
// ---------------------------------------------------------------------------

/// Whether the output, with the content `before`, is now at the `k`-th match:
/// its line is marked, the status names it, and the cursor was sent there and
/// over it.
pub open spec fn output_stands_at(before: ContentModel, after: OutputModel, k: int) -> bool {
    let found = all_matches(before.text, after.find_text);
    let line = newlines(before.text.take(found[k]));
    &&& 0 <= k < found.len()
    &&& after.current == k
    &&& after.highlight == Some(line)
    &&& after.status == "Treffer "@ + decimal((k + 1) as nat) + " von "@ + decimal(found.len())
        + " \u{2014} Zeile "@ + decimal(line + 1)
    &&& after.content.text == before.text
    &&& leads_to(
        before.requests,
        after.content.requests,
        before.text,
        found[k],
        after.find_text.len(),
    )
}

/// Whether two outputs differ at most in where their find panel and cursor are.
pub open spec fn only_output_search_moved(before: OutputModel, after: OutputModel) -> bool {
    after == (OutputModel {
        content: after.content,
        current: after.current,
        highlight: after.highlight,
        status: after.status,
        ..before
    })
}

proof fn lemma_output_at_match(p: OutputModel, k: nat)
    requires
        k < all_matches(p.content.text, p.find_text).len(),
    ensures
        output_stands_at(p.content, p.at_match(k), k as int),
        only_output_search_moved(p, p.at_match(k)),
{
    let text = p.content.text;
    let found = all_matches(text, p.find_text);
    law_match_lines(text, p.find_text);
    lemma_walks(
        p.content.requests,
        newlines(text.take(found[k as int])),
        last_line_len(text.take(found[k as int])),
        p.find_text,
    );
}

/// In the output, too, a step forward leads to the match behind the current one
/// and a step back to the one in front of it, round the ends, and the one
/// undoes the other.
pub proof fn law_output_steps_move_by_one(m: AppModel, o: Outside)
    requires
        m.output.find_text.len() > 0,
        m.output.current < all_matches(m.output.content.text, m.output.find_text).len(),
    ensures
        ({
            let total = all_matches(m.output.content.text, m.output.find_text).len();
            let at = m.output.current;
            let behind = m.next(Msg::OutputFindNext, o);
            let before = m.next(Msg::OutputFindPrev, o);
            &&& behind.output.current == if at + 1 < total {
                at + 1
            } else {
                0
            }
            &&& before.output.current == if at > 0 {
                at - 1
            } else {
                total - 1
            }
            &&& output_stands_at(m.output.content, behind.output, behind.output.current as int)
            &&& output_stands_at(m.output.content, before.output, before.output.current as int)
            &&& only_output_search_moved(m.output, behind.output)
            &&& only_output_search_moved(m.output, before.output)
            &&& behind == (AppModel { output: behind.output, ..m })
            &&& before == (AppModel { output: before.output, ..m })
            &&& behind.next(Msg::OutputFindPrev, o).output.current == at
            &&& before.next(Msg::OutputFindNext, o).output.current == at
            &&& m.effect(Msg::OutputFindNext, o) is Nothing
            &&& m.effect(Msg::OutputFindPrev, o) is Nothing
        }),
{
    let total = all_matches(m.output.content.text, m.output.find_text).len();
    let at = m.output.current;
    crate::laws::law_next_and_previous_undo_each_other(at, total);
    assert((at + 1) % total == if at + 1 < total {
        at + 1
    } else {
        0nat
    }) by (nonlinear_arith)
        requires
            at < total,
    ;
    lemma_output_at_match(m.output, next_match(at, total));
    lemma_output_at_match(m.output, previous_match(at, total));
}

/// Looking for another text in the output leads to its first match. Where there
/// is none, nothing is marked and the status says so, as a step does; where
/// nothing is looked for, a step does nothing.
pub proof fn law_output_search(m: AppModel, o: Outside, text: String, msg: Msg)
    requires
        msg is OutputFindNext || msg is OutputFindPrev,
    ensures
        ({
            let after = m.next(Msg::OutputFindTextChanged(text), o);
            let found = all_matches(m.output.content.text, text@);
            &&& after.output.find_text == text@
            &&& found.len() > 0 ==> output_stands_at(m.output.content, after.output, 0)
            &&& found.len() > 0 ==> only_output_search_moved(
                OutputModel { find_text: text@, ..m.output },
                after.output,
            )
            &&& found.len() == 0 ==> after.output == (OutputModel {
                find_text: text@,
                current: 0,
                highlight: None,
                status: if text@.len() == 0 {
                    Seq::empty()
                } else {
                    "Keine Treffer"@
                },
                ..m.output
            })
            &&& after == (AppModel { output: after.output, ..m })
            &&& m.effect(Msg::OutputFindTextChanged(text), o) is Nothing
        }),
        m.output.find_text.len() == 0 ==> m.next(msg, o) == m,
        m.output.find_text.len() > 0 && all_matches(
            m.output.content.text,
            m.output.find_text,
        ).len() == 0 ==> m.next(msg, o) == (AppModel {
            output: OutputModel { status: "Keine Treffer"@, highlight: None, ..m.output },
            ..m
        }),
        m.effect(msg, o) is Nothing,
{
    if all_matches(m.output.content.text, text@).len() > 0 {
        lemma_output_at_match(OutputModel { find_text: text@, current: 0, ..m.output }, 0);
    }
}

} // verus!
