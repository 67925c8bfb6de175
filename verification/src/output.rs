//! The output of cargo: the lines kept, the text shown and finding in it.

use std::collections::VecDeque;
use vstd::prelude::*;

use crate::content::{
    content_selection, fresh_content, is_whole_text, joined_lines, Action, ContentModel,
    CursorStep, EditorContent, Request,
};
use crate::direction::{
    free_of, lemma_joined_loads, lemma_one_direction, loads, CharKind, Ends,
};
use crate::editor::{
    nat_of, next_match, next_match_index, no_match_status, previous_match, previous_match_index,
    NO_MATCH,
};
use crate::search::{all_matches, count_matches, find_status, match_lines, output_find_status_text};
use crate::strings::{is_empty, text_of, texts};

verus! {

/// The number of lines kept.
pub const MAX_LINES: usize = 5000;

/// What the text shown ends with once older lines were dropped.
pub const TRIM_NOTICE: &'static str =
    "⚠ Hinweis: ältere Ausgabe wurde verworfen – max. 5000 Zeilen";

/// The output of cargo.
pub struct OutputPanel {
    /// The newest lines, the oldest first.
    pub lines: VecDeque<String>,
    /// The text shown, made from the lines at each flush.
    pub content: EditorContent,
    /// Whether lines came since the last flush.
    pub dirty: bool,
    /// Whether lines were dropped in this run.
    pub trimmed: bool,
    /// Whether the find panel is shown.
    pub find_open: bool,
    pub find_text: String,
    /// What the find panel says.
    pub find_status: String,
    /// The match that the find panel is at, counted from 0.
    pub find_current_match: usize,
    /// The line marked in the text, counted from 0.
    pub highlight_line: Option<usize>,
}

/// What an [`OutputPanel`] holds.
#[verifier::ext_equal]
pub struct OutputModel {
    pub lines: Seq<Seq<char>>,
    pub content: ContentModel,
    pub dirty: bool,
    pub trimmed: bool,
    pub open: bool,
    pub find_text: Seq<char>,
    pub status: Seq<char>,
    pub current: nat,
    pub highlight: Option<nat>,
}

impl View for OutputPanel {
    type V = OutputModel;

    open spec fn view(&self) -> OutputModel {
        OutputModel {
            lines: texts(self.lines@),
            content: self.content@,
            dirty: self.dirty,
            trimmed: self.trimmed,
            open: self.find_open,
            find_text: self.find_text@,
            status: self.find_status@,
            current: self.find_current_match as nat,
            highlight: nat_of(self.highlight_line),
        }
    }
}

/// The text shown for the given lines: the newest line first, and the notice
/// last where lines were dropped.
pub open spec fn shown_text(lines: Seq<Seq<char>>, trimmed: bool) -> Seq<char> {
    joined_lines(
        lines.reverse() + if trimmed {
            seq![TRIM_NOTICE@]
        } else {
            Seq::empty()
        },
    )
}

/// The newest of the given lines, as many as are kept.
pub open spec fn newest(lines: Seq<Seq<char>>) -> Seq<Seq<char>> {
    if lines.len() > MAX_LINES {
        lines.skip(lines.len() - MAX_LINES)
    } else {
        lines
    }
}

impl OutputModel {
    /// No more lines are kept than may be, the lines and the text shown can be
    /// laid out, and the current match can be counted from 1.
    pub open spec fn wf(self) -> bool {
        &&& self.lines.len() <= MAX_LINES
        &&& forall|i: int| 0 <= i < self.lines.len() ==> loads(#[trigger] self.lines[i])
        &&& self.content.wf()
        &&& self.current < usize::MAX
    }

    /// The panel with what it says of a search out of date.
    pub open spec fn search_reset(self) -> OutputModel {
        OutputModel { highlight: None, status: Seq::empty(), current: 0, ..self }
    }

    /// The panel after one more line came.
    pub open spec fn appended(self, line: Seq<char>) -> OutputModel {
        let lines = self.lines.push(line);
        OutputModel {
            lines: newest(lines),
            trimmed: self.trimmed || lines.len() > MAX_LINES,
            dirty: true,
            ..self.search_reset()
        }
    }

    /// The panel after the text shown was made anew.
    pub open spec fn flushed(self) -> OutputModel {
        OutputModel {
            content: fresh_content(shown_text(self.lines, self.trimmed)),
            dirty: false,
            ..self.search_reset()
        }
    }

    /// The panel after it was emptied.
    pub open spec fn cleared(self) -> OutputModel {
        OutputModel {
            lines: Seq::empty(),
            content: fresh_content(Seq::empty()),
            dirty: false,
            trimmed: false,
            highlight: None,
            ..self
        }
    }

    /// The panel after the user did something in it. The text cannot be
    /// edited.
    pub open spec fn acted(self, action: Action) -> OutputModel {
        match action {
            Action::Navigate(_) => OutputModel {
                content: self.content.acted(action, self.content.text),
                ..self
            },
            Action::Edit(_) => self,
        }
    }

    /// The panel at the `k`-th match of what is looked for.
    pub open spec fn at_match(self, k: nat) -> OutputModel {
        let lines = match_lines(self.content.text, self.find_text);
        let line = if k < lines.len() {
            Some(lines[k as int])
        } else {
            None
        };
        OutputModel {
            current: k,
            highlight: line,
            status: find_status(k, lines.len(), line),
            content: self.content.with_match_selected(self.find_text, k as int),
            ..self
        }
    }

    /// The panel after another text was looked for.
    pub open spec fn find_text_changed(self, find_text: Seq<char>) -> OutputModel {
        let searched = OutputModel { find_text, current: 0, ..self };
        if all_matches(self.content.text, find_text).len() == 0 {
            OutputModel { status: no_match_status(find_text), highlight: None, ..searched }
        } else {
            searched.at_match(0)
        }
    }

    /// The panel after a step to the next or the previous match.
    pub open spec fn stepped(self, forward: bool) -> OutputModel {
        let total = all_matches(self.content.text, self.find_text).len();
        if self.find_text.len() == 0 {
            self
        } else if total == 0 {
            OutputModel { status: NO_MATCH@, highlight: None, ..self }
        } else if forward {
            self.at_match(next_match(self.current, total))
        } else {
            self.at_match(previous_match(self.current, total))
        }
    }

    /// The panel after its find panel was opened or closed.
    pub open spec fn find_toggled(self) -> OutputModel {
        if self.open {
            OutputModel { open: false, status: Seq::empty(), highlight: None, ..self }
        } else {
            OutputModel { open: true, ..self }
        }
    }
}

/// An output without lines.
pub open spec fn empty_output() -> OutputModel {
    OutputModel {
        lines: Seq::empty(),
        content: fresh_content(Seq::empty()),
        dirty: false,
        trimmed: false,
        open: false,
        find_text: Seq::empty(),
        status: Seq::empty(),
        current: 0,
        highlight: None,
    }
}

/// The text shown for lines that can be laid out can be laid out.
proof fn lemma_shown_loads(lines: Seq<Seq<char>>, trimmed: bool)
    requires
        forall|i: int| 0 <= i < lines.len() ==> loads(#[trigger] lines[i]),
    ensures
        loads(shown_text(lines, trimmed)),
{
    let back = lines.reverse();
    let list = back + if trimmed {
        seq![TRIM_NOTICE@]
    } else {
        Seq::empty()
    };
    assert(free_of(TRIM_NOTICE@, CharKind::RightToLeft)) by {
        reveal_strlit("⚠ Hinweis: ältere Ausgabe wurde verworfen – max. 5000 Zeilen");
    }
    lemma_one_direction(TRIM_NOTICE@, Ends::LineEnd);
    assert forall|i: int| 0 <= i < list.len() implies loads(#[trigger] list[i]) by {
        if i < back.len() {
            assert(list[i] == lines[lines.len() - 1 - i]);
        } else {
            assert(list[i] == TRIM_NOTICE@);
        }
    }
    lemma_joined_loads(list, Ends::LineEnd);
}

impl OutputPanel {
    /// An output without lines.
    pub fn new() -> (r: Self)
        ensures
            r@ == empty_output(),
            r@.wf(),
    {
        let r: OutputPanel = OutputPanel {
            lines: VecDeque::new(),
            content: EditorContent::new(),
            dirty: false,
            trimmed: false,
            find_open: false,
            find_text: String::new(),
            find_status: String::new(),
            find_current_match: 0,
            highlight_line: None,
        };
        assert(r@ =~= empty_output());
        r
    }

    fn reset_search(&mut self)
        ensures
            final(self)@ == old(self)@.search_reset(),
    {
        self.highlight_line = None;
        self.find_status = String::new();
        self.find_current_match = 0;
        assert(self@ =~= old(self)@.search_reset());
    }

    /// Takes one more line, and drops the oldest one where there are too many.
    pub fn append(&mut self, line: String)
        requires
            old(self)@.wf(),
            loads(line@),
        ensures
            final(self)@ == old(self)@.appended(line@),
            final(self)@.wf(),
    {
        let ghost start = *self;
        self.lines.push_back(line);
        assert(self@.lines =~= start@.lines.push(line@));
        if self.lines.len() > MAX_LINES {
            let dropped: Option<String> = self.lines.pop_front();
            self.trimmed = true;
            assert(self@.lines =~= newest(start@.lines.push(line@)));
        }
        self.dirty = true;
        self.reset_search();
        assert(self@ =~= start@.appended(line@));
    }

    /// The text to be shown.
    fn shown(&self) -> (r: String)
        ensures
            r@ == shown_text(self@.lines, self@.trimmed),
    {
        let ghost parts = self@.lines.reverse();
        let mut s: String = String::new();
        let n: usize = self.lines.len();
        let mut i: usize = 0;
        assert(parts.take(0) =~= Seq::empty());
        while i < n
            invariant
                n == self.lines@.len(),
                i <= n,
                parts == self@.lines.reverse(),
                s@ == joined_lines(parts.take(i as int)),
            decreases n - i,
        {
            if i > 0 {
                s.append("\n");
            }
            let line: &String = &self.lines[n - 1 - i];
            s.append(line.as_str());
            proof {
                let more = parts.take(i + 1);
                assert(more.drop_last() =~= parts.take(i as int));
                assert(more.last() == line@);
                if i == 0 {
                    assert(s@ =~= more[0]);
                }
            }
            i += 1;
        }
        assert(parts.take(n as int) =~= parts);
        if self.trimmed {
            if n > 0 {
                s.append("\n");
            }
            s.append(TRIM_NOTICE);
            proof {
                let all = parts + seq![TRIM_NOTICE@];
                assert(all.drop_last() =~= parts);
                if n == 0 {
                    assert(s@ =~= all[0]);
                }
            }
        } else {
            assert(parts + Seq::<Seq<char>>::empty() =~= parts);
        }
        s
    }

    /// Makes the text shown anew.
    pub fn flush(&mut self)
        requires
            old(self)@.wf(),
        ensures
            final(self)@ == old(self)@.flushed(),
            final(self)@.wf(),
    {
        let ghost start = *self;
        let text: String = self.shown();
        proof {
            lemma_shown_loads(self@.lines, self@.trimmed);
        }
        self.content = EditorContent::with_text(text.as_str());
        self.dirty = false;
        self.reset_search();
        assert(self@ =~= start@.flushed());
    }

    /// Empties the panel.
    pub fn clear(&mut self)
        requires
            old(self)@.wf(),
        ensures
            final(self)@ == old(self)@.cleared(),
            final(self)@.wf(),
    {
        let ghost start = *self;
        self.lines.clear();
        self.content = EditorContent::new();
        self.dirty = false;
        self.trimmed = false;
        self.highlight_line = None;
        assert(self@ =~= start@.cleared());
    }

    /// Does what the user did, unless it would change the text.
    pub fn perform(&mut self, action: Action)
        requires
            old(self)@.wf(),
        ensures
            final(self)@ == old(self)@.acted(action),
            final(self)@.wf(),
    {
        match &action {
            Action::Edit(_) => {},
            Action::Navigate(_) => {
                self.content.perform(action);
            },
        }
    }

    /// Brings the panel to the `k`-th match.
    fn show_match(&mut self, k: usize)
        requires
            old(self)@.wf(),
            k < usize::MAX,
        ensures
            final(self)@ == old(self)@.at_match(k as nat),
            final(self)@.wf(),
    {
        let ghost start = *self;
        let text: String = self.content.text();
        let total: usize = count_matches(text.as_str(), self.find_text.as_str());
        self.find_current_match = k;
        let line: Option<usize> = match self.content.apply_find_selection(
            self.find_text.as_str(),
            k,
        ) {
            Some((l, _)) => Some(l),
            None => None,
        };
        self.highlight_line = line;
        self.find_status = output_find_status_text(k, total, line);
        assert(self@ =~= start@.at_match(k as nat));
    }

    /// Looks for another text.
    pub fn change_find_text(&mut self, find_text: String)
        requires
            old(self)@.wf(),
        ensures
            final(self)@ == old(self)@.find_text_changed(find_text@),
            final(self)@.wf(),
    {
        let ghost start = *self;
        self.find_text = find_text;
        self.find_current_match = 0;
        let text: String = self.content.text();
        if count_matches(text.as_str(), self.find_text.as_str()) == 0 {
            self.find_status = if is_empty(self.find_text.as_str()) {
                String::new()
            } else {
                NO_MATCH.to_owned()
            };
            self.highlight_line = None;
            assert(self@ =~= start@.find_text_changed(find_text@));
        } else {
            self.show_match(0);
        }
    }

    fn step_match(&mut self, forward: bool)
        requires
            old(self)@.wf(),
        ensures
            final(self)@ == old(self)@.stepped(forward),
            final(self)@.wf(),
    {
        if is_empty(self.find_text.as_str()) {
            return;
        }
        let ghost start = *self;
        let text: String = self.content.text();
        let total: usize = count_matches(text.as_str(), self.find_text.as_str());
        if total == 0 {
            self.find_status = NO_MATCH.to_owned();
            self.highlight_line = None;
            assert(self@ =~= start@.stepped(forward));
        } else if forward {
            self.show_match(next_match_index(self.find_current_match, total));
        } else {
            self.show_match(previous_match_index(self.find_current_match, total));
        }
    }

    /// Goes on to the next match, the first one behind the last.
    pub fn find_next(&mut self)
        requires
            old(self)@.wf(),
        ensures
            final(self)@ == old(self)@.stepped(true),
            final(self)@.wf(),
    {
        self.step_match(true)
    }

    /// Goes back to the previous match, the last one in front of the first.
    pub fn find_prev(&mut self)
        requires
            old(self)@.wf(),
        ensures
            final(self)@ == old(self)@.stepped(false),
            final(self)@.wf(),
    {
        self.step_match(false)
    }

    /// Opens or closes the find panel.
    pub fn toggle_find(&mut self)
        requires
            old(self)@.wf(),
        ensures
            final(self)@ == old(self)@.find_toggled(),
            final(self)@.wf(),
    {
        let ghost start = *self;
        self.find_open = !self.find_open;
        if !self.find_open {
            self.find_status = String::new();
            self.highlight_line = None;
        }
        assert(self@ =~= start@.find_toggled());
    }

    /// Selects the whole text.
    pub fn select_all(&mut self)
        requires
            old(self)@.wf(),
        ensures
            final(self)@ == (OutputModel {
                content: old(self)@.content.asked(seq![Request::Step(CursorStep::SelectAll)]),
                ..old(self)@
            }),
            final(self)@.wf(),
            old(self)@.content.text.len() > 1 ==> (content_selection(
                final(self).content.inner(),
            ) matches Some(part) && is_whole_text(part, old(self)@.content.text)),
    {
        self.content.step(CursorStep::SelectAll);
    }

    /// The selected text.
    pub fn selection(&self) -> (r: Option<String>)
        ensures
            text_of(r) == content_selection(self.content.inner()),
    {
        self.content.selection()
    }
}

} // verus!
