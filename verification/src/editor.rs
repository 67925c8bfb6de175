//! The editor: its tabs, and finding and replacing in them.

use vstd::prelude::*;

use crate::content::{
    content_cursor, content_selection, fresh_content, goto_requests, is_whole_text, is_without,
    text_after, Action, ContentModel, CursorStep, Edit, EditorContent, Request, Widget,
};
use crate::diagnostics::{DiagnosticLevel, EditorError, EditorErrorModel};
use crate::direction::{can_load, loads};
use crate::paths::{name_or, same_path, FilePath, PathModel};
use crate::search::{
    all_matches, collect_all_match_lines, count_matches, editor_find_status_text, find_status,
    match_lines, replace_all_matches, replace_match, replaced_all, replaced_at,
};
use crate::strings::{decimal, is_empty, join2, push_decimal, text_of};

verus! {

/// The title of a file whose path names none.
pub const UNKNOWN_TITLE: &'static str = "Unbekannt";

/// What a find panel says where nothing was found.
pub const NO_MATCH: &'static str = "Keine Treffer";

/// A tab of the editor.
pub struct EditorTab {
    /// The name of the file, or `Untitled-N`.
    pub title: String,
    /// The file, where the tab has one.
    pub path: Option<FilePath>,
    pub content: EditorContent,
    /// Whether the text changed since it was last saved.
    pub dirty: bool,
    /// The diagnostics that mark lines of the tab until it is closed.
    pub editor_errors: Vec<EditorError>,
}

/// What an [`EditorTab`] holds.
#[verifier::ext_equal]
pub struct TabModel {
    pub title: Seq<char>,
    pub path: Option<PathModel>,
    pub content: ContentModel,
    pub dirty: bool,
    pub errors: Seq<EditorErrorModel>,
}

/// What an optional path holds.
pub open spec fn path_of(path: Option<FilePath>) -> Option<PathModel> {
    match path {
        Some(p) => Some(p@),
        None => None,
    }
}

impl View for EditorTab {
    type V = TabModel;

    open spec fn view(&self) -> TabModel {
        TabModel {
            title: self.title@,
            path: path_of(self.path),
            content: self.content@,
            dirty: self.dirty,
            errors: self.editor_errors@.map_values(|e: EditorError| e@),
        }
    }
}

/// The `index`-th tab without a file.
pub open spec fn untitled_tab(index: nat) -> TabModel {
    TabModel {
        title: "Untitled-"@ + decimal(index + 1),
        path: None,
        content: fresh_content(Seq::empty()),
        dirty: false,
        errors: Seq::empty(),
    }
}

/// The tab of a file just read.
pub open spec fn file_tab(path: PathModel, text: Seq<char>) -> TabModel {
    TabModel {
        title: name_or(path, UNKNOWN_TITLE@),
        path: Some(path),
        content: fresh_content(text),
        dirty: false,
        errors: Seq::empty(),
    }
}

impl TabModel {
    /// The text can be laid out, and at most one diagnostic marks a line.
    pub open spec fn wf(self) -> bool {
        &&& self.content.wf()
        &&& forall|i: int|
            0 <= i < self.errors.len() ==> (#[trigger] self.errors[i]).line < usize::MAX
        &&& forall|i: int, j: int|
            0 <= i < j < self.errors.len() ==> (#[trigger] self.errors[i]).line != (
            #[trigger] self.errors[j]).line
    }

    /// The title in the tab bar: a star marks unsaved changes.
    pub open spec fn display_title(self) -> Seq<char> {
        if self.dirty {
            self.title + "*"@
        } else {
            self.title
        }
    }
}

impl EditorTab {
    /// The `index`-th tab without a file.
    pub fn new_untitled(index: usize) -> (r: Self)
        ensures
            r@ == untitled_tab(index as nat),
            r@.wf(),
            content_cursor(r.content.inner()) == (0nat, 0nat),
            content_selection(r.content.inner()) is None,
    {
        let mut title: String = "Untitled-".to_owned();
        push_decimal(&mut title, index as u128 + 1);
        let r: EditorTab = EditorTab {
            title,
            path: None,
            content: EditorContent::new(),
            dirty: false,
            editor_errors: Vec::new(),
        };
        assert(r@ =~= untitled_tab(index as nat));
        r
    }

    /// The tab of a file just read.
    pub fn from_file(path: FilePath, file_text: &str) -> (r: Self)
        requires
            loads(file_text@),
        ensures
            r@ == file_tab(path@, file_text@),
            r@.wf(),
    {
        let title: String = path.name_or(UNKNOWN_TITLE);
        let r: EditorTab = EditorTab {
            title,
            path: Some(path),
            content: EditorContent::with_text(file_text),
            dirty: false,
            editor_errors: Vec::new(),
        };
        assert(r@ =~= file_tab(path@, file_text@));
        r
    }

    /// The title in the tab bar: a star marks unsaved changes.
    pub fn display_title(&self) -> (r: String)
        ensures
            r@ == self@.display_title(),
    {
        if self.dirty {
            join2(self.title.as_str(), "*")
        } else {
            self.title.clone()
        }
    }
}

/// The tabs of the editor and its find panel.
pub struct Editor {
    pub tabs: Vec<EditorTab>,
    /// The index of the tab that is shown.
    pub active_tab: usize,
    /// The number of tabs without a file made so far.
    pub untitled_counter: usize,
    /// Whether the find panel is shown.
    pub find_replace_open: bool,
    /// Whether the find panel, where it is shown, offers replacing.
    pub find_show_replace: bool,
    pub find_text: String,
    pub replace_text: String,
    /// What the find panel says.
    pub find_status: String,
    /// The match that the find panel is at, counted from 0.
    pub find_current_match: usize,
    /// The lines of all matches in the tab, counted from 0.
    pub find_all_match_lines: Vec<usize>,
    /// The line marked in the tab, counted from 0.
    pub highlight_line: Option<usize>,
}

/// What an [`Editor`] holds.
#[verifier::ext_equal]
pub struct EditorModel {
    pub tabs: Seq<TabModel>,
    pub active: nat,
    pub untitled_counter: nat,
    pub open: bool,
    pub show_replace: bool,
    pub find_text: Seq<char>,
    pub replace_text: Seq<char>,
    pub status: Seq<char>,
    pub current: nat,
    pub lines: Seq<nat>,
    pub highlight: Option<nat>,
}

/// An optional number.
pub open spec fn nat_of(n: Option<usize>) -> Option<nat> {
    match n {
        Some(i) => Some(i as nat),
        None => None,
    }
}

impl View for Editor {
    type V = EditorModel;

    open spec fn view(&self) -> EditorModel {
        EditorModel {
            tabs: self.tabs@.map_values(|t: EditorTab| t@),
            active: self.active_tab as nat,
            untitled_counter: self.untitled_counter as nat,
            open: self.find_replace_open,
            show_replace: self.find_show_replace,
            find_text: self.find_text@,
            replace_text: self.replace_text@,
            status: self.find_status@,
            current: self.find_current_match as nat,
            lines: self.find_all_match_lines@.map_values(|n: usize| n as nat),
            highlight: nat_of(self.highlight_line),
        }
    }
}

/// An editor with one tab without a file.
pub open spec fn initial_editor() -> EditorModel {
    EditorModel {
        tabs: seq![untitled_tab(0)],
        active: 0,
        untitled_counter: 1,
        open: false,
        show_replace: false,
        find_text: Seq::empty(),
        replace_text: Seq::empty(),
        status: Seq::empty(),
        current: 0,
        lines: Seq::empty(),
        highlight: None,
    }
}

impl EditorModel {
    /// There is a tab, one of the tabs is shown, the find panel is at one of
    /// the matches, if there are any, and the numbers shown to the user can be
    /// counted from 1.
    pub open spec fn wf(self) -> bool {
        &&& self.active < self.tabs.len()
        &&& forall|i: int| 0 <= i < self.tabs.len() ==> (#[trigger] self.tabs[i]).wf()
        &&& self.current < usize::MAX
        &&& self.lines.len() > 0 ==> self.current < self.lines.len()
        &&& forall|i: int| 0 <= i < self.lines.len() ==> #[trigger] self.lines[i] < usize::MAX
    }

    /// The tab that is shown.
    pub open spec fn tab(self) -> TabModel {
        self.tabs[self.active as int]
    }

    /// The editor with another tab in the place of the one that is shown.
    pub open spec fn with_tab(self, tab: TabModel) -> EditorModel {
        EditorModel { tabs: self.tabs.update(self.active as int, tab), ..self }
    }

    /// Whether the tab that is shown can be laid out after the user did
    /// something in it with the given cursor and selection.
    pub open spec fn takes(
        self,
        action: Action,
        cursor: (nat, nat),
        selection: Option<Seq<char>>,
    ) -> bool {
        self.tab().content.takes(action, cursor, selection)
    }

    /// The editor after the user did something in the tab that is shown,
    /// which leaves `text` there. An edit makes the matches out of date.
    pub open spec fn acted(self, action: Action, text: Seq<char>) -> EditorModel {
        let content = self.tab().content.acted(action, text);
        match action {
            Action::Edit(_) => EditorModel {
                lines: Seq::empty(),
                highlight: None,
                ..self.with_tab(TabModel { content, dirty: true, ..self.tab() })
            },
            Action::Navigate(_) => self.with_tab(TabModel { content, ..self.tab() }),
        }
    }
}

impl Editor {
    /// An editor with one tab without a file.
    pub fn new() -> (r: Self)
        ensures
            r@ == initial_editor(),
            r@.wf(),
            content_cursor(r.widget()) == (0nat, 0nat),
            content_selection(r.widget()) is None,
    {
        let mut tabs: Vec<EditorTab> = Vec::new();
        tabs.push(EditorTab::new_untitled(0));
        let r: Editor = Editor {
            tabs,
            active_tab: 0,
            untitled_counter: 1,
            find_replace_open: false,
            find_show_replace: false,
            find_text: String::new(),
            replace_text: String::new(),
            find_status: String::new(),
            find_current_match: 0,
            find_all_match_lines: Vec::new(),
            highlight_line: None,
        };
        assert(r@ =~= initial_editor());
        r
    }

    /// The text of the shown tab after an edit at its cursor.
    pub open spec fn text_after(&self, action: Action) -> Seq<char> {
        match action {
            Action::Navigate(_) => self@.tab().content.text,
            Action::Edit(e) => text_after(self.widget(), e),
        }
    }

    /// Whether the shown tab can be laid out after the user did something in
    /// it.
    pub open spec fn takes(&self, action: Action) -> bool {
        self@.takes(action, content_cursor(self.widget()), content_selection(self.widget()))
    }

    /// Whether the shown tab can be laid out after the user did something in
    /// it.
    pub fn can_perform(&self, action: &Action) -> (r: bool)
        requires
            self@.wf(),
        ensures
            r == self.takes(*action),
    {
        assert(self@.tab() == self.tabs@[self.active_tab as int]@);
        self.tabs[self.active_tab].content.takes(action)
    }

    /// Whether the shown tab can be laid out after a text was pasted into it.
    pub fn can_paste(&self, pasted: &String) -> (r: bool)
        requires
            self@.wf(),
        ensures
            r == self.takes(Action::Edit(Edit::Paste(*pasted))),
    {
        assert(self@.tab() == self.tabs@[self.active_tab as int]@);
        self.tabs[self.active_tab].content.takes_paste(pasted)
    }

    /// Does in the shown tab what the user did.
    pub fn perform(&mut self, action: Action)
        requires
            old(self)@.wf(),
            old(self).takes(action),
        ensures
            final(self)@ == old(self)@.acted(action, old(self).text_after(action)),
            final(self)@.wf(),
            action == Action::Edit(Edit::Backspace) ==> (content_selection(
                old(self).widget(),
            ) matches Some(part) ==> is_without(
                final(self)@.tab().content.text,
                old(self)@.tab().content.text,
                part,
            )),
    {
        let ghost start = *self;
        let i: usize = self.active_tab;
        assert(self@.tab() == self.tabs@[i as int]@);
        if let Action::Edit(_) = &action {
            self.tabs[i].dirty = true;
            self.highlight_line = None;
            self.find_all_match_lines.clear();
        }
        self.tabs[i].content.perform(action);
        assert(self@ =~= start@.acted(action, start.text_after(action)));
    }
}

// ---------------------------------------------------------------------------
// Tabs
// ---------------------------------------------------------------------------

/// The first tab from `from` on that shows the file `path`.
pub open spec fn first_tab_of(tabs: Seq<TabModel>, path: PathModel, from: int) -> Option<nat>
    decreases tabs.len() - from,
{
    if from < 0 || from >= tabs.len() {
        None
    } else if tabs[from].path is Some && same_path(tabs[from].path->0, path) {
        Some(from as nat)
    } else {
        first_tab_of(tabs, path, from + 1)
    }
}

impl EditorModel {
    /// The editor after a tab without a file was opened and shown.
    pub open spec fn tab_opened(self) -> EditorModel {
        EditorModel {
            tabs: self.tabs.push(untitled_tab(self.untitled_counter)),
            active: self.tabs.len(),
            untitled_counter: self.untitled_counter + 1,
            ..self
        }.refreshed()
    }

    /// Whether closing tab `i` leaves the shown tab on view.
    pub open spec fn stays_shown(self, i: int) -> bool {
        self.tabs.len() > 1 && (i > self.active || i < self.active == self.tabs.len() - 1)
    }

    /// The editor after tab `i` was closed. The last tab is replaced by one
    /// without a file.
    pub open spec fn tab_closed(self, i: int) -> EditorModel {
        if self.tabs.len() <= 1 {
            EditorModel {
                tabs: self.tabs.update(0, untitled_tab(self.untitled_counter)),
                untitled_counter: self.untitled_counter + 1,
                ..self
            }.refreshed()
        } else {
            let closed = EditorModel {
                tabs: self.tabs.remove(i),
                active: if self.active >= self.tabs.len() - 1 {
                    (self.tabs.len() - 2) as nat
                } else {
                    self.active
                },
                ..self
            };
            if self.stays_shown(i) {
                closed
            } else {
                closed.refreshed()
            }
        }
    }

    /// The line to scroll to after tab `i` was closed.
    pub open spec fn close_target(self, i: int) -> Option<nat> {
        if self.stays_shown(i) {
            None
        } else {
            self.tab_closed(i).highlight
        }
    }

    /// Whether the file `path` with the text `text` can be opened: it has a tab
    /// already, or its text can be laid out.
    pub open spec fn opens(self, path: PathModel, text: Seq<char>) -> bool {
        first_tab_of(self.tabs, path, 0) is None ==> loads(text)
    }

    /// The editor after the file `path` with the text `text` was opened: in
    /// the tab that shows the file already, or in a new one.
    pub open spec fn file_opened(self, path: PathModel, text: Seq<char>) -> EditorModel {
        match first_tab_of(self.tabs, path, 0) {
            Some(i) => self.tab_selected(i as int),
            None => EditorModel {
                tabs: self.tabs.push(file_tab(path, text)),
                active: self.tabs.len(),
                ..self
            }.refreshed(),
        }
    }

    /// The line to scroll to after the file `path` with the text `text` was
    /// opened.
    pub open spec fn open_target(self, path: PathModel, text: Seq<char>) -> Option<nat> {
        match first_tab_of(self.tabs, path, 0) {
            Some(i) => self.select_target(i as int),
            None => self.file_opened(path, text).highlight,
        }
    }

    /// The editor after the shown tab was written to `path`.
    pub open spec fn saved_to(self, path: PathModel) -> EditorModel {
        let tab = self.tab();
        self.with_tab(
            if tab.path is Some && same_path(tab.path->0, path) {
                TabModel { dirty: false, ..tab }
            } else {
                TabModel {
                    dirty: false,
                    title: name_or(path, UNKNOWN_TITLE@),
                    path: Some(path),
                    ..tab
                }
            },
        )
    }
}

impl Editor {
    /// Opens and shows a tab without a file; returns the line to scroll to.
    pub fn new_tab(&mut self) -> (r: Option<usize>)
        requires
            old(self)@.wf(),
            old(self).untitled_counter < usize::MAX,
        ensures
            final(self)@ == old(self)@.tab_opened(),
            final(self)@.wf(),
            nat_of(r) == final(self)@.highlight,
    {
        let ghost start = *self;
        self.tabs.push(EditorTab::new_untitled(self.untitled_counter));
        self.untitled_counter += 1;
        self.active_tab = self.tabs.len() - 1;
        assert(self@ =~= (EditorModel {
            tabs: start@.tabs.push(untitled_tab(start@.untitled_counter)),
            active: start@.tabs.len(),
            untitled_counter: start@.untitled_counter + 1,
            ..start@
        }));
        self.refresh()
    }

    /// Closes a tab; returns the line to scroll to.
    pub fn close_tab(&mut self, idx: usize) -> (r: Option<usize>)
        requires
            old(self)@.wf(),
            old(self)@.tabs.len() <= 1 ==> old(self).untitled_counter < usize::MAX,
            old(self)@.tabs.len() > 1 ==> idx < old(self)@.tabs.len(),
        ensures
            final(self)@ == old(self)@.tab_closed(idx as int),
            final(self)@.wf(),
            nat_of(r) == old(self)@.close_target(idx as int),
    {
        let ghost start = *self;
        if self.tabs.len() <= 1 {
            self.tabs[0] = EditorTab::new_untitled(self.untitled_counter);
            self.untitled_counter += 1;
            assert(self@ =~= (EditorModel {
                tabs: start@.tabs.update(0, untitled_tab(start@.untitled_counter)),
                untitled_counter: start@.untitled_counter + 1,
                ..start@
            }));
            return self.refresh();
        }
        let stays: bool = idx > self.active_tab || (idx < self.active_tab && self.active_tab
            == self.tabs.len() - 1);
        let closed: EditorTab = self.tabs.remove(idx);
        if self.active_tab >= self.tabs.len() {
            self.active_tab = self.tabs.len() - 1;
        }
        assert(self@ =~= (EditorModel {
            tabs: start@.tabs.remove(idx as int),
            active: if start@.active >= start@.tabs.len() - 1 {
                (start@.tabs.len() - 2) as nat
            } else {
                start@.active
            },
            ..start@
        }));
        if stays {
            None
        } else {
            self.refresh()
        }
    }

    /// The first tab that shows the file `path`.
    fn tab_of(&self, path: &FilePath) -> (r: Option<usize>)
        ensures
            nat_of(r) == first_tab_of(self@.tabs, path@, 0),
            r is Some ==> r->0 < self.tabs@.len(),
    {
        let mut i: usize = 0;
        while i < self.tabs.len()
            invariant
                i <= self.tabs@.len(),
                first_tab_of(self@.tabs, path@, 0) == first_tab_of(self@.tabs, path@, i as int),
            decreases self.tabs@.len() - i,
        {
            assert(self@.tabs[i as int] == self.tabs@[i as int]@);
            if let Some(p) = &self.tabs[i].path {
                if p.same_as(path) {
                    return Some(i);
                }
            }
            i += 1;
        }
        None
    }

    /// Whether a file that was read can be opened.
    pub fn opens(&self, path: &FilePath, file_text: &str) -> (r: bool)
        ensures
            r == self@.opens(path@, file_text@),
    {
        self.tab_of(path).is_some() || can_load(file_text)
    }

    /// Opens a file that was read, or shows the tab that has it; returns the
    /// line to scroll to.
    pub fn open_file(&mut self, path: FilePath, file_text: &str) -> (r: Option<usize>)
        requires
            old(self)@.wf(),
            old(self)@.opens(path@, file_text@),
        ensures
            final(self)@ == old(self)@.file_opened(path@, file_text@),
            final(self)@.wf(),
            nat_of(r) == old(self)@.open_target(path@, file_text@),
    {
        let ghost start = *self;
        match self.tab_of(&path) {
            Some(i) => self.select_tab(i),
            None => {
                self.tabs.push(EditorTab::from_file(path, file_text));
                self.active_tab = self.tabs.len() - 1;
                assert(self@ =~= (EditorModel {
                    tabs: start@.tabs.push(file_tab(path@, file_text@)),
                    active: start@.tabs.len(),
                    ..start@
                }));
                self.refresh()
            },
        }
    }

    /// Notes that the shown tab was written to `path`.
    pub fn note_saved(&mut self, path: FilePath)
        requires
            old(self)@.wf(),
        ensures
            final(self)@ == old(self)@.saved_to(path@),
            final(self)@.wf(),
    {
        let ghost start = *self;
        let i: usize = self.active_tab;
        let known: bool = match &self.tabs[i].path {
            Some(p) => p.same_as(&path),
            None => false,
        };
        self.tabs[i].dirty = false;
        if !known {
            self.tabs[i].title = path.name_or(UNKNOWN_TITLE);
            self.tabs[i].path = Some(path);
        }
        assert(self@.tab() =~= start@.saved_to(path@).tab());
        assert(self@ =~= start@.saved_to(path@));
    }
}

// ---------------------------------------------------------------------------
// The find panel
// ---------------------------------------------------------------------------

/// The line of the `k`-th match.
pub open spec fn line_at(lines: Seq<nat>, k: nat) -> Option<nat> {
    if k < lines.len() {
        Some(lines[k as int])
    } else {
        None
    }
}

/// What a find panel says where nothing was found: nothing, if nothing was
/// looked for.
pub open spec fn no_match_status(find_text: Seq<char>) -> Seq<char> {
    if find_text.len() == 0 {
        Seq::empty()
    } else {
        NO_MATCH@
    }
}

/// The match behind the `k`-th of `total`, and the first behind the last.
pub open spec fn next_match(k: nat, total: nat) -> nat {
    (k + 1) % total
}

/// The match in front of the `k`-th of `total`, and the last in front of the
/// first.
pub open spec fn previous_match(k: nat, total: nat) -> nat {
    if k == 0 {
        (total - 1) as nat
    } else {
        (k - 1) as nat
    }
}

/// The match behind the `current`-th of `total`, and the first behind the last.
pub fn next_match_index(current: usize, total: usize) -> (r: usize)
    requires
        current < usize::MAX,
        0 < total,
    ensures
        r == next_match(current as nat, total as nat),
        r < total,
{
    (current + 1) % total
}

/// The match in front of the `current`-th of `total`, and the last in front of
/// the first.
pub fn previous_match_index(current: usize, total: usize) -> (r: usize)
    requires
        0 < total,
    ensures
        r == previous_match(current as nat, total as nat),
        current < total ==> r < total,
{
    if current == 0 {
        total - 1
    } else {
        current - 1
    }
}

impl EditorModel {
    /// The editor with the find panel closed.
    pub open spec fn find_closed(self) -> EditorModel {
        EditorModel {
            open: false,
            status: Seq::empty(),
            highlight: None,
            lines: Seq::empty(),
            ..self
        }
    }

    /// The editor with the find panel open, with or without replacing.
    pub open spec fn find_opened(self, replace: bool) -> EditorModel {
        EditorModel { open: true, show_replace: replace, ..self }
    }

    /// The editor at the `k`-th match: the match is selected in the tab, its
    /// line is marked and the status names it.
    pub open spec fn at_match(self, k: nat) -> EditorModel {
        let line = line_at(self.lines, k);
        EditorModel {
            current: k,
            highlight: line,
            status: find_status(k, self.lines.len(), line),
            ..self.with_tab(
                TabModel {
                    content: self.tab().content.with_match_selected(self.find_text, k as int),
                    ..self.tab()
                },
            )
        }
    }

    /// The editor after another text was looked for.
    pub open spec fn find_text_changed(self, find_text: Seq<char>) -> EditorModel {
        let lines = match_lines(self.tab().content.text, find_text);
        let searched = EditorModel { find_text, current: 0, lines, ..self };
        if lines.len() == 0 {
            EditorModel { status: no_match_status(find_text), highlight: None, ..searched }
        } else {
            searched.at_match(0)
        }
    }

    /// The editor after a step to the next or the previous match. It stays as
    /// it is while the panel is closed or nothing is looked for.
    pub open spec fn stepped(self, forward: bool) -> EditorModel {
        let total = self.lines.len();
        if !self.open || self.find_text.len() == 0 {
            self
        } else if total == 0 {
            EditorModel { status: NO_MATCH@, highlight: None, ..self }
        } else if forward {
            self.at_match(next_match(self.current, total))
        } else {
            self.at_match(previous_match(self.current, total))
        }
    }

    /// The line to scroll to after a step.
    pub open spec fn step_target(self, forward: bool) -> Option<nat> {
        if !self.open || self.find_text.len() == 0 || self.lines.len() == 0 {
            None
        } else {
            self.stepped(forward).highlight
        }
    }

    /// Whether asking for tab `i` switches to another tab.
    pub open spec fn switches_to(self, i: int) -> bool {
        0 <= i < self.tabs.len() && i != self.active
    }

    /// The editor after another tab came on view. The matches are those of that
    /// tab, and the panel stays as near as it can to the match it was at.
    pub open spec fn refreshed(self) -> EditorModel {
        let lines = if self.open && self.find_text.len() > 0 {
            match_lines(self.tab().content.text, self.find_text)
        } else {
            Seq::empty()
        };
        let searched = EditorModel { highlight: None, lines, ..self };
        if lines.len() == 0 {
            EditorModel { current: 0, status: no_match_status(self.find_text), ..searched }
        } else if self.current < lines.len() {
            searched.at_match(self.current)
        } else {
            searched.at_match((lines.len() - 1) as nat)
        }
    }

    /// The editor after tab `i` was asked for.
    pub open spec fn tab_selected(self, i: int) -> EditorModel {
        if !self.switches_to(i) {
            self
        } else {
            EditorModel { active: i as nat, ..self }.refreshed()
        }
    }

    /// The line to scroll to after tab `i` was asked for.
    pub open spec fn select_target(self, i: int) -> Option<nat> {
        if self.switches_to(i) {
            self.tab_selected(i).highlight
        } else {
            None
        }
    }
}

impl Editor {
    /// Brings the panel and the tab to the `k`-th match; returns its line.
    fn show_match(&mut self, k: usize) -> (r: Option<usize>)
        requires
            old(self)@.active < old(self)@.tabs.len(),
            forall|i: int| 0 <= i < old(self)@.tabs.len() ==> (#[trigger] old(self)@.tabs[i]).wf(),
            forall|i: int|
                0 <= i < old(self)@.lines.len() ==> #[trigger] old(self)@.lines[i] < usize::MAX,
            k < old(self)@.lines.len(),
        ensures
            final(self)@ == old(self)@.at_match(k as nat),
            final(self)@.wf(),
            nat_of(r) == final(self)@.highlight,
    {
        let ghost start = *self;
        let i: usize = self.active_tab;
        let total: usize = self.find_all_match_lines.len();
        self.find_current_match = k;
        let pos: Option<(usize, usize)> = self.tabs[i].content.apply_find_selection(
            self.find_text.as_str(),
            k,
        );
        let line: Option<usize> = if k < total {
            let l: usize = self.find_all_match_lines[k];
            assert(start@.lines[k as int] == l);
            Some(l)
        } else {
            None
        };
        self.highlight_line = line;
        self.find_status = editor_find_status_text(k, total, line);
        assert(self@.tab() =~= start@.at_match(k as nat).tab());
        assert(self@ =~= start@.at_match(k as nat));
        line
    }
}

impl Editor {
    /// Looks for the text of the find panel in tab `i`.
    fn collect_matches(&mut self, i: usize)
        requires
            i < old(self)@.tabs.len(),
        ensures
            final(self)@ == (EditorModel {
                lines: match_lines(old(self)@.tabs[i as int].content.text, old(self)@.find_text),
                ..old(self)@
            }),
            forall|k: int|
                0 <= k < final(self)@.lines.len() ==> #[trigger] final(self)@.lines[k] < usize::MAX,
    {
        let ghost start = *self;
        let text: String = self.tabs[i].content.text();
        self.find_all_match_lines = collect_all_match_lines(
            text.as_str(),
            self.find_text.as_str(),
        );
        assert(self@.lines =~= match_lines(text@, start@.find_text));
        assert(self@ =~= (EditorModel { lines: match_lines(text@, start@.find_text), ..start@ }));
    }

    /// Looks for another text in the shown tab; returns the line of the first
    /// match.
    pub fn change_find_text(&mut self, find_text: String) -> (r: Option<usize>)
        requires
            old(self)@.wf(),
        ensures
            final(self)@ == old(self)@.find_text_changed(find_text@),
            final(self)@.wf(),
            nat_of(r) == final(self)@.highlight,
    {
        let ghost start = *self;
        self.find_text = find_text;
        self.find_current_match = 0;
        self.collect_matches(self.active_tab);
        if self.find_all_match_lines.len() == 0 {
            self.find_status = if is_empty(self.find_text.as_str()) {
                String::new()
            } else {
                NO_MATCH.to_owned()
            };
            self.highlight_line = None;
            assert(self@ =~= start@.find_text_changed(find_text@));
            None
        } else {
            self.show_match(0)
        }
    }

    /// Goes on to the next match, or back to the previous one; returns the
    /// line to scroll to.
    fn step_match(&mut self, forward: bool) -> (r: Option<usize>)
        requires
            old(self)@.wf(),
        ensures
            final(self)@ == old(self)@.stepped(forward),
            final(self)@.wf(),
            nat_of(r) == old(self)@.step_target(forward),
    {
        if !self.find_replace_open || is_empty(self.find_text.as_str()) {
            return None;
        }
        let ghost start = *self;
        let total: usize = self.find_all_match_lines.len();
        if total == 0 {
            self.find_status = NO_MATCH.to_owned();
            self.highlight_line = None;
            assert(self@ =~= start@.stepped(forward));
            return None;
        }
        let k: usize = if forward {
            next_match_index(self.find_current_match, total)
        } else {
            previous_match_index(self.find_current_match, total)
        };
        self.show_match(k)
    }

    /// Goes on to the next match, the first one behind the last.
    pub fn find_next(&mut self) -> (r: Option<usize>)
        requires
            old(self)@.wf(),
        ensures
            final(self)@ == old(self)@.stepped(true),
            final(self)@.wf(),
            nat_of(r) == old(self)@.step_target(true),
    {
        self.step_match(true)
    }

    /// Goes back to the previous match, the last one in front of the first.
    pub fn find_prev(&mut self) -> (r: Option<usize>)
        requires
            old(self)@.wf(),
        ensures
            final(self)@ == old(self)@.stepped(false),
            final(self)@.wf(),
            nat_of(r) == old(self)@.step_target(false),
    {
        self.step_match(false)
    }

    /// Looks for the text of the find panel in the tab that came on view;
    /// returns the line to scroll to.
    fn refresh(&mut self) -> (r: Option<usize>)
        requires
            old(self)@.active < old(self)@.tabs.len(),
            forall|i: int| 0 <= i < old(self)@.tabs.len() ==> (#[trigger] old(self)@.tabs[i]).wf(),
        ensures
            final(self)@ == old(self)@.refreshed(),
            final(self)@.wf(),
            nat_of(r) == final(self)@.highlight,
    {
        let ghost start = *self;
        self.highlight_line = None;
        if self.find_replace_open && !is_empty(self.find_text.as_str()) {
            self.collect_matches(self.active_tab);
        } else {
            self.find_all_match_lines.clear();
            assert(self@.lines =~= Seq::empty());
        }
        let total: usize = self.find_all_match_lines.len();
        if total == 0 {
            self.find_current_match = 0;
            self.find_status = if is_empty(self.find_text.as_str()) {
                String::new()
            } else {
                NO_MATCH.to_owned()
            };
            assert(self@ =~= start@.refreshed());
            return None;
        }
        let k: usize = if self.find_current_match < total {
            self.find_current_match
        } else {
            total - 1
        };
        self.show_match(k)
    }

    /// Shows a tab; returns the line to scroll to.
    pub fn select_tab(&mut self, idx: usize) -> (r: Option<usize>)
        requires
            old(self)@.wf(),
        ensures
            final(self)@ == old(self)@.tab_selected(idx as int),
            final(self)@.wf(),
            nat_of(r) == old(self)@.select_target(idx as int),
    {
        if idx >= self.tabs.len() || idx == self.active_tab {
            return None;
        }
        self.active_tab = idx;
        self.refresh()
    }

    /// Closes the find panel.
    fn hide_find(&mut self)
        requires
            old(self)@.wf(),
        ensures
            final(self)@ == old(self)@.find_closed(),
            final(self)@.wf(),
    {
        let ghost start = *self;
        self.find_replace_open = false;
        self.find_status = String::new();
        self.highlight_line = None;
        self.find_all_match_lines.clear();
        assert(self@ =~= start@.find_closed());
    }

    /// Opens the find panel for finding, or closes it.
    pub fn toggle_find(&mut self)
        requires
            old(self)@.wf(),
        ensures
            final(self)@ == if old(self)@.open {
                old(self)@.find_closed()
            } else {
                old(self)@.find_opened(false)
            },
            final(self)@.wf(),
    {
        if self.find_replace_open {
            self.hide_find();
        } else {
            self.open_find(false);
        }
    }

    /// Opens the find panel, with or without replacing.
    pub fn open_find(&mut self, replace: bool)
        requires
            old(self)@.wf(),
        ensures
            final(self)@ == old(self)@.find_opened(replace),
            final(self)@.wf(),
    {
        let ghost start = *self;
        self.find_replace_open = true;
        self.find_show_replace = replace;
        assert(self@ =~= start@.find_opened(replace));
    }

    /// Closes the find panel, if it is open.
    pub fn close_find(&mut self)
        requires
            old(self)@.wf(),
        ensures
            final(self)@ == if old(self)@.open {
                old(self)@.find_closed()
            } else {
                old(self)@
            },
            final(self)@.wf(),
    {
        if self.find_replace_open {
            self.hide_find();
        }
    }

    /// Shows or hides the part of the find panel for replacing.
    pub fn toggle_replace(&mut self)
        requires
            old(self)@.wf(),
        ensures
            final(self)@ == (EditorModel {
                show_replace: !old(self)@.show_replace,
                ..old(self)@
            }),
            final(self)@.wf(),
    {
        self.find_show_replace = !self.find_show_replace;
    }

    /// Takes another replacement.
    pub fn change_replace_text(&mut self, replace_text: String)
        requires
            old(self)@.wf(),
        ensures
            final(self)@ == (EditorModel { replace_text: replace_text@, ..old(self)@ }),
            final(self)@.wf(),
    {
        self.replace_text = replace_text;
    }
}

// ---------------------------------------------------------------------------
// Replacing
// ---------------------------------------------------------------------------

impl EditorModel {
    /// The editor with another text in the shown tab, not yet saved.
    pub open spec fn rewritten(self, text: Seq<char>) -> EditorModel {
        self.with_tab(TabModel { content: fresh_content(text), dirty: true, ..self.tab() })
    }

    /// The text of the shown tab with the current match replaced, where there
    /// is one.
    pub open spec fn one_replacement(self) -> Option<Seq<char>> {
        let text = self.tab().content.text;
        let found = all_matches(text, self.find_text);
        if self.find_text.len() == 0 || found.len() == 0 {
            None
        } else {
            let at = found[(self.current % found.len()) as int];
            Some(replaced_at(text, self.find_text, self.replace_text, at))
        }
    }

    /// Whether the shown tab can be laid out with the current match replaced.
    pub open spec fn can_replace_one(self) -> bool {
        self.one_replacement() matches Some(text) ==> loads(text)
    }

    /// The editor after the current match was replaced. The panel stays at the
    /// same place of the list of what still matches.
    pub open spec fn one_replaced(self) -> EditorModel {
        match self.one_replacement() {
            None => if self.find_text.len() == 0 {
                self
            } else {
                EditorModel { status: NO_MATCH@, ..self }
            },
            Some(text) => {
                let changed = self.rewritten(text);
                let lines = match_lines(changed.tab().content.text, self.find_text);
                if lines.len() == 0 {
                    EditorModel { lines, current: 0, highlight: None, status: NO_MATCH@, ..changed }
                } else {
                    EditorModel { lines, ..changed }.at_match(self.current % lines.len())
                }
            },
        }
    }

    /// The line to scroll to after the current match was replaced.
    pub open spec fn replace_target(self) -> Option<nat> {
        if self.find_text.len() == 0 {
            None
        } else {
            line_at(self.one_replaced().lines, self.one_replaced().current)
        }
    }

    /// The text of the shown tab with all matches replaced, where there are
    /// any.
    pub open spec fn full_replacement(self) -> Option<Seq<char>> {
        let text = self.tab().content.text;
        if self.find_text.len() == 0 || all_matches(text, self.find_text).len() == 0 {
            None
        } else {
            Some(replaced_all(text, self.find_text, self.replace_text))
        }
    }

    /// Whether the shown tab can be laid out with all matches replaced.
    pub open spec fn can_replace_all(self) -> bool {
        self.full_replacement() matches Some(text) ==> loads(text)
    }

    /// The editor after all matches were replaced.
    pub open spec fn all_replaced(self) -> EditorModel {
        match self.full_replacement() {
            None => if self.find_text.len() == 0 {
                self
            } else {
                EditorModel { status: NO_MATCH@, ..self }
            },
            Some(text) => EditorModel {
                current: 0,
                highlight: None,
                lines: Seq::empty(),
                status: decimal(all_matches(self.tab().content.text, self.find_text).len())
                    + " ersetzt"@,
                ..self.rewritten(text)
            },
        }
    }
}

impl Editor {
    /// The text of the shown tab with the current match replaced, where there
    /// is one.
    fn one_replacement(&self) -> (r: Option<String>)
        requires
            self@.active < self@.tabs.len(),
        ensures
            text_of(r) == self@.one_replacement(),
    {
        if is_empty(self.find_text.as_str()) {
            return None;
        }
        let text: String = self.tabs[self.active_tab].content.text();
        assert(text@ == self@.tab().content.text);
        let count: usize = count_matches(text.as_str(), self.find_text.as_str());
        if count == 0 {
            return None;
        }
        replace_match(
            text.as_str(),
            self.find_text.as_str(),
            self.replace_text.as_str(),
            self.find_current_match % count,
        )
    }

    /// Whether the shown tab can be laid out with the current match replaced.
    pub fn can_replace_one(&self) -> (r: bool)
        requires
            self@.wf(),
        ensures
            r == self@.can_replace_one(),
    {
        match self.one_replacement() {
            Some(text) => can_load(text.as_str()),
            None => true,
        }
    }

    /// Replaces the current match; returns the line to scroll to.
    pub fn replace_one(&mut self) -> (r: Option<usize>)
        requires
            old(self)@.wf(),
            old(self)@.can_replace_one(),
        ensures
            final(self)@ == old(self)@.one_replaced(),
            final(self)@.wf(),
            nat_of(r) == old(self)@.replace_target(),
    {
        if is_empty(self.find_text.as_str()) {
            return None;
        }
        let ghost start = *self;
        let new_text: String = match self.one_replacement() {
            Some(text) => text,
            None => {
                self.find_status = NO_MATCH.to_owned();
                assert(self@ =~= start@.one_replaced());
                return self.current_line();
            },
        };
        self.rewrite(new_text.as_str());
        self.collect_matches(self.active_tab);
        let total: usize = self.find_all_match_lines.len();
        if total == 0 {
            self.find_current_match = 0;
            self.highlight_line = None;
            self.find_status = NO_MATCH.to_owned();
            assert(self@ =~= start@.one_replaced());
            None
        } else {
            self.show_match(self.find_current_match % total)
        }
    }

    /// Puts another text into the shown tab.
    fn rewrite(&mut self, text: &str)
        requires
            old(self)@.wf(),
            loads(text@),
        ensures
            final(self)@ == old(self)@.rewritten(text@),
            final(self)@.wf(),
    {
        let ghost start = *self;
        let i: usize = self.active_tab;
        self.tabs[i].content = EditorContent::with_text(text);
        self.tabs[i].dirty = true;
        assert(self@ =~= start@.rewritten(text@));
    }

    /// The line of the current match.
    fn current_line(&self) -> (r: Option<usize>)
        ensures
            nat_of(r) == line_at(self@.lines, self@.current),
    {
        let k: usize = self.find_current_match;
        if k < self.find_all_match_lines.len() {
            assert(self@.lines[k as int] == self.find_all_match_lines@[k as int]);
            Some(self.find_all_match_lines[k])
        } else {
            None
        }
    }

    /// The text of the shown tab with all matches replaced, and their number,
    /// where there are any.
    fn full_replacement(&self) -> (r: Option<(String, usize)>)
        requires
            self@.active < self@.tabs.len(),
        ensures
            match r {
                Some(p) => self@.full_replacement() == Some(p.0@) && p.1 == all_matches(
                    self@.tab().content.text,
                    self@.find_text,
                ).len(),
                None => self@.full_replacement() is None,
            },
    {
        if is_empty(self.find_text.as_str()) {
            return None;
        }
        let text: String = self.tabs[self.active_tab].content.text();
        assert(text@ == self@.tab().content.text);
        let count: usize = count_matches(text.as_str(), self.find_text.as_str());
        if count == 0 {
            return None;
        }
        let new_text: String = replace_all_matches(
            text.as_str(),
            self.find_text.as_str(),
            self.replace_text.as_str(),
        );
        Some((new_text, count))
    }

    /// Whether the shown tab can be laid out with all matches replaced.
    pub fn can_replace_all(&self) -> (r: bool)
        requires
            self@.wf(),
        ensures
            r == self@.can_replace_all(),
    {
        match self.full_replacement() {
            Some((text, _)) => can_load(text.as_str()),
            None => true,
        }
    }

    /// Replaces all matches.
    pub fn replace_all(&mut self)
        requires
            old(self)@.wf(),
            old(self)@.can_replace_all(),
        ensures
            final(self)@ == old(self)@.all_replaced(),
            final(self)@.wf(),
    {
        if is_empty(self.find_text.as_str()) {
            return;
        }
        let ghost start = *self;
        let (new_text, count): (String, usize) = match self.full_replacement() {
            Some(replaced) => replaced,
            None => {
                self.find_status = NO_MATCH.to_owned();
                assert(self@ =~= start@.all_replaced());
                return;
            },
        };
        self.rewrite(new_text.as_str());
        self.find_current_match = 0;
        self.highlight_line = None;
        self.find_all_match_lines.clear();
        let mut status: String = String::new();
        push_decimal(&mut status, count as u128);
        status.append(" ersetzt");
        self.find_status = status;
        assert(self@ =~= start@.all_replaced());
    }
}

// ---------------------------------------------------------------------------
// Clipboard and diagnostics
// ---------------------------------------------------------------------------

impl EditorModel {
    /// The editor after the whole text of the shown tab was selected.
    pub open spec fn all_selected(self) -> EditorModel {
        let tab = self.tab();
        self.with_tab(
            TabModel {
                content: tab.content.asked(seq![Request::Step(CursorStep::SelectAll)]),
                ..tab
            },
        )
    }

    /// The editor after a file with a diagnostic was read: the file is shown,
    /// the cursor is sent to the place, and the line is marked. Line and
    /// column are counted from 1, as cargo counts them.
    pub open spec fn diagnostic_shown(
        self,
        path: PathModel,
        text: Seq<char>,
        line: nat,
        column: nat,
        error: EditorErrorModel,
    ) -> EditorModel {
        let opened = self.file_opened(path, text);
        let tab = opened.tab();
        EditorModel {
            highlight: Some(below(line)),
            ..opened.with_tab(
                TabModel {
                    content: tab.content.asked(goto_requests(below(line), below(column))),
                    errors: tab.with_error(error).errors,
                    ..tab
                },
            )
        }
    }
}

/// The number counted from 0 that is `n` counted from 1.
pub open spec fn below(n: nat) -> nat {
    if n == 0 {
        0
    } else {
        (n - 1) as nat
    }
}

impl TabModel {
    /// Whether a diagnostic marks the line.
    pub open spec fn has_error_on(self, line: usize) -> bool {
        exists|i: int| 0 <= i < self.errors.len() && (#[trigger] self.errors[i]).line == line
    }

    /// The tab with one more diagnostic, unless its line is marked already.
    pub open spec fn with_error(self, error: EditorErrorModel) -> TabModel {
        if self.has_error_on(error.line) {
            self
        } else {
            TabModel { errors: self.errors.push(error), ..self }
        }
    }
}

impl Editor {
    /// The widget content of the shown tab.
    pub open spec fn widget(&self) -> Widget {
        self.tabs@[self.active_tab as int].content.inner()
    }

    /// The selected text in the shown tab.
    pub fn selection(&self) -> (r: Option<String>)
        requires
            self@.wf(),
        ensures
            text_of(r) == content_selection(self.widget()),
    {
        self.tabs[self.active_tab].content.selection()
    }

    /// Selects the whole text of the shown tab.
    pub fn select_all(&mut self)
        requires
            old(self)@.wf(),
        ensures
            final(self)@ == old(self)@.all_selected(),
            final(self)@.wf(),
            old(self)@.tab().content.text.len() > 1 ==> (content_selection(
                final(self).widget(),
            ) matches Some(part) && is_whole_text(part, old(self)@.tab().content.text)),
    {
        let ghost start = *self;
        let i: usize = self.active_tab;
        self.tabs[i].content.step(CursorStep::SelectAll);
        assert(self@ =~= start@.all_selected());
    }

    /// Marks a line of the shown tab, unless it is marked already.
    fn mark(&mut self, error: EditorError)
        requires
            old(self)@.wf(),
            error.line < usize::MAX,
        ensures
            final(self)@ == old(self)@.with_tab(old(self)@.tab().with_error(error@)),
            final(self)@.wf(),
    {
        let ghost start = *self;
        let i: usize = self.active_tab;
        let mut k: usize = 0;
        assert(self@.tabs[i as int] == self.tabs@[i as int]@);
        while k < self.tabs[i].editor_errors.len()
            invariant
                self@.wf(),
                *self == start,
                i == self.active_tab,
                k <= self.tabs@[i as int].editor_errors@.len(),
                forall|j: int| 0 <= j < k ==> (#[trigger] self@.tab().errors[j]).line != error.line,
            decreases self.tabs@[i as int].editor_errors@.len() - k,
        {
            assert(self@.tab().errors[k as int] == self.tabs@[i as int].editor_errors@[k as int]@);
            if self.tabs[i].editor_errors[k].line == error.line {
                assert(self@ =~= start@.with_tab(start@.tab().with_error(error@)));
                return;
            }
            k += 1;
        }
        self.tabs[i].editor_errors.push(error);
        assert(self@.tab() =~= start@.tab().with_error(error@));
        assert(self@ =~= start@.with_tab(start@.tab().with_error(error@)));
    }

    /// Shows a file that was read for a diagnostic, and the place that the
    /// diagnostic is about; returns the line to scroll to.
    pub fn show_diagnostic(
        &mut self,
        path: FilePath,
        file_text: &str,
        line: usize,
        column: usize,
        level: DiagnosticLevel,
        message: String,
        error_code: Option<String>,
    ) -> (r: usize)
        requires
            old(self)@.wf(),
            old(self)@.opens(path@, file_text@),
        ensures
            final(self)@ == old(self)@.diagnostic_shown(
                path@,
                file_text@,
                line as nat,
                column as nat,
                EditorErrorModel {
                    line: r,
                    column,
                    level,
                    message: message@,
                    error_code: text_of(error_code),
                },
            ),
            final(self)@.wf(),
            r == below(line as nat),
    {
        let ghost start = *self;
        let target_line: usize = if line == 0 {
            0
        } else {
            line - 1
        };
        let target_column: usize = if column == 0 {
            0
        } else {
            column - 1
        };
        let found: Option<usize> = self.open_file(path, file_text);
        let ghost opened = self@;
        let i: usize = self.active_tab;
        self.tabs[i].content.go_to(target_line, target_column);
        let ghost moved = self@;
        assert(moved =~= opened.with_tab(
            TabModel {
                content: opened.tab().content.asked(
                    goto_requests(below(line as nat), below(column as nat)),
                ),
                ..opened.tab()
            },
        ));
        let error: EditorError = EditorError {
            line: target_line,
            column,
            level,
            message,
            error_code,
        };
        let ghost model = error@;
        self.mark(error);
        self.highlight_line = Some(target_line);
        assert(opened.tab().has_error_on(model.line) == moved.tab().has_error_on(model.line));
        assert(self@.tab() =~= start@.diagnostic_shown(
            path@,
            file_text@,
            line as nat,
            column as nat,
            model,
        ).tab());
        assert(self@ =~= start@.diagnostic_shown(
            path@,
            file_text@,
            line as nat,
            column as nat,
            model,
        ));
        target_line
    }
}

} // verus!
