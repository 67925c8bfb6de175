//! Where things stand in the window.
//!
//! Heights are counted in pixels. The text widgets keep the state of their
//! scroll bars by their place among their neighbours, so those places do not
//! depend on what is shown.

use vstd::prelude::*;

use crate::app::{App, AppModel, Outside};
use crate::diagnostics::{
    build_error_tooltip, error_tooltip, DiagnosticLevel, EditorError, EditorErrorModel,
};
use crate::message::{ContextMenuKind, ContextMenuState, Msg, Page};
use crate::strings::{decimal, push_decimal, text_of};

verus! {

/// The space above the first line of a text.
pub const EDITOR_PADDING_TOP: u32 = 5;

/// The height of a line of text.
pub const LINE_HEIGHT: u32 = 20;

/// The parts of the main layer, from the top down.
#[derive(Debug, Clone, Copy, PartialEq, Eq, Structural)]
pub enum MainPart {
    TopBar,
    Page(Page),
    Footer,
}

/// A layer of the window.
pub enum Layer {
    /// The page with the bars above and below it.
    Main(Vec<MainPart>),
    /// The context menu, or nothing.
    ContextMenu(Option<ContextMenuState>),
    /// The tooltip, or nothing.
    Tooltip(Option<String>),
}

/// What a [`Layer`] holds.
pub enum LayerModel {
    Main(Seq<MainPart>),
    ContextMenu(Option<ContextMenuState>),
    Tooltip(Option<Seq<char>>),
}

impl View for Layer {
    type V = LayerModel;

    open spec fn view(&self) -> LayerModel {
        match self {
            Layer::Main(parts) => LayerModel::Main(parts@),
            Layer::ContextMenu(menu) => LayerModel::ContextMenu(*menu),
            Layer::Tooltip(tip) => LayerModel::Tooltip(text_of(*tip)),
        }
    }
}

/// The parts of the editor page, from the top down.
#[derive(Debug, Clone, Copy, PartialEq, Eq, Structural)]
pub enum EditorSlot {
    /// The title and the buttons.
    Header,
    /// The choice of the colour for the current match.
    Colors,
    /// The tabs and the list of diagnostics.
    Tabs,
    /// The find panel, or nothing where it is closed.
    FindPanel { open: bool },
    /// The text.
    Text,
}

/// The layers of the window, from the bottom up.
pub open spec fn layers_of(m: AppModel) -> Seq<LayerModel> {
    seq![
        LayerModel::Main(seq![MainPart::TopBar, MainPart::Page(m.page), MainPart::Footer]),
        LayerModel::ContextMenu(m.menu),
        LayerModel::Tooltip(m.tooltip),
    ]
}

/// The parts of the editor page, from the top down.
pub open spec fn slots_of(m: AppModel) -> Seq<EditorSlot> {
    seq![
        EditorSlot::Header,
        EditorSlot::Colors,
        EditorSlot::Tabs,
        EditorSlot::FindPanel { open: m.editor.open },
        EditorSlot::Text,
    ]
}

impl App {
    /// The layers of the window, from the bottom up.
    pub fn window_layers(&self) -> (r: Vec<Layer>)
        ensures
            r@.map_values(|l: Layer| l@) == layers_of(self@),
    {
        let tip: Option<String> = match &self.tooltip_text {
            Some(text) => Some(text.clone()),
            None => None,
        };
        let main: Vec<MainPart> = vec![
            MainPart::TopBar,
            MainPart::Page(self.current_page),
            MainPart::Footer,
        ];
        let mut r: Vec<Layer> = Vec::new();
        r.push(Layer::Main(main));
        r.push(Layer::ContextMenu(self.context_menu));
        r.push(Layer::Tooltip(tip));
        assert(main@ =~= seq![
            MainPart::TopBar,
            MainPart::Page(self.current_page),
            MainPart::Footer,
        ]);
        assert(r@.map_values(|l: Layer| l@) =~= layers_of(self@));
        r
    }

    /// The parts of the editor page, from the top down.
    pub fn editor_slots(&self) -> (r: Vec<EditorSlot>)
        ensures
            r@ == slots_of(self@),
    {
        vec![
            EditorSlot::Header,
            EditorSlot::Colors,
            EditorSlot::Tabs,
            EditorSlot::FindPanel { open: self.editor.find_replace_open },
            EditorSlot::Text,
        ]
    }
}

/// In every state the window has three layers: the page between its bars, then
/// the context menu, then the tooltip; the last two are empty exactly where
/// nothing of the kind is open.
pub proof fn law_window_has_three_layers(m: AppModel)
    ensures
        layers_of(m).len() == 3,
        layers_of(m)[0] == LayerModel::Main(
            seq![MainPart::TopBar, MainPart::Page(m.page), MainPart::Footer],
        ),
        layers_of(m)[1] matches LayerModel::ContextMenu(menu) && (menu is None <==> m.menu is None),
        layers_of(m)[2] matches LayerModel::Tooltip(tip) && (tip is None <==> m.tooltip is None),
{
}

/// Showing or hiding the context menu or the tooltip leaves the main layer as
/// it is and where it is.
pub proof fn law_overlays_move_nothing(
    m: AppModel,
    o: Outside,
    kind: ContextMenuKind,
    tip: String,
)
    ensures
        layers_of(m.next(Msg::ShowContextMenu(kind), o))[0] == layers_of(m)[0],
        layers_of(m.next(Msg::HideContextMenu, o))[0] == layers_of(m)[0],
        layers_of(m.next(Msg::TooltipShow(tip), o))[0] == layers_of(m)[0],
        layers_of(m.next(Msg::TooltipHide, o))[0] == layers_of(m)[0],
{
}

/// In every state the text is the last of five parts of the editor page, and
/// the part above it is empty exactly where the find panel is closed. So the
/// text stays where it is when the panel is opened or closed.
pub proof fn law_text_is_always_last(m: AppModel)
    ensures
        slots_of(m).len() == 5,
        slots_of(m)[3] == (EditorSlot::FindPanel { open: m.editor.open }),
        slots_of(m)[4] == EditorSlot::Text,
        forall|i: int| 0 <= i < 4 ==> #[trigger] slots_of(m)[i] != EditorSlot::Text,
{
}

/// The distance from the top of a text to its line `line`, counted from 0.
pub open spec fn line_top(line: nat) -> nat {
    EDITOR_PADDING_TOP as nat + line * LINE_HEIGHT as nat
}

/// The distance from the top of a text to its line `line`, counted from 0.
/// Marks stand there, and the editor scrolls there.
pub fn line_offset(line: usize) -> (r: u128)
    ensures
        r == line_top(line as nat),
{
    assert(line * LINE_HEIGHT <= 20 * 0xffff_ffff_ffff_ffff) by {
        assert(LINE_HEIGHT == 20);
    }
    EDITOR_PADDING_TOP as u128 + line as u128 * LINE_HEIGHT as u128
}

/// Lines follow each other without a gap.
pub proof fn law_lines_adjoin(line: nat)
    ensures
        line_top(line + 1) == line_top(line) + LINE_HEIGHT,
        line_top(0) == EDITOR_PADDING_TOP,
{
}

// ---------------------------------------------------------------------------
// Marks behind the text
// ---------------------------------------------------------------------------

/// A mark on the line of a match.
pub struct MatchBand {
    pub top: u128,
    /// Whether the find panel is at this match.
    pub current: bool,
}

/// The marks on the lines of the matches. The one that the find panel is at is
/// told apart; there is none where `current` is no match.
pub fn match_bands(lines: &Vec<usize>, current: usize) -> (r: Vec<MatchBand>)
    ensures
        r@.len() == lines@.len(),
        forall|i: int|
            0 <= i < r@.len() ==> (#[trigger] r@[i]).top == line_top(lines@[i] as nat)
                && r@[i].current == (i == current),
{
    let mut r: Vec<MatchBand> = Vec::new();
    for i in 0..lines.len()
        invariant
            r@.len() == i,
            forall|j: int|
                0 <= j < i ==> (#[trigger] r@[j]).top == line_top(lines@[j] as nat)
                    && r@[j].current == (j == current),
    {
        r.push(MatchBand { top: line_offset(lines[i]), current: i == current });
    }
    r
}

/// A mark on a line with a diagnostic.
pub struct ErrorBand {
    pub top: u128,
    pub level: DiagnosticLevel,
}

/// The marks on the lines with diagnostics.
pub fn error_bands(errors: &Vec<EditorError>) -> (r: Vec<ErrorBand>)
    ensures
        r@.len() == errors@.len(),
        forall|i: int|
            0 <= i < r@.len() ==> (#[trigger] r@[i]).top == line_top(errors@[i].line as nat)
                && r@[i].level == errors@[i].level,
{
    let mut r: Vec<ErrorBand> = Vec::new();
    for i in 0..errors.len()
        invariant
            r@.len() == i,
            forall|j: int|
                0 <= j < i ==> (#[trigger] r@[j]).top == line_top(errors@[j].line as nat)
                    && r@[j].level == errors@[j].level,
    {
        r.push(ErrorBand { top: line_offset(errors[i].line), level: errors[i].level });
    }
    r
}

/// The shades of the lines of the output, in turn: `true` for the darker one.
pub fn zebra_rows(line_count: usize) -> (r: Vec<bool>)
    ensures
        r@ == Seq::new(line_count as nat, |i: int| i % 2 == 0),
{
    let mut r: Vec<bool> = Vec::new();
    for i in 0..line_count
        invariant
            r@ == Seq::new(i as nat, |j: int| j % 2 == 0),
    {
        r.push(i % 2 == 0);
        assert(r@ =~= Seq::new((i + 1) as nat, |j: int| j % 2 == 0));
    }
    r
}

// ---------------------------------------------------------------------------
// Line numbers
// ---------------------------------------------------------------------------

/// A line number beside a text.
pub struct GutterLine {
    /// The number, counted from 1.
    pub number: String,
    /// The level and the tooltip of the diagnostic on the line.
    pub mark: Option<(DiagnosticLevel, String)>,
}

/// The last of the given diagnostics that is on `line`.
pub open spec fn last_error_on(errors: Seq<EditorError>, line: usize) -> Option<EditorErrorModel>
    decreases errors.len(),
{
    if errors.len() == 0 {
        None
    } else if errors.last().line == line {
        Some(errors.last()@)
    } else {
        last_error_on(errors.drop_last(), line)
    }
}

/// The level and the tooltip that mark the number of `line`.
pub open spec fn gutter_mark(errors: Seq<EditorError>, line: usize) -> Option<
    (DiagnosticLevel, Seq<char>),
> {
    match last_error_on(errors, line) {
        Some(e) => Some((e.level, error_tooltip(e))),
        None => None,
    }
}

/// A level and a tooltip as text.
pub open spec fn mark_of(mark: Option<(DiagnosticLevel, String)>) -> Option<
    (DiagnosticLevel, Seq<char>),
> {
    match mark {
        Some((level, tip)) => Some((level, tip@)),
        None => None,
    }
}

fn mark_on(errors: &Vec<EditorError>, line: usize) -> (r: Option<(DiagnosticLevel, String)>)
    requires
        line < usize::MAX,
    ensures
        mark_of(r) == gutter_mark(errors@, line),
{
    let mut i: usize = errors.len();
    assert(errors@.take(errors@.len() as int) =~= errors@);
    while i > 0
        invariant
            line < usize::MAX,
            i <= errors@.len(),
            last_error_on(errors@, line) == last_error_on(errors@.take(i as int), line),
        decreases i,
    {
        assert(errors@.take(i as int).drop_last() =~= errors@.take(i - 1));
        assert(errors@.take(i as int).last() == errors@[i - 1]);
        let e: &EditorError = &errors[i - 1];
        if e.line == line {
            return Some((e.level, build_error_tooltip(e)));
        }
        i -= 1;
    }
    None
}

/// The numbers of all lines of a text, with marks on those with diagnostics.
pub fn gutter(line_count: usize, errors: &Vec<EditorError>) -> (r: Vec<GutterLine>)
    ensures
        r@.len() == line_count,
        forall|i: int|
            0 <= i < line_count ==> (#[trigger] r@[i]).number@ == decimal((i + 1) as nat)
                && mark_of(r@[i].mark) == gutter_mark(errors@, i as usize),
{
    let mut r: Vec<GutterLine> = Vec::new();
    for i in 0..line_count
        invariant
            r@.len() == i,
            forall|j: int|
                0 <= j < i ==> (#[trigger] r@[j]).number@ == decimal((j + 1) as nat) && mark_of(
                    r@[j].mark,
                ) == gutter_mark(errors@, j as usize),
    {
        let mut number: String = String::new();
        push_decimal(&mut number, i as u128 + 1);
        assert(number@ =~= decimal((i + 1) as nat));
        r.push(GutterLine { number, mark: mark_on(errors, i) });
    }
    r
}

} // verus!
