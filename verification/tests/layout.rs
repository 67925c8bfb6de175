use cargo_gui::app::App;
use cargo_gui::config::Config;
use cargo_gui::diagnostics::{DiagnosticLevel, EditorError};
use cargo_gui::layout::{
    error_bands, gutter, line_offset, match_bands, zebra_rows, EditorSlot, Layer, MainPart,
    EDITOR_PADDING_TOP, LINE_HEIGHT,
};
use cargo_gui::message::{ContextMenuKind, ContextMenuState, Page, Place};

fn start() -> App {
    App::new(Config::default(), Place { point: iced::Point::ORIGIN }).0
}

fn error(line: usize, level: DiagnosticLevel, message: &str) -> EditorError {
    EditorError { line, column: 1, level, message: message.to_string(), error_code: None }
}

#[test]
fn highlight_offset_includes_editor_padding() {
    assert_eq!(
        EDITOR_PADDING_TOP as f32, 5.0,
        "EDITOR_PADDING_TOP must match text_editor default Padding::new(5.0)"
    );
    assert_eq!(
        LINE_HEIGHT as f32, 20.0,
        "LINE_HEIGHT must match the absolute line height set on the text_editor widget"
    );
    assert_eq!(line_offset(0) as f32, 5.0);
    assert_eq!(line_offset(1) as f32, 25.0);
    assert_eq!(line_offset(5) as f32, 105.0);
    let without_padding = 5.0 * LINE_HEIGHT as f32;
    assert_eq!(without_padding, 100.0);
    assert_eq!(line_offset(5) as f32 - without_padding, EDITOR_PADDING_TOP as f32);
    assert_eq!(match_bands(&vec![0, 1, 5], 0)[2].top, 105);
}

#[test]
fn scroll_target_matches_highlight_offset() {
    assert_eq!(line_offset(0) as f32, 5.0);
    assert_eq!(line_offset(1) as f32, 25.0);
    assert_eq!(line_offset(10) as f32, 205.0);
    assert_eq!(line_offset(50) as f32, 1005.0);
    let without_padding = 10.0 * LINE_HEIGHT as f32;
    assert_ne!(
        without_padding,
        line_offset(10) as f32,
        "scroll target must include EDITOR_PADDING_TOP"
    );
    for line in [0usize, 1, 10, 50] {
        assert_eq!(match_bands(&vec![line], 0)[0].top, line_offset(line));
    }
}

#[test]
fn regression_overlay_structure_scroll_target_stable() {
    let deep_line = 99usize;
    let y = line_offset(deep_line) as f32;
    assert!(y > 0.0, "scroll target for line {deep_line} must be > 0");
    assert_eq!(y, EDITOR_PADDING_TOP as f32 + 99.0 * LINE_HEIGHT as f32);
    let with_tooltip = line_offset(deep_line);
    let without_tooltip = line_offset(deep_line);
    assert_eq!(
        with_tooltip, without_tooltip,
        "scroll target must be identical regardless of tooltip visibility"
    );
}

#[test]
fn regression_find_panel_spacer_and_overlay_stability_combined() {
    let mut app = start();
    let slots = app.editor_slots();
    let editor_scrollable_col_index =
        slots.iter().position(|slot| *slot == EditorSlot::Text).unwrap();
    assert_eq!(
        editor_scrollable_col_index, 4,
        "editor scrollable must always be at column index 4"
    );
    assert_eq!(slots.len(), 3 + 2);
    for open in [false, true] {
        app.editor.find_replace_open = open;
        let slots = app.editor_slots();
        assert_eq!(slots[3], EditorSlot::FindPanel { open });
        assert_eq!(slots[4], EditorSlot::Text);
    }
    let layers = app.window_layers();
    let outer_stack_layers: usize = layers.len();
    assert_eq!(outer_stack_layers, 3);
    let main_col_stack_index = layers.iter().position(|layer| matches!(layer, Layer::Main(_))).unwrap();
    assert_eq!(
        main_col_stack_index, 0,
        "main_col must always be at stack index 0 to prevent state resets"
    );
    assert!(
        main_col_stack_index < outer_stack_layers,
        "main_col index must be within the stack's layer count"
    );
}

#[test]
fn largest_line_has_an_offset() {
    assert_eq!(line_offset(usize::MAX), 5 + 20 * (usize::MAX as u128));
}

#[test]
fn only_the_current_match_is_told_apart() {
    let bands = match_bands(&vec![3, 3, 8], 1);
    let tops: Vec<u128> = bands.iter().map(|b| b.top).collect();
    let current: Vec<bool> = bands.iter().map(|b| b.current).collect();
    assert_eq!(tops, vec![65, 65, 165]);
    assert_eq!(current, vec![false, true, false]);
    assert!(match_bands(&vec![1, 2], 2).iter().all(|b| !b.current));
    assert!(match_bands(&Vec::new(), 0).is_empty());
}

#[test]
fn every_diagnostic_has_a_band() {
    let bands = error_bands(&vec![
        error(2, DiagnosticLevel::Error, ""),
        error(0, DiagnosticLevel::Note, ""),
    ]);
    assert_eq!(bands.len(), 2);
    assert_eq!((bands[0].top, bands[0].level), (45, DiagnosticLevel::Error));
    assert_eq!((bands[1].top, bands[1].level), (5, DiagnosticLevel::Note));
}

#[test]
fn rows_alternate() {
    assert_eq!(zebra_rows(4), vec![true, false, true, false]);
    assert!(zebra_rows(0).is_empty());
}

#[test]
fn numbers_are_marked_on_lines_with_diagnostics() {
    let errors = vec![
        error(1, DiagnosticLevel::Error, "old"),
        error(1, DiagnosticLevel::Warning, "new"),
        error(7, DiagnosticLevel::Note, "beyond"),
    ];
    let lines = gutter(3, &errors);
    let numbers: Vec<&str> = lines.iter().map(|l| l.number.as_str()).collect();
    assert_eq!(numbers, vec!["1", "2", "3"]);
    assert!(lines[0].mark.is_none());
    let (level, tip) = lines[1].mark.as_ref().unwrap();
    assert_eq!(*level, DiagnosticLevel::Warning);
    assert_eq!(tip, "WARNUNG\nZeile 2, Spalte 1 — new");
    assert!(lines[2].mark.is_none());
    assert_eq!(gutter(4_000, &errors).last().unwrap().number, "4000");
}

#[test]
fn overlays_come_and_go_above_the_page() {
    let mut app = start();
    app.current_page = Page::Editor;
    for menu in [false, true] {
        for tip in [false, true] {
            let place = Place { point: iced::Point::ORIGIN };
            let kind = ContextMenuKind::Editor;
            app.context_menu = if menu { Some(ContextMenuState { place, kind }) } else { None };
            app.tooltip_text = if tip { Some("tip".to_string()) } else { None };
            let layers = app.window_layers();
            assert_eq!(layers.len(), 3);
            match &layers[0] {
                Layer::Main(parts) => assert_eq!(
                    parts,
                    &vec![MainPart::TopBar, MainPart::Page(Page::Editor), MainPart::Footer]
                ),
                _ => panic!("the page is the lowest layer"),
            }
            match &layers[1] {
                Layer::ContextMenu(shown) => assert_eq!(shown.is_some(), menu),
                _ => panic!("the menu is the second layer"),
            }
            match &layers[2] {
                Layer::Tooltip(shown) => assert_eq!(shown.as_deref(), tip.then_some("tip")),
                _ => panic!("the tooltip is the third layer"),
            }
        }
    }
}
