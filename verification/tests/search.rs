use cargo_gui::search::{
    byte_offset_to_position, collect_all_match_lines, count_matches, editor_find_status_text,
    find_match_byte_offset, find_match_position, line_count, output_find_status_text,
    replace_all_matches, replace_match,
};

#[test]
fn byte_offset_to_position_single_line() {
    let text = "hello world";
    assert_eq!(byte_offset_to_position(text, 0), (0, 0));
    assert_eq!(byte_offset_to_position(text, 6), (0, 6));
}

#[test]
fn byte_offset_to_position_multi_line() {
    let text = "abc\ndef\nghi";
    assert_eq!(byte_offset_to_position(text, 0), (0, 0));
    assert_eq!(byte_offset_to_position(text, 4), (1, 0));
    assert_eq!(byte_offset_to_position(text, 6), (1, 2));
    assert_eq!(byte_offset_to_position(text, 8), (2, 0));
}

#[test]
fn byte_offset_to_position_unicode() {
    let text = "aäb\ncd";
    assert_eq!(byte_offset_to_position(text, 3), (0, 2));
    assert_eq!(byte_offset_to_position(text, 5), (1, 0));
}

#[test]
fn find_match_byte_offset_empty_needle() {
    assert_eq!(find_match_byte_offset("hello", "", 0), None);
}

#[test]
fn find_match_byte_offset_no_match() {
    assert_eq!(find_match_byte_offset("hello", "xyz", 0), None);
}

#[test]
fn find_match_byte_offset_first_match() {
    assert_eq!(find_match_byte_offset("abcabc", "bc", 0), Some(1));
}

#[test]
fn find_match_byte_offset_second_match() {
    assert_eq!(find_match_byte_offset("abcabc", "bc", 1), Some(4));
}

#[test]
fn find_match_byte_offset_out_of_range() {
    assert_eq!(find_match_byte_offset("abcabc", "bc", 2), None);
}

#[test]
fn find_match_byte_offset_multiline() {
    let text = "foo\nbar\nfoo";
    assert_eq!(find_match_byte_offset(text, "foo", 0), Some(0));
    assert_eq!(find_match_byte_offset(text, "foo", 1), Some(8));
}

#[test]
fn collect_all_match_lines_empty_needle() {
    assert!(collect_all_match_lines("hello\nworld", "").is_empty());
}

#[test]
fn collect_all_match_lines_no_match() {
    assert!(collect_all_match_lines("hello\nworld", "xyz").is_empty());
}

#[test]
fn collect_all_match_lines_single_line_two_matches() {
    let lines = collect_all_match_lines("abcabc", "bc");
    assert_eq!(lines, vec![0, 0]);
}

#[test]
fn collect_all_match_lines_multi_line() {
    let text = "foo\nbar\nfoo";
    let lines = collect_all_match_lines(text, "foo");
    assert_eq!(lines, vec![0, 2]);
}

#[test]
fn collect_all_match_lines_unicode() {
    let text = "über\nalles\nüber";
    let lines = collect_all_match_lines(text, "über");
    assert_eq!(lines, vec![0, 2]);
}

#[test]
fn collect_all_match_lines_emoji() {
    let text = "😀 hi\n😀 ho";
    let lines = collect_all_match_lines(text, "😀");
    assert_eq!(lines, vec![0, 1]);
}

#[test]
fn matches_do_not_overlap() {
    assert_eq!(count_matches("aaaa", "aa"), 2);
    assert_eq!(count_matches("aaaaa", "aa"), 2);
    assert_eq!(find_match_byte_offset("aaaa", "aa", 1), Some(2));
    assert_eq!(count_matches("abab", "bab"), 1);
    assert_eq!(count_matches("a", "aa"), 0);
    assert_eq!(count_matches("", "a"), 0);
    assert_eq!(count_matches("abc", ""), 0);
}

#[test]
fn searching_agrees_with_the_standard_library() {
    let texts = ["", "a", "abcabcabc", "ää\nä\n😀ä", "xxyxxyxx\n\nxx", "a\u{301}a"];
    let needles = ["a", "bc", "ä", "xx", "\n", "😀ä", "abcabc", "z"];
    for text in texts {
        for needle in needles {
            let offsets: Vec<usize> = text.match_indices(needle).map(|(i, _)| i).collect();
            assert_eq!(count_matches(text, needle), offsets.len());
            for (k, offset) in offsets.iter().enumerate() {
                assert_eq!(find_match_byte_offset(text, needle, k), Some(*offset));
            }
            assert_eq!(find_match_byte_offset(text, needle, offsets.len()), None);
            assert_eq!(replace_all_matches(text, needle, "<>"), text.replace(needle, "<>"));
            assert_eq!(line_count(text), text.split('\n').count());
        }
    }
}

// --- Replacing ---

#[test]
fn replace_one_unicode_safe() {
    let text = "für dich\nfür mich";
    let needle = "ü";
    let replacement = "ue";
    assert_eq!(count_matches(text, needle), 2);
    let result = replace_match(text, needle, replacement, 0).unwrap();
    assert_eq!(result, "fuer dich\nfür mich");
}

#[test]
fn replace_all_unicode_safe() {
    let text = "Größe und Größe";
    let result = replace_all_matches(text, "Größe", "size");
    assert_eq!(result, "size und size");
}

#[test]
fn replace_all_emoji() {
    let text = "hello 🎉 world 🎉 end";
    let result = replace_all_matches(text, "🎉", "!");
    assert_eq!(result, "hello ! world ! end");
}

#[test]
fn replace_one_last_match_clears_list() {
    let text = "hello world";
    let needle = "world";
    let new_text = replace_match(text, needle, "Rust", 0).unwrap();
    assert_eq!(new_text, "hello Rust");
    let new_lines = collect_all_match_lines(&new_text, needle);
    assert!(new_lines.is_empty(), "no matches after replace");
}

#[test]
fn replace_one_advances_correctly() {
    let text = "foo bar foo";
    let needle = "foo";
    assert_eq!(count_matches(text, needle), 2);
    let new_text = replace_match(text, needle, "baz", 0).unwrap();
    assert_eq!(new_text, "baz bar foo");
    let new_lines = collect_all_match_lines(&new_text, needle);
    assert_eq!(new_lines.len(), 1);
    let new_current = 0usize % new_lines.len();
    assert!(new_current < new_lines.len());
    assert_eq!(new_lines[new_current], 0);
}

#[test]
fn replacing_a_missing_match_gives_nothing() {
    assert_eq!(replace_match("foo", "foo", "x", 1), None);
    assert_eq!(replace_match("foo", "", "x", 0), None);
}

#[test]
fn replacing_back_gives_the_text_back() {
    let text = "one two one";
    let changed = replace_match(text, "one", "zwei", 1).unwrap();
    assert_eq!(changed, "one two zwei");
    assert_eq!(replace_match(&changed, "zwei", "one", 0).unwrap(), text);
    assert_eq!(replace_all_matches(text, "one", "one"), text);
    assert_eq!(replace_all_matches(text, "three", "x"), text);
    assert_eq!(replace_all_matches(text, "", "x"), text);
}

// --- Positions ---

#[test]
fn find_navigation_multi_line_correct_lines() {
    let text = "alpha\nbeta\nalpha\ngamma\nalpha";
    let lines = collect_all_match_lines(text, "alpha");
    assert_eq!(lines, vec![0, 2, 4]);
}

#[test]
fn active_match_highlight_line() {
    let text = "line0 needle\nline1\nline2 needle\nline3";
    let lines = collect_all_match_lines(text, "needle");
    assert_eq!(lines, vec![0, 2]);
    assert_eq!(lines[0], 0);
    assert_eq!(lines[1], 2);
}

#[test]
fn regression_cursor_line_col_multi_line() {
    let text = "alpha\nbeta\nalpha\ngamma\nalpha";
    let off0 = find_match_byte_offset(text, "alpha", 0).unwrap();
    assert_eq!(byte_offset_to_position(text, off0), (0, 0));
    let off1 = find_match_byte_offset(text, "alpha", 1).unwrap();
    assert_eq!(byte_offset_to_position(text, off1), (2, 0));
    let off2 = find_match_byte_offset(text, "alpha", 2).unwrap();
    assert_eq!(byte_offset_to_position(text, off2), (4, 0));
}

#[test]
fn position_of_a_match_counts_characters() {
    assert_eq!(find_match_position("äö\n  öx", "x", 0), Some((1, 3)));
    assert_eq!(find_match_position("äö\n  öx", "y", 0), None);
}

#[test]
fn regression_highlight_line_equals_first_match_line() {
    let text = "foo\nbar\nfoo\nbaz\nfoo";
    let lines = collect_all_match_lines(text, "foo");
    assert_eq!(lines[0], 0);
    assert_eq!(lines[1], 2);
    assert_eq!(lines[2], 4);
}

// --- Line count ---

#[test]
fn gutter_line_count_formula_correct() {
    assert_eq!(line_count("hello"), 1);
    assert_eq!(line_count("line1\nline2"), 2);
    assert_eq!(line_count("line1\nline2\n"), 3);
    assert_eq!(line_count(""), 1);
}

#[test]
fn gutter_covers_large_line_counts() {
    let count = 4_000usize;
    let content: String = (0..count).map(|i| format!("line {i}")).collect::<Vec<_>>().join("\n");
    let computed = line_count(&content);
    assert_eq!(computed, count, "gutter must show {count} line numbers but computed {computed}");
}

// --- Status texts ---

#[test]
fn find_status_uses_match_lines() {
    let text = "alpha\nbeta\nalpha\ngamma";
    let lines = collect_all_match_lines(text, "alpha");
    assert_eq!(lines, vec![0, 2]);
    let total = lines.len();
    let s0 = editor_find_status_text(0, total, Some(lines[0]));
    assert_eq!(s0, "Treffer 1 von 2 \u{2014} Zeile 1");
    let s1 = editor_find_status_text(1, total, Some(lines[1]));
    assert_eq!(s1, "Treffer 2 von 2 \u{2014} Zeile 3");
    let o0 = output_find_status_text(0, total, Some(lines[0]));
    assert_eq!(o0, "Treffer 1 von 2 \u{2014} Zeile 1");
}

#[test]
fn status_one_match_format() {
    let text = "only one needle here";
    let lines = collect_all_match_lines(text, "needle");
    assert_eq!(lines, vec![0]);
    let status = editor_find_status_text(0, 1, Some(lines[0]));
    assert_eq!(status, "Treffer 1 von 1 \u{2014} Zeile 1");
}

#[test]
fn status_many_matches_format() {
    let text = "x\nx\nx\nx\nx";
    let lines = collect_all_match_lines(text, "x");
    assert_eq!(lines.len(), 5);
    let s0 = editor_find_status_text(0, 5, Some(lines[0]));
    assert_eq!(s0, "Treffer 1 von 5 \u{2014} Zeile 1");
    let s4 = editor_find_status_text(4, 5, Some(lines[4]));
    assert_eq!(s4, "Treffer 5 von 5 \u{2014} Zeile 5");
}

#[test]
fn status_no_active_selection_falls_back() {
    let status = editor_find_status_text(0, 5, None);
    assert_eq!(status, "Treffer 0 von 5");
    let status2 = output_find_status_text(2, 10, None);
    assert_eq!(status2, "Treffer 0 von 10");
}

#[test]
fn status_line_number_matches_highlight() {
    let text = "line0\nline1\nneedle\nline3\nneedle";
    let lines = collect_all_match_lines(text, "needle");
    assert_eq!(lines, vec![2, 4]);
    let s0 = editor_find_status_text(0, 2, Some(lines[0]));
    assert!(s0.contains("Zeile 3"), "first match must show Zeile 3, got: {s0}");
    let s1 = editor_find_status_text(1, 2, Some(lines[1]));
    assert!(s1.contains("Zeile 5"), "second match must show Zeile 5, got: {s1}");
}

#[test]
fn status_multiple_matches_same_line() {
    let text = "ab ab ab";
    let lines = collect_all_match_lines(text, "ab");
    assert_eq!(lines, vec![0, 0, 0]);
    let s0 = editor_find_status_text(0, 3, Some(0));
    assert_eq!(s0, "Treffer 1 von 3 \u{2014} Zeile 1");
    let s1 = editor_find_status_text(1, 3, Some(0));
    assert_eq!(s1, "Treffer 2 von 3 \u{2014} Zeile 1");
    let s2 = editor_find_status_text(2, 3, Some(0));
    assert_eq!(s2, "Treffer 3 von 3 \u{2014} Zeile 1");
}

#[test]
fn status_term_change_resets_to_first_match() {
    let text = "alpha\nbeta\nalpha";
    let lines_alpha = collect_all_match_lines(text, "alpha");
    assert_eq!(lines_alpha, vec![0, 2]);
    let lines_beta = collect_all_match_lines(text, "beta");
    assert_eq!(lines_beta, vec![1]);
    let status = editor_find_status_text(0, lines_beta.len(), Some(lines_beta[0]));
    assert_eq!(status, "Treffer 1 von 1 \u{2014} Zeile 2");
}

#[test]
fn regression_no_slash_format_in_status() {
    let status = editor_find_status_text(0, 32, Some(231));
    assert!(!status.contains('/'), "status must not use '/' separator: {status}");
    assert!(!status.contains("--"), "status must not use '--': {status}");
    assert!(status.contains('\u{2014}'), "status must use em dash: {status}");
    assert_eq!(status, "Treffer 1 von 32 \u{2014} Zeile 232");
}

#[test]
fn output_find_status_same_format() {
    let status = output_find_status_text(4, 10, Some(99));
    assert_eq!(status, "Treffer 5 von 10 \u{2014} Zeile 100");
    let no_match = output_find_status_text(0, 0, None);
    assert_eq!(no_match, "Treffer 0 von 0");
}

#[test]
fn line_and_column_give_the_offset_back() {
    let text = "a\u{e4}b\n\n\u{4e2d}x\n";
    let mut last = None;
    for (offset, _) in text.char_indices().chain([(text.len(), ' ')]) {
        let (line, column) = byte_offset_to_position(text, offset);
        let lines: Vec<&str> = text.split('\n').collect();
        let before: usize = lines[..line].iter().map(|l| l.len() + 1).sum();
        let within: usize = lines[line].chars().take(column).map(|c| c.len_utf8()).sum();
        assert!(column <= lines[line].chars().count());
        assert_eq!(before + within, offset);
        assert!(last < Some((line, column)));
        last = Some((line, column));
    }
}
