use deff::app::{
    build_hunk_start_lines, build_search_match_line_indexes, handle_keypress, handle_mouse,
    next_match_index, AppState, KeyCode, KeyInput, MouseInput, MouseKind,
};
use deff::model::{DiffFileDescriptor, DiffFileView, FileContentSource, PaneOffsets, PaneSide};

fn create_test_file(left_lines: &[&str], right_lines: &[&str]) -> DiffFileView {
    DiffFileView {
        descriptor: DiffFileDescriptor {
            raw_status: "M".to_string(),
            display_path: "src/main.rs".to_string(),
            base_path: Some("src/main.rs".to_string()),
            head_path: Some("src/main.rs".to_string()),
            base_source: FileContentSource::Commit,
            head_source: FileContentSource::Commit,
        },
        review_key: "key".to_string(),
        left_lines: left_lines.iter().map(|line| line.to_string()).collect(),
        right_lines: right_lines.iter().map(|line| line.to_string()).collect(),
        left_language: Some("rust".to_string()),
        right_language: Some("rust".to_string()),
        left_deleted_line_indexes: Vec::new(),
        right_added_line_indexes: Vec::new(),
        left_max_content_length: 0,
        right_max_content_length: 0,
    }
}

fn plain_key(code: KeyCode) -> KeyInput {
    KeyInput { code, ctrl: false, alt: false, shift: false }
}

#[test]
fn search_matches_include_left_and_right_panes() {
    let file = create_test_file(&["alpha", "left-hit", "gamma"], &["one", "two", "right-hit"]);

    let left_matches = build_search_match_line_indexes(&file, "left");
    let right_matches = build_search_match_line_indexes(&file, "right");

    assert_eq!(left_matches, vec![1]);
    assert_eq!(right_matches, vec![2]);
}

#[test]
fn next_match_index_wraps_both_directions() {
    assert_eq!(next_match_index(3, Some(2), true), Some(0));
    assert_eq!(next_match_index(3, Some(0), false), Some(2));
    assert_eq!(next_match_index(3, None, true), Some(0));
    assert_eq!(next_match_index(3, None, false), Some(2));
}

#[test]
fn reviewed_toggle_updates_reviewed_count() {
    let mut app = AppState {
        file_index: 1,
        scroll_offset: 0,
        pane_offsets_by_file: vec![PaneOffsets { left: 0, right: 0 }, PaneOffsets {
            left: 0,
            right: 0,
        }],
        reviewed_by_file: vec![false, false],
        reviewed_count: 0,
        search_input_mode: false,
        search_query: String::new(),
        search_input: String::new(),
        search_match_line_indexes: Vec::new(),
        search_match_index: None,
    };

    let first = app.toggle_current_file_reviewed();
    let second = app.toggle_current_file_reviewed();

    assert!(first);
    assert!(!second);
    assert_eq!(app.reviewed_count(), 0);
}

#[test]
fn hunk_starts_keep_only_run_openers() {
    let mut file = create_test_file(&["a"; 12], &["b"; 12]);
    file.left_deleted_line_indexes = vec![4, 5];
    file.right_added_line_indexes = vec![5, 6, 9];

    let starts = build_hunk_start_lines(&file);
    assert_eq!(starts, vec![4, 9]);
}

#[test]
fn file_switch_resets_scroll_and_keeps_pane_offsets() {
    let files = vec![
        create_test_file(&["a"; 30], &["b"; 30]),
        create_test_file(&["c"; 30], &["d"; 30]),
    ];
    let mut app = AppState::new(2, vec![false, false]);
    app.scroll_offset = 7;
    app.pane_offsets_by_file[0] = PaneOffsets { left: 3, right: 4 };
    app.pane_offsets_by_file[1] = PaneOffsets { left: 5, right: 6 };

    let outcome = handle_keypress(plain_key(KeyCode::Right), &files, &mut app, 24);

    assert!(!outcome.should_quit);
    assert_eq!(app.file_index, 1);
    assert_eq!(app.scroll_offset, 0);
    assert_eq!(app.pane_offsets_by_file[0], PaneOffsets { left: 3, right: 4 });
    assert_eq!(app.pane_offsets_by_file[1], PaneOffsets { left: 5, right: 6 });
}

#[test]
fn scroll_keys_clamp_to_file_bounds() {
    let files = vec![create_test_file(&["x"; 40], &["y"; 40])];
    let mut app = AppState::new(1, vec![false]);

    // 24 terminal rows leave 16 body lines, so the greatest scroll is 24.
    handle_keypress(plain_key(KeyCode::End), &files, &mut app, 24);
    assert_eq!(app.scroll_offset, 24);

    handle_keypress(plain_key(KeyCode::Down), &files, &mut app, 24);
    assert_eq!(app.scroll_offset, 24);

    handle_keypress(plain_key(KeyCode::Up), &files, &mut app, 24);
    assert_eq!(app.scroll_offset, 23);

    handle_keypress(plain_key(KeyCode::Home), &files, &mut app, 24);
    assert_eq!(app.scroll_offset, 0);

    handle_keypress(plain_key(KeyCode::Up), &files, &mut app, 24);
    assert_eq!(app.scroll_offset, 0);
}

#[test]
fn quit_keys_report_quit() {
    let files = vec![create_test_file(&["a"], &["b"])];
    let mut app = AppState::new(1, vec![false]);

    let outcome = handle_keypress(plain_key(KeyCode::Char('q')), &files, &mut app, 24);
    assert!(outcome.should_quit);

    let ctrl_c = KeyInput { code: KeyCode::Char('c'), ctrl: true, alt: false, shift: false };
    let outcome = handle_keypress(ctrl_c, &files, &mut app, 24);
    assert!(outcome.should_quit);
}

#[test]
fn review_toggle_key_reports_toggle_outward() {
    let files = vec![create_test_file(&["a"], &["b"])];
    let mut app = AppState::new(1, vec![false]);

    let outcome = handle_keypress(plain_key(KeyCode::Char('r')), &files, &mut app, 24);
    assert_eq!(outcome.review_toggled, Some((0, true)));
    assert_eq!(app.reviewed_count(), 1);

    let outcome = handle_keypress(plain_key(KeyCode::Char('r')), &files, &mut app, 24);
    assert_eq!(outcome.review_toggled, Some((0, false)));
    assert_eq!(app.reviewed_count(), 0);
}

#[test]
fn committed_search_jumps_to_first_match_at_or_after_scroll() {
    let files = vec![create_test_file(
        &["alpha", "needle", "gamma", "delta", "needle two"],
        &["one", "two", "three", "four", "five"],
    )];
    let mut app = AppState::new(1, vec![false]);

    handle_keypress(plain_key(KeyCode::Char('/')), &files, &mut app, 40);
    assert!(app.is_search_input_mode());
    for ch in "needle".chars() {
        handle_keypress(plain_key(KeyCode::Char(ch)), &files, &mut app, 40);
    }
    handle_keypress(plain_key(KeyCode::Enter), &files, &mut app, 40);

    assert!(!app.is_search_input_mode());
    assert_eq!(app.search_match_line_indexes, vec![1, 4]);
    assert_eq!(app.search_match_index, Some(0));
    assert_eq!(app.search_status_text(), "search: /needle (1/2)");

    handle_keypress(plain_key(KeyCode::Char('n')), &files, &mut app, 40);
    assert_eq!(app.search_match_index, Some(1));

    handle_keypress(plain_key(KeyCode::Char('n')), &files, &mut app, 40);
    assert_eq!(app.search_match_index, Some(0));
}

#[test]
fn cancelled_search_keeps_previous_query() {
    let files = vec![create_test_file(&["needle"], &["hay"])];
    let mut app = AppState::new(1, vec![false]);

    handle_keypress(plain_key(KeyCode::Char('/')), &files, &mut app, 24);
    for ch in "needle".chars() {
        handle_keypress(plain_key(KeyCode::Char(ch)), &files, &mut app, 24);
    }
    handle_keypress(plain_key(KeyCode::Enter), &files, &mut app, 24);
    assert_eq!(app.search_query, "needle");

    handle_keypress(plain_key(KeyCode::Char('/')), &files, &mut app, 24);
    for ch in "junk".chars() {
        handle_keypress(plain_key(KeyCode::Char(ch)), &files, &mut app, 24);
    }
    handle_keypress(plain_key(KeyCode::Esc), &files, &mut app, 24);

    assert!(!app.is_search_input_mode());
    assert_eq!(app.search_query, "needle");
    assert_eq!(app.search_match_line_indexes, vec![0]);
}

#[test]
fn mouse_wheel_scrolls_three_lines() {
    let files = vec![create_test_file(&["x"; 40], &["y"; 40])];
    let mut app = AppState::new(1, vec![false]);

    let wheel_down = MouseInput { kind: MouseKind::ScrollDown, row: 6, column: 2, shift: false };
    handle_mouse(wheel_down, &files, &mut app, 80, 24);
    assert_eq!(app.scroll_offset, 3);

    let wheel_up = MouseInput { kind: MouseKind::ScrollUp, row: 6, column: 2, shift: false };
    handle_mouse(wheel_up, &files, &mut app, 80, 24);
    assert_eq!(app.scroll_offset, 0);
}

#[test]
fn shift_wheel_scrolls_hovered_pane_horizontally() {
    let mut file = create_test_file(&["wide"; 10], &["wide"; 10]);
    file.left_max_content_length = 200;
    file.right_max_content_length = 200;
    let files = vec![file];
    let mut app = AppState::new(1, vec![false]);

    let shifted = MouseInput { kind: MouseKind::ScrollDown, row: 6, column: 2, shift: true };
    handle_mouse(shifted, &files, &mut app, 80, 24);
    assert_eq!(app.pane_offsets_by_file[0].left, 8);
    assert_eq!(app.pane_offsets_by_file[0].right, 0);

    let right_pane = MouseInput { kind: MouseKind::ScrollRight, row: 6, column: 60, shift: false };
    handle_mouse(right_pane, &files, &mut app, 80, 24);
    assert_eq!(app.pane_offsets_by_file[0].right, 8);
}

#[test]
fn hunk_jump_wraps_forward() {
    let mut file = create_test_file(&["a"; 40], &["b"; 40]);
    file.left_deleted_line_indexes = vec![4, 5, 6];
    file.right_added_line_indexes = vec![9];
    let files = vec![file];
    let mut app = AppState::new(1, vec![false]);

    handle_keypress(plain_key(KeyCode::Char('}')), &files, &mut app, 24);
    assert_eq!(app.scroll_offset, 4);

    handle_keypress(plain_key(KeyCode::Char('}')), &files, &mut app, 24);
    assert_eq!(app.scroll_offset, 9);

    handle_keypress(plain_key(KeyCode::Char('}')), &files, &mut app, 24);
    assert_eq!(app.scroll_offset, 4);

    handle_keypress(plain_key(KeyCode::Char('{')), &files, &mut app, 24);
    assert_eq!(app.scroll_offset, 9);
}

#[test]
fn pane_side_values_are_distinct() {
    assert_ne!(PaneSide::Left, PaneSide::Right);
}
