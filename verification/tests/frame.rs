use deff::model::{
    DiffFileDescriptor, DiffFileView, FileContentSource, PaneOffsets, PaneSide, ResolvedComparison,
    StrategyId, ThemeMode,
};
use deff::render::{
    create_frame_layout, dec_string, get_body_line_count, get_max_pane_offset,
    get_max_pane_offsets, get_pane_for_column, render_frame, short_commit,
    parse_terminal_palette_index, should_prefer_dark_theme, PaneLine,
};

fn sample_file() -> DiffFileView {
    DiffFileView {
        descriptor: DiffFileDescriptor {
            raw_status: "M".to_string(),
            display_path: "src/lib.rs".to_string(),
            base_path: Some("src/lib.rs".to_string()),
            head_path: Some("src/lib.rs".to_string()),
            base_source: FileContentSource::Commit,
            head_source: FileContentSource::Commit,
        },
        review_key: "k".to_string(),
        left_lines: vec!["alpha".to_string(), "beta".to_string()],
        right_lines: vec!["alpha".to_string(), "BETA".to_string(), "gamma".to_string()],
        left_language: None,
        right_language: None,
        left_deleted_line_indexes: vec![1],
        right_added_line_indexes: vec![1, 2],
        left_max_content_length: 5,
        right_max_content_length: 5,
    }
}

fn sample_comparison() -> ResolvedComparison {
    ResolvedComparison {
        strategy_id: StrategyId::Range,
        base_ref: "main".to_string(),
        head_ref: "HEAD".to_string(),
        base_commit: "0123456789abcdef".to_string(),
        head_commit: "fedcba9876543210".to_string(),
        summary: "main..HEAD".to_string(),
        details: vec!["commits in range: 3".to_string()],
        ahead_count: None,
        includes_uncommitted: false,
    }
}

#[test]
fn panes_and_separator_fill_the_terminal_width() {
    for columns in [5u16, 6, 7, 80, 81, 200, 65535] {
        let layout = create_frame_layout(columns, 24, 100);
        assert_eq!(layout.left_pane_width + 3 + layout.right_pane_width, columns as usize);
        assert!(layout.left_pane_width >= layout.right_pane_width);
        assert!(layout.left_pane_width - layout.right_pane_width <= 1);
    }
}

#[test]
fn body_line_count_floors_at_three() {
    assert_eq!(get_body_line_count(0), 3);
    assert_eq!(get_body_line_count(10), 3);
    assert_eq!(get_body_line_count(11), 3);
    assert_eq!(get_body_line_count(12), 4);
    assert_eq!(get_body_line_count(24), 16);
}

#[test]
fn line_number_column_is_stable_and_floored() {
    assert_eq!(create_frame_layout(80, 24, 0).line_number_width, 3);
    assert_eq!(create_frame_layout(80, 24, 999).line_number_width, 3);
    assert_eq!(create_frame_layout(80, 24, 1000).line_number_width, 4);
}

#[test]
fn degenerate_terminals_yield_minimal_geometry() {
    let layout = create_frame_layout(0, 0, 0);
    assert_eq!(layout.body_line_count, 3);
    assert_eq!(layout.left_pane_width, 1);
    assert_eq!(layout.right_pane_width, 1);
    assert_eq!(layout.left_content_width, 0);
    assert_eq!(layout.right_content_width, 0);
}

#[test]
fn pane_hit_testing_matches_column_ranges() {
    let layout = create_frame_layout(80, 24, 10);
    assert_eq!(get_pane_for_column(0, &layout), Some(PaneSide::Left));
    assert_eq!(get_pane_for_column(layout.left_pane_end_column, &layout), Some(PaneSide::Left));
    assert_eq!(get_pane_for_column(layout.left_pane_end_column + 2, &layout), None);
    assert_eq!(
        get_pane_for_column(layout.right_pane_start_column, &layout),
        Some(PaneSide::Right),
    );
    assert_eq!(get_pane_for_column(layout.right_pane_end_column + 1, &layout), None);
}

#[test]
fn max_pane_offset_subtracts_visible_width() {
    assert_eq!(get_max_pane_offset(100, 30), 70);
    assert_eq!(get_max_pane_offset(10, 30), 0);
    assert_eq!(get_max_pane_offset(100, 0), 0);

    let layout = create_frame_layout(80, 24, 10);
    let offsets = get_max_pane_offsets(&sample_file(), &layout);
    assert_eq!(offsets, PaneOffsets { left: 0, right: 0 });
}

#[test]
fn decimal_rendering_is_exact() {
    assert_eq!(dec_string(0), "0");
    assert_eq!(dec_string(7), "7");
    assert_eq!(dec_string(90210), "90210");
    assert_eq!(short_commit("0123456789abcdef"), "01234567");
    assert_eq!(short_commit("ab"), "ab");
}

#[test]
fn palette_parsing_accepts_trimmed_numerals() {
    assert_eq!(parse_terminal_palette_index(" 12 "), Some(12));
    assert_eq!(parse_terminal_palette_index("default"), None);
    assert_eq!(parse_terminal_palette_index(""), None);
}

#[test]
fn theme_choice_follows_override_env_and_palette() {
    assert!(should_prefer_dark_theme(Some(ThemeMode::Dark), Some("light"), None));
    assert!(!should_prefer_dark_theme(Some(ThemeMode::Light), Some("dark"), None));
    assert!(should_prefer_dark_theme(Some(ThemeMode::Auto), Some(" DARK "), None));
    assert!(!should_prefer_dark_theme(None, Some("light"), None));
    assert!(should_prefer_dark_theme(None, None, Some("15;0")));
    assert!(!should_prefer_dark_theme(None, None, Some("0;default;15")));
    assert!(should_prefer_dark_theme(None, None, Some("nonsense")));
    assert!(should_prefer_dark_theme(None, None, None));
}

#[test]
fn rendered_frame_has_fitted_lines_and_clamped_offsets() {
    let files = vec![sample_file()];
    let comparison = sample_comparison();
    let output = render_frame(
        &files,
        &comparison,
        0,
        99,
        PaneOffsets { left: 50, right: 50 },
        0,
        false,
        "search: /".to_string(),
        120,
        24,
    );

    assert_eq!(output.max_scroll, 0);
    assert_eq!(output.clamped_scroll_offset, 0);
    assert_eq!(output.clamped_pane_offsets, PaneOffsets { left: 0, right: 0 });
    assert_eq!(output.header_lines.len(), 4);
    assert_eq!(output.body_rows.len(), 16);
    for line in &output.header_lines {
        assert_eq!(line.chars().count(), 120);
    }
    assert_eq!(output.divider, "-".repeat(120));
    assert!(output.header_lines[0].starts_with("deff review (range)  main..HEAD"));
    assert!(output.header_lines[1].starts_with("filename: src/lib.rs"));
    assert!(output.header_lines[2].starts_with(
        "file 1/1 [M] [unreviewed] reviewed: 0/1  left: main (01234567)  right: HEAD (fedcba98)",
    ));
    assert!(output.footer_status.starts_with("lines 1-3/3  v 0/0  xL 0/0  xR 0/0  search: /"));

    match &output.body_rows[0].left {
        PaneLine::Full { prefix, content, .. } => {
            assert_eq!(prefix, "  1 ");
            assert!(content.starts_with("alpha"));
        },
        PaneLine::Narrow { .. } => panic!("wide terminals leave room for content"),
    }
}

#[test]
fn uncommitted_summary_names_the_working_tree() {
    let files = vec![sample_file()];
    let mut comparison = sample_comparison();
    comparison.includes_uncommitted = true;
    let output = render_frame(
        &files,
        &comparison,
        0,
        0,
        PaneOffsets { left: 0, right: 0 },
        0,
        true,
        "search: /".to_string(),
        120,
        24,
    );
    assert!(output.header_lines[2].contains("[reviewed]"));
    assert!(output.header_lines[2].contains("right: working tree (HEAD + local changes)"));
}
