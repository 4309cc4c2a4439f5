use deff::diff::{
    get_diff_file_descriptors, parse_diff_name_status_output, parse_hunk_count, parse_hunk_header,
    parse_line_highlights_from_patch, split_into_lines, split_null_terminated, ContentFetch,
};
use deff::model::{FileContentSource, ResolvedComparison, StrategyId};
use deff::text::{fit_line, normalize_content, pad_to_width, slice_chars, truncate_to_width};
use deff::diff::build_file_views;
use deff::syntax::load_default_syntaxes;

fn range_comparison(includes_uncommitted: bool) -> ResolvedComparison {
    ResolvedComparison {
        strategy_id: StrategyId::Range,
        base_ref: "main".to_string(),
        head_ref: "HEAD".to_string(),
        base_commit: "1111111111".to_string(),
        head_commit: "2222222222".to_string(),
        summary: "main..HEAD".to_string(),
        details: Vec::new(),
        ahead_count: None,
        includes_uncommitted,
    }
}

#[test]
fn parse_name_status_rename_entry() {
    let raw = b"R100\0old.txt\0new.txt\0";
    let descriptors = parse_diff_name_status_output(
        raw,
        FileContentSource::Commit,
        FileContentSource::Commit,
    );

    assert_eq!(descriptors.len(), 1);
    assert_eq!(descriptors[0].display_path, "old.txt -> new.txt");
}

#[test]
fn parse_line_highlights_tracks_deleted_and_added_ranges() {
    let patch = "@@ -2,2 +5,3 @@";
    let highlights = parse_line_highlights_from_patch(patch);

    assert!(highlights.left_deleted_line_indexes.contains(&1));
    assert!(highlights.left_deleted_line_indexes.contains(&2));
    assert!(highlights.right_added_line_indexes.contains(&4));
    assert!(highlights.right_added_line_indexes.contains(&6));
}

#[test]
fn split_into_lines_trims_trailing_newline() {
    let lines = split_into_lines("a\nb\n");
    assert_eq!(lines, vec!["a".to_string(), "b".to_string()]);
}

#[test]
fn truncate_adds_ellipsis_for_long_values() {
    assert_eq!(truncate_to_width("abcdefgh", 6), "abc...");
}

#[test]
fn fit_line_pads_short_values() {
    assert_eq!(fit_line("abc", 5), "abc  ");
}

#[test]
fn normalize_content_expands_tabs_and_cr() {
    assert_eq!(normalize_content("a\tb\r"), "a  b");
}

#[test]
fn patch_highlight_sets_are_exact_and_sorted() {
    let patch = "context\n@@ -2,2 +5,3 @@ fn main()\nnoise";
    let highlights = parse_line_highlights_from_patch(patch);

    assert_eq!(highlights.left_deleted_line_indexes, vec![1, 2]);
    assert_eq!(highlights.right_added_line_indexes, vec![4, 5, 6]);
}

#[test]
fn hunk_header_grammar_is_strict() {
    assert_eq!(parse_hunk_header("@@ -2,2 +5,3 @@"), Some((Some(2), 2, Some(5), 3)));
    assert_eq!(parse_hunk_header("@@ -3 +4 @@ tail text"), Some((Some(3), 1, Some(4), 1)));
    assert_eq!(parse_hunk_header("@@ -0,0 +1,2 @@"), Some((Some(0), 0, Some(1), 2)));
    assert_eq!(parse_hunk_header("@@ -2,2 +5,3 @"), None);
    assert_eq!(parse_hunk_header(" @@ -2,2 +5,3 @@"), None);
    assert_eq!(parse_hunk_header("@@ -a,2 +5,3 @@"), None);
    assert_eq!(parse_hunk_header("plain context line"), None);
}

#[test]
fn hunk_count_defaults_to_one_and_overflow_to_zero() {
    assert_eq!(parse_hunk_count(None), 1);
    assert_eq!(parse_hunk_count(Some("7")), 7);
    assert_eq!(parse_hunk_count(Some("99999999999999999999999999")), 0);
}

#[test]
fn missing_count_marks_single_line() {
    let highlights = parse_line_highlights_from_patch("@@ -2 +7 @@");
    assert_eq!(highlights.left_deleted_line_indexes, vec![1]);
    assert_eq!(highlights.right_added_line_indexes, vec![6]);
}

#[test]
fn split_null_terminated_skips_empty_chunks() {
    let tokens = split_null_terminated(b"a\0\0b\0");
    assert_eq!(tokens, vec!["a".to_string(), "b".to_string()]);
}

#[test]
fn split_null_terminated_decodes_multibyte_text() {
    let tokens = split_null_terminated(b"caf\xc3\xa9\0x");
    assert_eq!(tokens, vec!["caf\u{e9}".to_string(), "x".to_string()]);
}

#[test]
fn added_and_deleted_entries_keep_one_path() {
    let raw = b"A\0new.rs\0D\0gone.rs\0M\0kept.rs\0";
    let descriptors = parse_diff_name_status_output(
        raw,
        FileContentSource::Commit,
        FileContentSource::Commit,
    );

    assert_eq!(descriptors.len(), 3);
    assert_eq!(descriptors[0].base_path, None);
    assert_eq!(descriptors[0].head_path, Some("new.rs".to_string()));
    assert_eq!(descriptors[0].base_source, FileContentSource::Missing);
    assert_eq!(descriptors[1].base_path, Some("gone.rs".to_string()));
    assert_eq!(descriptors[1].head_path, None);
    assert_eq!(descriptors[1].head_source, FileContentSource::Missing);
    assert_eq!(descriptors[2].base_path, Some("kept.rs".to_string()));
    assert_eq!(descriptors[2].head_path, Some("kept.rs".to_string()));
}

#[test]
fn untracked_paths_become_descriptors_once() {
    let comparison = range_comparison(true);
    let name_status = b"M\0kept.rs\0";
    let untracked = b"kept.rs\0fresh.rs\0fresh.rs\0";

    let descriptors = get_diff_file_descriptors(&comparison, name_status, untracked);

    assert_eq!(descriptors.len(), 2);
    assert_eq!(descriptors[0].display_path, "kept.rs");
    assert_eq!(descriptors[1].raw_status, "??");
    assert_eq!(descriptors[1].display_path, "fresh.rs");
    assert_eq!(descriptors[1].base_source, FileContentSource::Missing);
    assert_eq!(descriptors[1].head_source, FileContentSource::WorkingTree);
}

#[test]
fn committed_comparison_ignores_untracked_output() {
    let comparison = range_comparison(false);
    let descriptors = get_diff_file_descriptors(&comparison, b"M\0kept.rs\0", b"fresh.rs\0");
    assert_eq!(descriptors.len(), 1);
    assert_eq!(descriptors[0].display_path, "kept.rs");
}

#[test]
fn slice_and_pad_clip_to_bounds() {
    assert_eq!(slice_chars("abcdef", 2, 3), "cde");
    assert_eq!(slice_chars("abcdef", 5, 10), "f");
    assert_eq!(slice_chars("abcdef", 9, 3), "");
    assert_eq!(pad_to_width("abc".to_string(), 2), "ab");
}

#[test]
fn fetch_outcomes_are_reflected_in_view_lines() {
    let syntaxes = load_default_syntaxes();
    let descriptors = parse_diff_name_status_output(
        b"M\0notes.customext\0",
        FileContentSource::Commit,
        FileContentSource::Commit,
    );
    let views = build_file_views(
        &syntaxes,
        &descriptors,
        &vec![ContentFetch::Fetched(b"one\ntwo\n".to_vec())],
        &vec![ContentFetch::Fetched(b"one\nTWO\nthree\n".to_vec())],
        &vec![Some("@@ -2 +2,2 @@".to_string())],
    );

    assert_eq!(views.len(), 1);
    assert_eq!(views[0].left_lines, vec!["one".to_string(), "two".to_string()]);
    assert_eq!(
        views[0].right_lines,
        vec!["one".to_string(), "TWO".to_string(), "three".to_string()],
    );
    assert_eq!(views[0].left_deleted_line_indexes, vec![1]);
    assert_eq!(views[0].right_added_line_indexes, vec![1, 2]);
    assert_eq!(views[0].left_max_content_length, 3);
    assert_eq!(views[0].right_max_content_length, 5);
    assert_eq!(views[0].descriptor.display_path, "notes.customext");
    assert!(!views[0].review_key.is_empty());
}

#[test]
fn binary_and_failed_fetches_get_placeholders() {
    let syntaxes = load_default_syntaxes();
    let descriptors = parse_diff_name_status_output(
        b"M\0blob.bin\0",
        FileContentSource::Commit,
        FileContentSource::Commit,
    );
    let views = build_file_views(
        &syntaxes,
        &descriptors,
        &vec![ContentFetch::Fetched(b"\x00\x01\x02".to_vec())],
        &vec![ContentFetch::Failed("boom".to_string())],
        &vec![None],
    );

    assert_eq!(views[0].left_lines, vec!["<binary file preview not available>".to_string()]);
    assert_eq!(views[0].right_lines, vec!["<unable to load file: boom>".to_string()]);
    assert!(views[0].left_deleted_line_indexes.is_empty());
    assert!(views[0].right_added_line_indexes.is_empty());
}
