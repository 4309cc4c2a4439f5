use deff::model::{DiffFileDescriptor, DiffFileView, FileContentSource, ResolvedComparison,
    StrategyId};
use deff::review::{
    comparison_scope_key, compute_review_key, parse_reviewed_hashes, ReviewStore, StableHasher,
};

fn modified_descriptor() -> DiffFileDescriptor {
    DiffFileDescriptor {
        raw_status: "M".to_string(),
        display_path: "src/main.rs".to_string(),
        base_path: Some("src/main.rs".to_string()),
        head_path: Some("src/main.rs".to_string()),
        base_source: FileContentSource::Commit,
        head_source: FileContentSource::Commit,
    }
}

fn comparison(strategy_id: StrategyId, includes_uncommitted: bool) -> ResolvedComparison {
    ResolvedComparison {
        strategy_id,
        base_ref: "origin/main".to_string(),
        head_ref: "HEAD".to_string(),
        base_commit: "1111".to_string(),
        head_commit: "2222".to_string(),
        summary: "origin/main..HEAD".to_string(),
        details: Vec::new(),
        ahead_count: None,
        includes_uncommitted,
    }
}

#[test]
fn parse_reviewed_hashes_ignores_empty_lines() {
    let parsed = parse_reviewed_hashes("abc\n\n  \ndef\n");
    assert!(parsed.contains(&"abc".to_string()));
    assert!(parsed.contains(&"def".to_string()));
    assert_eq!(parsed.len(), 2);
}

#[test]
fn reviewed_lines_are_trimmed_of_unicode_whitespace() {
    let parsed = parse_reviewed_hashes("\u{a0}abc\u{2003}\n\u{3000}\n");
    assert_eq!(parsed, vec!["abc".to_string()]);
}

#[test]
fn review_key_changes_when_file_content_changes() {
    let descriptor = modified_descriptor();

    let first = compute_review_key(&descriptor, &vec!["a".to_string()], &vec!["b".to_string()]);
    let second = compute_review_key(&descriptor, &vec!["a".to_string()], &vec!["c".to_string()]);

    assert_ne!(first, second);
}

#[test]
fn review_key_is_deterministic_for_identical_inputs() {
    let descriptor = modified_descriptor();
    let left = vec!["fn main() {}".to_string()];
    let right = vec!["fn main() { run() }".to_string()];

    let first = compute_review_key(&descriptor, &left, &right);
    let second = compute_review_key(&modified_descriptor(), &left.clone(), &right.clone());

    assert_eq!(first, second);
    assert_eq!(first.len(), 16);
}

#[test]
fn review_key_depends_on_side_not_just_content() {
    let descriptor = modified_descriptor();
    let a = compute_review_key(&descriptor, &vec!["x".to_string()], &vec![]);
    let b = compute_review_key(&descriptor, &vec![], &vec!["x".to_string()]);
    assert_ne!(a, b);
}

#[test]
fn hasher_matches_known_fnv_values() {
    let hasher = StableHasher::new();
    assert_eq!(hasher.finish_hex(), "cbf29ce484222325");

    let mut hasher = StableHasher::new();
    hasher.write_bytes(b"a");
    assert_eq!(hasher.finish_hex(), "af63dc4c8601ec8c");
}

#[test]
fn scope_keys_separate_comparisons() {
    let range = comparison_scope_key(&comparison(StrategyId::Range, false));
    let upstream = comparison_scope_key(&comparison(StrategyId::UpstreamAhead, false));
    let uncommitted = comparison_scope_key(&comparison(StrategyId::Range, true));

    assert_ne!(range, upstream);
    assert_ne!(range, uncommitted);
    assert_eq!(range, comparison_scope_key(&comparison(StrategyId::Range, false)));
}

#[test]
fn store_round_trip_keeps_sorted_unique_lines() {
    let store = ReviewStore::load_from_text("bbb\naaa\nbbb\n");
    assert_eq!(store.persist_text(), "aaa\nbbb\n");

    let empty = ReviewStore::load_from_text("");
    assert_eq!(empty.persist_text(), "");
}

#[test]
fn toggling_membership_twice_restores_the_set() {
    let mut store = ReviewStore::load_from_text("aaa\nccc\n");

    store.set_reviewed("bbb", true);
    assert_eq!(store.persist_text(), "aaa\nbbb\nccc\n");

    store.set_reviewed("bbb", false);
    assert_eq!(store.persist_text(), "aaa\nccc\n");

    store.set_reviewed("aaa", false);
    store.set_reviewed("aaa", true);
    assert_eq!(store.persist_text(), "aaa\nccc\n");
}

#[test]
fn reviewed_flags_follow_fingerprints() {
    let descriptor = modified_descriptor();
    let key = compute_review_key(&descriptor, &vec!["a".to_string()], &vec!["b".to_string()]);
    let view = DiffFileView {
        descriptor,
        review_key: key.clone(),
        left_lines: vec!["a".to_string()],
        right_lines: vec!["b".to_string()],
        left_language: None,
        right_language: None,
        left_deleted_line_indexes: Vec::new(),
        right_added_line_indexes: Vec::new(),
        left_max_content_length: 1,
        right_max_content_length: 1,
    };

    let mut store = ReviewStore::load_from_text("");
    assert_eq!(store.reviewed_flags_for_files(&vec![view.clone()]), vec![false]);

    store.set_reviewed(&key, true);
    assert_eq!(store.reviewed_flags_for_files(&vec![view]), vec![true]);
}
