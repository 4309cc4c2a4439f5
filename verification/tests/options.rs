use deff::cli::{CliOptions, ConfigError};
use deff::git::{
    apply_uncommitted_overlay, build_patch_args, diff_name_status_args, parse_usize_value,
    resolve_range_comparison, resolve_upstream_ahead_comparison, should_report_no_commits,
};
use deff::model::{StrategyArg, StrategyId, ThemeMode};

#[test]
fn strategy_defaults_follow_base_presence() {
    let options = CliOptions::from_cli_parts(None, None, "HEAD".to_string(), false, ThemeMode::Auto)
        .expect("defaults should validate");
    assert_eq!(options.strategy_id, StrategyId::UpstreamAhead);

    let options = CliOptions::from_cli_parts(
        None,
        Some("main".to_string()),
        "HEAD".to_string(),
        false,
        ThemeMode::Auto,
    )
        .expect("an implicit range should validate");
    assert_eq!(options.strategy_id, StrategyId::Range);
    assert_eq!(options.base_ref.as_deref(), Some("main"));
}

#[test]
fn conflicting_options_name_their_conflict() {
    let err = CliOptions::from_cli_parts(
        Some(StrategyArg::Range),
        None,
        "HEAD".to_string(),
        false,
        ThemeMode::Auto,
    )
        .expect_err("range without base must fail");
    assert_eq!(err, ConfigError::RangeRequiresBase);
    assert_eq!(err.message(), "--strategy range requires --base <git-ref>");

    let err = CliOptions::from_cli_parts(
        Some(StrategyArg::UpstreamAhead),
        Some("main".to_string()),
        "HEAD".to_string(),
        false,
        ThemeMode::Auto,
    )
        .expect_err("explicit upstream-ahead with base must fail");
    assert_eq!(err, ConfigError::BaseRequiresRangeStrategy);

    let err = CliOptions::from_cli_parts(
        None,
        None,
        "feature".to_string(),
        true,
        ThemeMode::Auto,
    )
        .expect_err("uncommitted with a non-default head must fail");
    assert_eq!(err, ConfigError::UncommittedRequiresDefaultHead);
    assert_eq!(err.message(), "--include-uncommitted currently requires --head HEAD");
}

#[test]
fn counting_output_parses_or_reports_context() {
    assert_eq!(parse_usize_value(" 42\n", "ahead count"), Ok(42));
    assert_eq!(
        parse_usize_value("4x", "ahead count"),
        Err("unable to parse ahead count: 4x".to_string()),
    );
}

#[test]
fn upstream_comparison_carries_counts_and_details() {
    let comparison = resolve_upstream_ahead_comparison(
        "origin/main",
        "HEAD",
        "feature",
        "1111",
        "2222",
        "3\n",
        " 1 ",
    )
        .expect("counts parse");
    assert_eq!(comparison.strategy_id, StrategyId::UpstreamAhead);
    assert_eq!(comparison.summary, "origin/main..HEAD");
    assert_eq!(
        comparison.details,
        vec![
            "branch: feature".to_string(),
            "upstream: origin/main".to_string(),
            "ahead: 3".to_string(),
            "behind: 1".to_string(),
        ],
    );
    assert_eq!(comparison.ahead_count, Some(3));
    assert!(!should_report_no_commits(&comparison));

    let idle = resolve_upstream_ahead_comparison(
        "origin/main",
        "HEAD",
        "feature",
        "1111",
        "2222",
        "0",
        "0",
    )
        .expect("counts parse");
    assert!(should_report_no_commits(&idle));
}

#[test]
fn range_comparison_summarises_the_range() {
    let comparison = resolve_range_comparison("v1", "v2", "aaaa", "bbbb", "5")
        .expect("count parses");
    assert_eq!(comparison.summary, "v1..v2");
    assert_eq!(comparison.details, vec!["commits in range: 5".to_string()]);
    assert!(resolve_range_comparison("v1", "v2", "aaaa", "bbbb", "many").is_err());
}

#[test]
fn uncommitted_overlay_rewrites_summary_and_details() {
    let comparison = resolve_range_comparison("main", "HEAD", "aaaa", "bbbb", "2")
        .expect("count parses");
    let overlaid = apply_uncommitted_overlay(comparison);
    assert!(overlaid.includes_uncommitted);
    assert_eq!(overlaid.summary, "main..WORKTREE");
    assert_eq!(
        overlaid.details,
        vec!["commits in range: 2".to_string(), "uncommitted: included".to_string()],
    );

    let args = diff_name_status_args(&overlaid);
    assert_eq!(args, vec!["diff", "--name-status", "--find-renames", "-z", "aaaa"]);

    let patch_args = build_patch_args(&overlaid, &vec!["a.rs".to_string()]);
    assert_eq!(patch_args, vec!["diff", "--no-color", "--unified=0", "aaaa", "--", "a.rs"]);
}

#[test]
fn committed_args_span_the_commit_range() {
    let comparison = resolve_range_comparison("main", "HEAD", "aaaa", "bbbb", "2")
        .expect("count parses");
    let args = diff_name_status_args(&comparison);
    assert_eq!(args, vec!["diff", "--name-status", "--find-renames", "-z", "aaaa..bbbb"]);

    let patch_args = build_patch_args(&comparison, &vec!["a.rs".to_string(), "b.rs".to_string()]);
    assert_eq!(
        patch_args,
        vec!["diff", "--no-color", "--unified=0", "--find-renames", "aaaa..bbbb", "--", "a.rs",
            "b.rs"],
    );
}
