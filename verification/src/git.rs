//! Pure halves of the version-control plumbing: numeral parsing of
//! counting output, assembly of resolved comparisons from raw client
//! output, and the argument lists handed back to the caller to run.

use vstd::prelude::*;
use vstd::string::*;
use crate::model::{ResolvedComparison, StrategyId};
use crate::text::{spec_trim, trim_spaces};
use crate::diff::{spec_parse_decimal, parse_decimal_str};

verus! {

/// The error text for an unparsable counting output.
pub open spec fn spec_parse_error_text(context: Seq<char>, raw: Seq<char>) -> Seq<char> {
    "unable to parse "@ + context + ": "@ + spec_trim(raw)
}

/// Parses a counting output: the number its trimmed text denotes, or an
/// error naming the context, exactly when the trimmed text is not a
/// numeral that fits the machine word.
pub fn parse_usize_value(raw: &str, context: &str) -> (r: Result<usize, String>)
    ensures
        (match r {
            Ok(v) => spec_parse_decimal(spec_trim(raw@)) == Some(v),
            Err(m) => spec_parse_decimal(spec_trim(raw@)) is None && m@ == spec_parse_error_text(
                context@,
                raw@,
            ),
        }),
{
    let trimmed = trim_spaces(raw);
    match parse_decimal_str(trimmed.as_str()) {
        Some(v) => Ok(v),
        None => {
            proof {
                reveal_strlit("unable to parse ");
                reveal_strlit(": ");
            }
            let mut message = String::new();
            message.append("unable to parse ");
            message.append(context);
            message.append(": ");
            message.append(trimmed.as_str());
            Err(message)
        },
    }
}

/// `base..head`, the range summary shown in the header.
pub open spec fn spec_range_summary(base: Seq<char>, head: Seq<char>) -> Seq<char> {
    base + ".."@ + head
}

/// Joins two references into a `base..head` range.
pub fn range_text(base: &str, head: &str) -> (r: String)
    ensures
        r@ == spec_range_summary(base@, head@),
{
    proof {
        reveal_strlit("..");
    }
    let mut r = String::new();
    r.append(base);
    r.append("..");
    r.append(head);
    r
}

fn labelled_line(label: &str, value: &str) -> (r: String)
    ensures
        r@ == label@ + value@,
{
    let mut r = String::new();
    r.append(label);
    r.append(value);
    r
}

/// Builds the resolved comparison of the upstream-ahead strategy from
/// the client's raw answers: the upstream reference becomes the base,
/// the counting outputs must parse, and the detail lines name branch,
/// upstream, and the ahead and behind counts.
pub fn resolve_upstream_ahead_comparison(
    upstream_ref: &str,
    head_ref: &str,
    current_branch: &str,
    base_commit: &str,
    head_commit: &str,
    ahead_count_raw: &str,
    behind_count_raw: &str,
) -> (r: Result<ResolvedComparison, String>)
    ensures
        (match r {
            Ok(c) => {
                &&& spec_parse_decimal(spec_trim(ahead_count_raw@)) is Some
                &&& spec_parse_decimal(spec_trim(behind_count_raw@)) is Some
                &&& c.strategy_id == StrategyId::UpstreamAhead
                &&& c.base_ref@ == upstream_ref@
                &&& c.head_ref@ == head_ref@
                &&& c.base_commit@ == base_commit@
                &&& c.head_commit@ == head_commit@
                &&& c.summary@ == spec_range_summary(upstream_ref@, head_ref@)
                &&& c.details@.len() == 4
                &&& c.details@[0]@ == "branch: "@ + current_branch@
                &&& c.details@[1]@ == "upstream: "@ + upstream_ref@
                &&& c.details@[2]@ == "ahead: "@ + crate::render::spec_dec_digits(
                    spec_parse_decimal(spec_trim(ahead_count_raw@)).unwrap() as nat,
                )
                &&& c.details@[3]@ == "behind: "@ + crate::render::spec_dec_digits(
                    spec_parse_decimal(spec_trim(behind_count_raw@)).unwrap() as nat,
                )
                &&& c.ahead_count == spec_parse_decimal(spec_trim(ahead_count_raw@))
                &&& !c.includes_uncommitted
            },
            Err(m) => spec_parse_decimal(spec_trim(ahead_count_raw@)) is None
                || spec_parse_decimal(spec_trim(behind_count_raw@)) is None,
        }),
{
    proof {
        reveal_strlit("branch: ");
        reveal_strlit("upstream: ");
        reveal_strlit("ahead: ");
        reveal_strlit("behind: ");
        reveal_strlit("ahead count");
        reveal_strlit("behind count");
    }
    let ahead_count = match parse_usize_value(ahead_count_raw, "ahead count") {
        Ok(v) => v,
        Err(m) => {
            return Err(m);
        },
    };
    let behind_count = match parse_usize_value(behind_count_raw, "behind count") {
        Ok(v) => v,
        Err(m) => {
            return Err(m);
        },
    };
    let mut details: Vec<String> = Vec::new();
    details.push(labelled_line("branch: ", current_branch));
    details.push(labelled_line("upstream: ", upstream_ref));
    details.push(labelled_line("ahead: ", crate::render::dec_string(ahead_count).as_str()));
    details.push(labelled_line("behind: ", crate::render::dec_string(behind_count).as_str()));
    Ok(
        ResolvedComparison {
            strategy_id: StrategyId::UpstreamAhead,
            base_ref: upstream_ref.to_owned(),
            head_ref: head_ref.to_owned(),
            base_commit: base_commit.to_owned(),
            head_commit: head_commit.to_owned(),
            summary: range_text(upstream_ref, head_ref),
            details,
            ahead_count: Some(ahead_count),
            includes_uncommitted: false,
        },
    )
}

/// Builds the resolved comparison of the range strategy from the
/// client's raw answers; the commit-count output must parse.
pub fn resolve_range_comparison(
    base_ref: &str,
    head_ref: &str,
    base_commit: &str,
    head_commit: &str,
    commit_count_raw: &str,
) -> (r: Result<ResolvedComparison, String>)
    ensures
        (match r {
            Ok(c) => {
                &&& spec_parse_decimal(spec_trim(commit_count_raw@)) is Some
                &&& c.strategy_id == StrategyId::Range
                &&& c.base_ref@ == base_ref@
                &&& c.head_ref@ == head_ref@
                &&& c.base_commit@ == base_commit@
                &&& c.head_commit@ == head_commit@
                &&& c.summary@ == spec_range_summary(base_ref@, head_ref@)
                &&& c.details@.len() == 1
                &&& c.details@[0]@ == "commits in range: "@ + crate::render::spec_dec_digits(
                    spec_parse_decimal(spec_trim(commit_count_raw@)).unwrap() as nat,
                )
                &&& c.ahead_count is None
                &&& !c.includes_uncommitted
            },
            Err(m) => spec_parse_decimal(spec_trim(commit_count_raw@)) is None,
        }),
{
    proof {
        reveal_strlit("commits in range: ");
        reveal_strlit("commit count");
    }
    let commit_count = match parse_usize_value(commit_count_raw, "commit count") {
        Ok(v) => v,
        Err(m) => {
            return Err(m);
        },
    };
    let mut details: Vec<String> = Vec::new();
    details.push(
        labelled_line("commits in range: ", crate::render::dec_string(commit_count).as_str()),
    );
    Ok(
        ResolvedComparison {
            strategy_id: StrategyId::Range,
            base_ref: base_ref.to_owned(),
            head_ref: head_ref.to_owned(),
            base_commit: base_commit.to_owned(),
            head_commit: head_commit.to_owned(),
            summary: range_text(base_ref, head_ref),
            details,
            ahead_count: None,
            includes_uncommitted: false,
        },
    )
}

/// Folds uncommitted working-tree changes into a resolved comparison:
/// the summary becomes `base..WORKTREE`, one detail line records the
/// inclusion, and the flag is set; everything else is kept.
pub fn apply_uncommitted_overlay(comparison: ResolvedComparison) -> (r: ResolvedComparison)
    ensures
        r.strategy_id == comparison.strategy_id,
        r.base_ref@ == comparison.base_ref@,
        r.head_ref@ == comparison.head_ref@,
        r.base_commit@ == comparison.base_commit@,
        r.head_commit@ == comparison.head_commit@,
        r.summary@ == comparison.base_ref@ + "..WORKTREE"@,
        r.details@.len() == comparison.details@.len() + 1,
        forall|k: int|
            0 <= k < comparison.details@.len() ==> (#[trigger] r.details@[k])@
                == comparison.details@[k]@,
        r.details@.last()@ == "uncommitted: included"@,
        r.ahead_count == comparison.ahead_count,
        r.includes_uncommitted,
{
    proof {
        reveal_strlit("..WORKTREE");
        reveal_strlit("uncommitted: included");
    }
    let mut summary = String::new();
    summary.append(comparison.base_ref.as_str());
    summary.append("..WORKTREE");
    let mut details = comparison.details;
    let ghost before = details@;
    details.push("uncommitted: included".to_owned());
    assert(forall|k: int| 0 <= k < before.len() ==> details@[k] == before[k]);
    ResolvedComparison {
        summary,
        details,
        includes_uncommitted: true,
        strategy_id: comparison.strategy_id,
        base_ref: comparison.base_ref,
        head_ref: comparison.head_ref,
        base_commit: comparison.base_commit,
        head_commit: comparison.head_commit,
        ahead_count: comparison.ahead_count,
    }
}

/// An upstream-ahead session with no commits ahead and no uncommitted
/// changes has nothing to review.
pub fn should_report_no_commits(comparison: &ResolvedComparison) -> (r: bool)
    ensures
        r == (comparison.strategy_id == StrategyId::UpstreamAhead && !comparison.includes_uncommitted
            && comparison.ahead_count == Some(0usize)),
{
    let ahead_zero = match comparison.ahead_count {
        Some(n) => n == 0,
        None => false,
    };
    match comparison.strategy_id {
        StrategyId::UpstreamAhead => !comparison.includes_uncommitted && ahead_zero,
        StrategyId::Range => false,
    }
}

/// The argument list that obtains the name-status listing: against the
/// base commit alone when uncommitted changes are included, else across
/// the commit range.
pub fn diff_name_status_args(comparison: &ResolvedComparison) -> (r: Vec<String>)
    ensures
        r@.len() == 5,
        r@[0]@ == "diff"@,
        r@[1]@ == "--name-status"@,
        r@[2]@ == "--find-renames"@,
        r@[3]@ == "-z"@,
        comparison.includes_uncommitted ==> r@[4]@ == comparison.base_commit@,
        !comparison.includes_uncommitted ==> r@[4]@ == spec_range_summary(
            comparison.base_commit@,
            comparison.head_commit@,
        ),
{
    let mut args: Vec<String> = Vec::new();
    args.push("diff".to_owned());
    args.push("--name-status".to_owned());
    args.push("--find-renames".to_owned());
    args.push("-z".to_owned());
    if comparison.includes_uncommitted {
        args.push(comparison.base_commit.clone());
    } else {
        args.push(range_text(comparison.base_commit.as_str(), comparison.head_commit.as_str()));
    }
    args
}

/// The argument list that obtains one file's zero-context patch,
/// restricted to the given paths.
pub fn build_patch_args(comparison: &ResolvedComparison, paths: &Vec<String>) -> (r: Vec<String>)
    ensures
        r@.len() == (if comparison.includes_uncommitted {
            5int
        } else {
            6int
        }) + paths@.len(),
        r@[0]@ == "diff"@,
        r@[1]@ == "--no-color"@,
        r@[2]@ == "--unified=0"@,
        comparison.includes_uncommitted ==> {
            &&& r@[3]@ == comparison.base_commit@
            &&& r@[4]@ == "--"@
            &&& forall|k: int| 0 <= k < paths@.len() ==> r@[5 + k]@ == (#[trigger] paths@[k])@
        },
        !comparison.includes_uncommitted ==> {
            &&& r@[3]@ == "--find-renames"@
            &&& r@[4]@ == spec_range_summary(comparison.base_commit@, comparison.head_commit@)
            &&& r@[5]@ == "--"@
            &&& forall|k: int| 0 <= k < paths@.len() ==> r@[6 + k]@ == (#[trigger] paths@[k])@
        },
{
    let mut args: Vec<String> = Vec::new();
    args.push("diff".to_owned());
    args.push("--no-color".to_owned());
    args.push("--unified=0".to_owned());
    if comparison.includes_uncommitted {
        args.push(comparison.base_commit.clone());
    } else {
        args.push("--find-renames".to_owned());
        args.push(range_text(comparison.base_commit.as_str(), comparison.head_commit.as_str()));
    }
    args.push("--".to_owned());
    let ghost prefix = args@;
    proof {
        assert(prefix[0]@ == "diff"@);
        assert(prefix[1]@ == "--no-color"@);
        assert(prefix[2]@ == "--unified=0"@);
        if comparison.includes_uncommitted {
            assert(prefix.len() == 5);
            assert(prefix[3]@ == comparison.base_commit@);
            assert(prefix[4]@ == "--"@);
        } else {
            assert(prefix.len() == 6);
            assert(prefix[3]@ == "--find-renames"@);
            assert(prefix[4]@ == spec_range_summary(
                comparison.base_commit@,
                comparison.head_commit@,
            ));
            assert(prefix[5]@ == "--"@);
        }
    }
    let mut i: usize = 0;
    while i < paths.len()
        invariant
            i <= paths@.len(),
            args@.len() == prefix.len() + i,
            forall|k: int| 0 <= k < prefix.len() ==> args@[k] == prefix[k],
            forall|k: int| 0 <= k < i ==> args@[prefix.len() + k] == (#[trigger] paths@[k]),
        decreases paths@.len() - i,
    {
        args.push(paths[i].clone());
        i += 1;
    }
    args
}

} // verus!
