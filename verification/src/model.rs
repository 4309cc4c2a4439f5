//! Data model of the review session: file descriptors, per-file views,
//! pane offsets, and the sorted index sets used for change highlights.

use vstd::prelude::*;

verus! {

/// How the base/head pair of a comparison was chosen.
#[derive(Clone, Copy, Debug, PartialEq, Eq, Structural)]
pub enum StrategyId {
    UpstreamAhead,
    Range,
}

/// Strategy selection as it arrives from the command line.
#[derive(Clone, Copy, Debug, PartialEq, Eq, Structural)]
pub enum StrategyArg {
    UpstreamAhead,
    Range,
}

/// Colour scheme preference as it arrives from the command line.
#[derive(Clone, Copy, Debug, PartialEq, Eq, Structural)]
pub enum ThemeMode {
    Auto,
    Dark,
    Light,
}

/// Where one side of a file's content comes from.
#[derive(Clone, Copy, Debug, PartialEq, Eq, Structural)]
pub enum FileContentSource {
    Commit,
    WorkingTree,
    Missing,
}

/// Tint applied to one rendered pane line.
#[derive(Clone, Copy, Debug, PartialEq, Eq, Structural)]
pub enum LineHighlightKind {
    Unchanged,
    Deleted,
    Added,
}

/// One of the two side-by-side panes.
#[derive(Clone, Copy, Debug, PartialEq, Eq, Structural)]
pub enum PaneSide {
    Left,
    Right,
}

/// Horizontal scroll units of the two panes of one file.
#[derive(Clone, Copy, Debug, PartialEq, Eq, Structural)]
pub struct PaneOffsets {
    pub left: usize,
    pub right: usize,
}

impl Default for PaneOffsets {
    /// Both panes start unscrolled.
    fn default() -> (r: Self)
        ensures
            r.left == 0 && r.right == 0,
    {
        PaneOffsets { left: 0, right: 0 }
    }
}

/// One changed file of the comparison, as reported by the version-control
/// client: status code, the path shown to the user, and the per-side paths
/// and content sources.
#[derive(Clone, Debug)]
pub struct DiffFileDescriptor {
    pub raw_status: String,
    pub display_path: String,
    pub base_path: Option<String>,
    pub head_path: Option<String>,
    pub base_source: FileContentSource,
    pub head_source: FileContentSource,
}

/// Mathematical image of a `DiffFileDescriptor`: every string replaced by
/// its character sequence.
pub ghost struct DescriptorModel {
    pub raw_status: Seq<char>,
    pub display_path: Seq<char>,
    pub base_path: Option<Seq<char>>,
    pub head_path: Option<Seq<char>>,
    pub base_source: FileContentSource,
    pub head_source: FileContentSource,
}

impl DiffFileDescriptor {
    /// The descriptor as a value of the mathematical model.
    pub open spec fn model(self) -> DescriptorModel {
        DescriptorModel {
            raw_status: self.raw_status@,
            display_path: self.display_path@,
            base_path: match self.base_path {
                Some(p) => Some(p@),
                None => None,
            },
            head_path: match self.head_path {
                Some(p) => Some(p@),
                None => None,
            },
            base_source: self.base_source,
            head_source: self.head_source,
        }
    }
}

/// The two per-line highlight sets of one file, each held as a strictly
/// ascending vector of 0-based line indexes.
#[derive(Clone, Debug)]
pub struct FileLineHighlights {
    pub left_deleted_line_indexes: Vec<usize>,
    pub right_added_line_indexes: Vec<usize>,
}

impl FileLineHighlights {
    /// Both index vectors are strictly ascending, so each is a set.
    pub open spec fn wf(self) -> bool {
        strictly_ascending(self.left_deleted_line_indexes@)
            && strictly_ascending(self.right_added_line_indexes@)
    }
}

/// Everything shown of one changed file, built once at startup
/// and immutable for the session.
#[derive(Clone, Debug)]
pub struct DiffFileView {
    pub descriptor: DiffFileDescriptor,
    pub review_key: String,
    pub left_lines: Vec<String>,
    pub right_lines: Vec<String>,
    pub left_language: Option<String>,
    pub right_language: Option<String>,
    pub left_deleted_line_indexes: Vec<usize>,
    pub right_added_line_indexes: Vec<usize>,
    pub left_max_content_length: usize,
    pub right_max_content_length: usize,
}

impl DiffFileView {
    /// The highlight index sets are strictly ascending.
    pub open spec fn wf(self) -> bool {
        strictly_ascending(self.left_deleted_line_indexes@)
            && strictly_ascending(self.right_added_line_indexes@)
    }

    /// The larger of the two pane line counts.
    pub open spec fn max_line_count(self) -> nat {
        if self.left_lines@.len() >= self.right_lines@.len() {
            self.left_lines@.len()
        } else {
            self.right_lines@.len()
        }
    }
}

/// A resolved base/head pair together with the summary text shown in the
/// header.
#[derive(Clone, Debug)]
pub struct ResolvedComparison {
    pub strategy_id: StrategyId,
    pub base_ref: String,
    pub head_ref: String,
    pub base_commit: String,
    pub head_commit: String,
    pub summary: String,
    pub details: Vec<String>,
    pub ahead_count: Option<usize>,
    pub includes_uncommitted: bool,
}

/// `s` is sorted with no duplicates, so it denotes a set of line indexes.
pub open spec fn strictly_ascending(s: Seq<usize>) -> bool {
    forall|i: int, j: int| 0 <= i < j < s.len() ==> s[i] < s[j]
}

/// Membership test in a sorted index vector.
pub fn sorted_contains(v: &Vec<usize>, x: usize) -> (r: bool)
    ensures
        r == v@.contains(x),
{
    let mut i: usize = 0;
    while i < v.len()
        invariant
            i <= v@.len(),
            forall|k: int| 0 <= k < i ==> v@[k] != x,
        decreases v@.len() - i,
    {
        if v[i] == x {
            assert(v@.contains(x));
            return true;
        }
        i += 1;
    }
    assert(!v@.contains(x)) by {
        assert(forall|k: int| 0 <= k < v@.len() ==> v@[k] != x);
    }
    false
}

/// Inserts `x` into a strictly ascending vector, keeping it strictly
/// ascending; inserting a present value changes nothing.
pub fn insert_sorted(v: &mut Vec<usize>, x: usize)
    requires
        strictly_ascending(old(v)@),
    ensures
        strictly_ascending(final(v)@),
        forall|y: usize| final(v)@.contains(y) <==> (old(v)@.contains(y) || y == x),
        final(v)@.len() <= old(v)@.len() + 1,
{
    let ghost orig = v@;
    let mut i: usize = 0;
    while i < v.len() && v[i as usize] < x
        invariant
            i <= v@.len(),
            v@ == orig,
            forall|k: int| 0 <= k < i ==> v@[k] < x,
        decreases v@.len() - i,
    {
        i += 1;
    }
    if i < v.len() && v[i as usize] == x {
        assert(v@.contains(x));
        assert(forall|y: usize| v@.contains(y) <==> (orig.contains(y) || y == x));
        return;
    }
    assert(i == v@.len() || v@[i as int] > x);
    v.insert(i, x);
    assert(strictly_ascending(v@)) by {
        assert(forall|k: int| 0 <= k < i ==> v@[k] == orig[k] && v@[k] < x);
        assert(v@[i as int] == x);
        assert(forall|k: int| i < k < v@.len() ==> v@[k] == orig[k - 1] && v@[k] > x);
    }
    assert forall|y: usize| final(v)@.contains(y) <==> (orig.contains(y) || y == x) by {
        if v@.contains(y) {
            let k = choose|k: int| 0 <= k < v@.len() && v@[k] == y;
            if k < i {
                assert(orig[k] == y);
                assert(orig.contains(y));
            } else if k == i {
            } else {
                assert(orig[k - 1] == y);
                assert(orig.contains(y));
            }
        }
        if orig.contains(y) {
            let k = choose|k: int| 0 <= k < orig.len() && orig[k] == y;
            if k < i {
                assert(v@[k] == y);
            } else {
                assert(v@[k + 1] == y);
            }
        }
        if y == x {
            assert(v@[i as int] == y);
        }
    }
}


/// The textual name of a comparison strategy.
pub open spec fn spec_strategy_label(strategy: StrategyId) -> Seq<char> {
    match strategy {
        StrategyId::UpstreamAhead => "upstream-ahead"@,
        StrategyId::Range => "range"@,
    }
}

/// The textual name of a comparison strategy, as shown in the header and
/// absorbed into the scope key.
pub fn strategy_label(strategy: StrategyId) -> (r: &'static str)
    ensures
        r@ == spec_strategy_label(strategy),
{
    match strategy {
        StrategyId::UpstreamAhead => "upstream-ahead",
        StrategyId::Range => "range",
    }
}

} // verus!
