//! The navigation state machine: file selection, vertical and per-pane
//! horizontal scroll, in-diff search with a cyclic cursor, hunk jumps and
//! the reviewed-count cache, driven one input event at a time.

use vstd::prelude::*;
use crate::model::{DiffFileView, PaneOffsets, PaneSide};

verus! {

/// A key, already decoded from the terminal event stream into plain data.
#[derive(Clone, Copy, Debug, PartialEq, Eq, Structural)]
pub enum KeyCode {
    Char(char),
    Left,
    Right,
    Up,
    Down,
    PageUp,
    PageDown,
    Home,
    End,
    Enter,
    Esc,
    Backspace,
    Other,
}

/// One keypress with its modifiers.
#[derive(Clone, Copy, Debug, PartialEq, Eq, Structural)]
pub struct KeyInput {
    pub code: KeyCode,
    pub ctrl: bool,
    pub alt: bool,
    pub shift: bool,
}

/// What one keypress asks the caller to do besides mutating the state.
#[derive(Clone, Copy, Debug)]
pub struct KeypressOutcome {
    pub should_quit: bool,
    pub review_toggled: Option<(usize, bool)>,
}

impl Default for KeypressOutcome {
    /// Nothing to do: keep running, nothing toggled.
    fn default() -> (r: Self)
        ensures
            r == (KeypressOutcome { should_quit: false, review_toggled: None::<(usize, bool)> }),
    {
        KeypressOutcome { should_quit: false, review_toggled: None }
    }
}

/// The whole per-session navigation state.
#[derive(Clone, Debug)]
pub struct AppState {
    pub file_index: usize,
    pub scroll_offset: usize,
    pub pane_offsets_by_file: Vec<PaneOffsets>,
    pub reviewed_by_file: Vec<bool>,
    pub reviewed_count: usize,
    pub search_input_mode: bool,
    pub search_query: String,
    pub search_input: String,
    pub search_match_line_indexes: Vec<usize>,
    pub search_match_index: Option<usize>,
}

/// Mathematical image of `AppState`: every container replaced by its
/// sequence view. All transition specifications are stated over it.
pub ghost struct AppModel {
    pub file_index: int,
    pub scroll_offset: int,
    pub pane_offsets_by_file: Seq<PaneOffsets>,
    pub reviewed_by_file: Seq<bool>,
    pub reviewed_count: int,
    pub search_input_mode: bool,
    pub search_query: Seq<char>,
    pub search_input: Seq<char>,
    pub search_match_line_indexes: Seq<usize>,
    pub search_match_index: Option<int>,
}

/// Number of `true` entries.
pub open spec fn count_true(s: Seq<bool>) -> int
    decreases s.len(),
{
    if s.len() == 0 {
        0
    } else {
        count_true(s.drop_last()) + (if s.last() {
            1int
        } else {
            0int
        })
    }
}

proof fn lemma_count_true_bounds(s: Seq<bool>)
    ensures
        0 <= count_true(s) <= s.len(),
    decreases s.len(),
{
    if s.len() > 0 {
        lemma_count_true_bounds(s.drop_last());
    }
}

proof fn lemma_count_true_update(s: Seq<bool>, i: int, b: bool)
    requires
        0 <= i < s.len(),
    ensures
        count_true(s.update(i, b)) == count_true(s) + (if b {
            1int
        } else {
            0int
        }) - (if s[i] {
            1int
        } else {
            0int
        }),
    decreases s.len(),
{
    let t = s.update(i, b);
    if i == s.len() - 1 {
        assert(t.drop_last() =~= s.drop_last());
        assert(t.last() == b);
    } else {
        assert(t.drop_last() =~= s.drop_last().update(i, b));
        assert(t.last() == s.last());
        lemma_count_true_update(s.drop_last(), i, b);
    }
}

impl AppModel {
    /// The state is consistent with a session over `file_count` files:
    /// the active index is in range, the per-file vectors line up, the
    /// cached count matches the flags, and the match list is a sorted set
    /// with its cursor in range.
    pub open spec fn wf(self, file_count: int) -> bool {
        &&& file_count > 0
        &&& 0 <= self.file_index < file_count
        &&& self.scroll_offset >= 0
        &&& self.pane_offsets_by_file.len() == file_count
        &&& self.reviewed_by_file.len() == file_count
        &&& self.reviewed_count == count_true(self.reviewed_by_file)
        &&& crate::model::strictly_ascending(self.search_match_line_indexes)
        &&& match self.search_match_index {
            Some(i) => 0 <= i < self.search_match_line_indexes.len(),
            None => true,
        }
        &&& self.search_match_line_indexes.len() == 0 ==> self.search_match_index is None
    }
}

impl AppState {
    /// The state as a value of the mathematical model.
    pub open spec fn model(self) -> AppModel {
        AppModel {
            file_index: self.file_index as int,
            scroll_offset: self.scroll_offset as int,
            pane_offsets_by_file: self.pane_offsets_by_file@,
            reviewed_by_file: self.reviewed_by_file@,
            reviewed_count: self.reviewed_count as int,
            search_input_mode: self.search_input_mode,
            search_query: self.search_query@,
            search_input: self.search_input@,
            search_match_line_indexes: self.search_match_line_indexes@,
            search_match_index: match self.search_match_index {
                Some(i) => Some(i as int),
                None => None,
            },
        }
    }

    pub open spec fn wf(self, file_count: int) -> bool {
        self.model().wf(file_count)
    }

    /// A fresh session over `file_count` files: first file active, nothing
    /// scrolled, no search; the reviewed flags are taken over when they
    /// line up with the file count and dropped otherwise.
    pub fn new(file_count: usize, reviewed_by_file: Vec<bool>) -> (r: Self)
        requires
            file_count > 0,
        ensures
            r.wf(file_count as int),
            r.file_index == 0,
            r.scroll_offset == 0,
            r.pane_offsets_by_file@ == Seq::new(
                file_count as nat,
                |i: int| PaneOffsets { left: 0, right: 0 },
            ),
            r.reviewed_by_file@ == (if reviewed_by_file@.len() == file_count {
                reviewed_by_file@
            } else {
                Seq::new(file_count as nat, |i: int| false)
            }),
            r.reviewed_count == count_true(r.reviewed_by_file@),
            !r.search_input_mode,
            r.search_query@ == Seq::<char>::empty(),
            r.search_input@ == Seq::<char>::empty(),
            r.search_match_line_indexes@ == Seq::<usize>::empty(),
            r.search_match_index is None,
    {
        let reviewed_by_file = if reviewed_by_file.len() == file_count {
            reviewed_by_file
        } else {
            let flags: Vec<bool> = vec![false; file_count];
            flags
        };
        let mut reviewed_count: usize = 0;
        let mut i: usize = 0;
        while i < reviewed_by_file.len()
            invariant
                i <= reviewed_by_file@.len(),
                reviewed_count == count_true(reviewed_by_file@.take(i as int)),
                reviewed_count <= i,
            decreases reviewed_by_file@.len() - i,
        {
            assert(reviewed_by_file@.take(i + 1).drop_last() =~= reviewed_by_file@.take(i as int));
            if reviewed_by_file[i] {
                reviewed_count += 1;
            }
            i += 1;
        }
        assert(reviewed_by_file@.take(reviewed_by_file@.len() as int) =~= reviewed_by_file@);
        let offsets: Vec<PaneOffsets> = vec![PaneOffsets { left: 0, right: 0 }; file_count];
        assert(offsets@ =~= Seq::new(file_count as nat, |i: int| PaneOffsets { left: 0, right: 0 }));
        let r = AppState {
            file_index: 0,
            scroll_offset: 0,
            pane_offsets_by_file: offsets,
            reviewed_by_file,
            reviewed_count,
            search_input_mode: false,
            search_query: String::new(),
            search_input: String::new(),
            search_match_line_indexes: Vec::new(),
            search_match_index: None,
        };
        r
    }

    /// Horizontal offsets of the active file.
    pub fn current_offsets(&self) -> (r: PaneOffsets)
        requires
            self.file_index < self.pane_offsets_by_file@.len(),
        ensures
            r == self.pane_offsets_by_file@[self.file_index as int],
    {
        self.pane_offsets_by_file[self.file_index]
    }

    /// Replaces the horizontal offsets of the active file.
    pub fn set_current_offsets(&mut self, pane_offsets: PaneOffsets)
        requires
            old(self).file_index < old(self).pane_offsets_by_file@.len(),
        ensures
            *final(self) == (AppState {
                pane_offsets_by_file: final(self).pane_offsets_by_file,
                ..*old(self)
            }),
            final(self).pane_offsets_by_file@ == old(self).pane_offsets_by_file@.update(
                old(self).file_index as int,
                pane_offsets,
            ),
    {
        self.pane_offsets_by_file[self.file_index] = pane_offsets;
    }

    /// How many files are currently marked reviewed.
    pub fn reviewed_count(&self) -> (r: usize)
        ensures
            r == self.reviewed_count,
    {
        self.reviewed_count
    }

    pub fn is_current_file_reviewed(&self) -> (r: bool)
        requires
            self.file_index < self.reviewed_by_file@.len(),
        ensures
            r == self.reviewed_by_file@[self.file_index as int],
    {
        self.reviewed_by_file[self.file_index]
    }

    /// Flips the reviewed flag of the active file and keeps the cached
    /// count equal to the number of set flags. Returns the new flag.
    pub fn toggle_current_file_reviewed(&mut self) -> (r: bool)
        requires
            old(self).file_index < old(self).reviewed_by_file@.len(),
            old(self).reviewed_count == count_true(old(self).reviewed_by_file@),
        ensures
            r == !old(self).reviewed_by_file@[old(self).file_index as int],
            final(self).model() == spec_toggle_reviewed(old(self).model()),
    {
        proof {
            lemma_count_true_bounds(self.reviewed_by_file@);
            lemma_count_true_update(
                self.reviewed_by_file@,
                self.file_index as int,
                !self.reviewed_by_file@[self.file_index as int],
            );
            lemma_count_true_bounds(
                self.reviewed_by_file@.update(
                    self.file_index as int,
                    !self.reviewed_by_file@[self.file_index as int],
                ),
            );
        }
        let idx = self.file_index;
        let count_cap = self.reviewed_by_file.len();
        assert(count_true(self.reviewed_by_file@) <= count_cap);
        let was = self.reviewed_by_file[idx];
        if was {
            self.reviewed_by_file[idx] = false;
            self.reviewed_count = self.reviewed_count - 1;
        } else {
            self.reviewed_by_file[idx] = true;
            self.reviewed_count = self.reviewed_count + 1;
        }
        !was
    }
}

/// Image of toggling the reviewed flag of the active file.
pub open spec fn spec_toggle_reviewed(m: AppModel) -> AppModel {
    let was = m.reviewed_by_file[m.file_index];
    AppModel {
        reviewed_by_file: m.reviewed_by_file.update(m.file_index, !was),
        reviewed_count: m.reviewed_count + (if was {
            -1int
        } else {
            1int
        }),
        ..m
    }
}

/// Toggling the reviewed flag twice restores both the membership flags and
/// the cached count to their original values.
pub proof fn lemma_toggle_reviewed_twice_restores(m: AppModel, file_count: int)
    requires
        m.wf(file_count),
    ensures
        spec_toggle_reviewed(spec_toggle_reviewed(m)) == m,
{
    let once = spec_toggle_reviewed(m);
    let twice = spec_toggle_reviewed(once);
    assert(twice.reviewed_by_file =~= m.reviewed_by_file);
}


/// `needle` occurs contiguously inside `hay`.
pub open spec fn spec_contains(hay: Seq<char>, needle: Seq<char>) -> bool {
    exists|i: int|
        0 <= i <= hay.len() - needle.len() && #[trigger] hay.subrange(i, i + needle.len())
            == needle
}

/// Relies on str::contains with a &str pattern: returns true exactly when
/// the pattern occurs as a substring of the text.
#[verifier::external_body]
fn contains_substring(hay: &str, needle: &str) -> (r: bool)
    ensures
        r == spec_contains(hay@, needle@),
{
    hay.contains(needle)
}

/// Line `idx` of `file` matches `query` when either pane's line at that
/// index contains it as a substring.
pub open spec fn spec_line_matches(file: DiffFileView, query: Seq<char>, idx: int) -> bool {
    ||| (0 <= idx < file.left_lines@.len() && spec_contains(file.left_lines@[idx]@, query))
    ||| (0 <= idx < file.right_lines@.len() && spec_contains(file.right_lines@[idx]@, query))
}

/// The ascending list of matching line indexes below `n`.
pub open spec fn spec_match_lines_up_to(file: DiffFileView, query: Seq<char>, n: int) -> Seq<
    usize,
>
    decreases n,
{
    if n <= 0 {
        Seq::empty()
    } else {
        spec_match_lines_up_to(file, query, n - 1) + (if spec_line_matches(file, query, n - 1) {
            seq![(n - 1) as usize]
        } else {
            Seq::<usize>::empty()
        })
    }
}

/// The full match list of one file for one committed query: empty for the
/// empty query, else every matching line index in ascending order.
pub open spec fn spec_search_matches(file: DiffFileView, query: Seq<char>) -> Seq<usize> {
    if query.len() == 0 {
        Seq::empty()
    } else {
        spec_match_lines_up_to(file, query, file.max_line_count() as int)
    }
}

proof fn lemma_match_lines_up_to_sorted(file: DiffFileView, query: Seq<char>, n: int)
    requires
        n <= usize::MAX,
    ensures
        crate::model::strictly_ascending(spec_match_lines_up_to(file, query, n)),
        forall|k: int|
            0 <= k < spec_match_lines_up_to(file, query, n).len()
                ==> #[trigger] spec_match_lines_up_to(file, query, n)[k] < n,
    decreases n,
{
    if n > 0 {
        lemma_match_lines_up_to_sorted(file, query, n - 1);
        let prev = spec_match_lines_up_to(file, query, n - 1);
        let cur = spec_match_lines_up_to(file, query, n);
        if spec_line_matches(file, query, n - 1) {
            assert(forall|k: int| 0 <= k < prev.len() ==> cur[k] == prev[k]);
            assert(cur[cur.len() - 1] == (n - 1) as usize);
        } else {
            assert(cur =~= prev);
        }
    }
}

/// The match list is a sorted set of in-range line indexes.
pub proof fn lemma_search_matches_sorted(file: DiffFileView, query: Seq<char>)
    requires
        file.max_line_count() <= usize::MAX,
    ensures
        crate::model::strictly_ascending(spec_search_matches(file, query)),
        forall|k: int|
            0 <= k < spec_search_matches(file, query).len()
                ==> #[trigger] spec_search_matches(file, query)[k] < file.max_line_count(),
{
    if query.len() > 0 {
        lemma_match_lines_up_to_sorted(file, query, file.max_line_count() as int);
    }
}

/// Recomputes the match list of `file` for `query`: the ascending,
/// de-duplicated indexes of lines whose left or right text contains the
/// query; empty for an empty query.
pub fn build_search_match_line_indexes(file: &DiffFileView, query: &str) -> (r: Vec<usize>)
    ensures
        r@ == spec_search_matches(*file, query@),
{
    if query.unicode_len() == 0 {
        return Vec::new();
    }
    let left_count = file.left_lines.len();
    let right_count = file.right_lines.len();
    let max_lines = if left_count >= right_count {
        left_count
    } else {
        right_count
    };
    let mut match_indexes: Vec<usize> = Vec::new();
    let mut line_index: usize = 0;
    while line_index < max_lines
        invariant
            line_index <= max_lines,
            max_lines == file.max_line_count(),
            match_indexes@ == spec_match_lines_up_to(*file, query@, line_index as int),
        decreases max_lines - line_index,
    {
        let left_matches = line_index < file.left_lines.len() && contains_substring(
            file.left_lines[line_index].as_str(),
            query,
        );
        let right_matches = line_index < file.right_lines.len() && contains_substring(
            file.right_lines[line_index].as_str(),
            query,
        );
        if left_matches || right_matches {
            match_indexes.push(line_index);
        }
        assert(match_indexes@ =~= spec_match_lines_up_to(*file, query@, line_index + 1));
        line_index += 1;
    }
    match_indexes
}

/// Index of the first match at or past `line`, scanning forward.
pub open spec fn spec_position_geq(matches: Seq<usize>, line: int) -> Option<int>
    decreases matches.len(),
{
    if matches.len() == 0 {
        None
    } else if matches[0] >= line {
        Some(0)
    } else {
        match spec_position_geq(matches.drop_first(), line) {
            Some(k) => Some(k + 1),
            None => None,
        }
    }
}

/// Index of the last match at or before `line`, scanning backward.
pub open spec fn spec_position_leq(matches: Seq<usize>, line: int) -> Option<int>
    decreases matches.len(),
{
    if matches.len() == 0 {
        None
    } else if matches.last() <= line {
        Some(matches.len() - 1)
    } else {
        spec_position_leq(matches.drop_last(), line)
    }
}

/// Where a committed search should land relative to `line_index`: the
/// first match at or after it (forward) or the last at or before it
/// (backward), wrapping to the first or last match when none qualifies.
pub fn first_match_index_from_line(matches: &Vec<usize>, line_index: usize, forward: bool) -> (r:
    Option<usize>)
    ensures
        matches@.len() == 0 ==> r is None,
        matches@.len() > 0 && forward ==> r == (match spec_position_geq(matches@, line_index as int) {
            Some(k) => Some(k as usize),
            None => Some(0usize),
        }),
        matches@.len() > 0 && !forward ==> r == (match spec_position_leq(matches@, line_index as int) {
            Some(k) => Some(k as usize),
            None => Some((matches@.len() - 1) as usize),
        }),
{
    if matches.len() == 0 {
        return None;
    }
    if forward {
        assert(matches@.skip(0) =~= matches@);
        let mut i: usize = 0;
        while i < matches.len()
            invariant
                forward,
                matches@.len() > 0,
                i <= matches@.len(),
                spec_position_geq(matches@, line_index as int) == (match spec_position_geq(
                    matches@.skip(i as int),
                    line_index as int,
                ) {
                    Some(k) => Some(k + i),
                    None => None::<int>,
                }),
            decreases matches@.len() - i,
        {
            if matches[i] >= line_index {
                assert(matches@.skip(i as int)[0] == matches@[i as int]);
                assert(spec_position_geq(matches@.skip(i as int), line_index as int) == Some(0int));
                assert(spec_position_geq(matches@, line_index as int) == Some(i as int));
                return Some(i);
            }
            assert(matches@.skip(i as int).drop_first() =~= matches@.skip(i + 1));
            i += 1;
        }
        assert(matches@.skip(matches@.len() as int) =~= Seq::<usize>::empty());
        assert(spec_position_geq(matches@, line_index as int) is None);
        Some(0)
    } else {
        assert(matches@.take(matches@.len() as int) =~= matches@);
        let mut i: usize = matches.len();
        while i > 0
            invariant
                !forward,
                matches@.len() > 0,
                i <= matches@.len(),
                spec_position_leq(matches@, line_index as int) == spec_position_leq(
                    matches@.take(i as int),
                    line_index as int,
                ),
            decreases i,
        {
            if matches[i - 1] <= line_index {
                assert(matches@.take(i as int).last() == matches@[i - 1]);
                assert(spec_position_leq(matches@.take(i as int), line_index as int) == Some(i - 1));
                assert(spec_position_leq(matches@, line_index as int) == Some(i - 1));
                return Some(i - 1);
            }
            assert(matches@.take(i as int).last() == matches@[i - 1]);
            assert(matches@.take(i as int).drop_last() =~= matches@.take(i - 1));
            i -= 1;
        }
        assert(matches@.take(0) =~= Seq::<usize>::empty());
        assert(spec_position_leq(matches@, line_index as int) is None);
        Some(matches.len() - 1)
    }
}

/// The next cursor position in a cyclic match list of `count` entries.
pub open spec fn spec_next_cursor(count: int, current: Option<int>, forward: bool) -> int {
    match current {
        Some(i) => if forward {
            (i + 1) % count
        } else {
            (i + count - 1) % count
        },
        None => if forward {
            0
        } else {
            count - 1
        },
    }
}

/// Cyclic cursor step: advancing past the last match wraps to the first
/// and retreating past the first wraps to the last; with no cursor yet,
/// forward starts at the first match and backward at the last.
pub fn next_match_index(match_count: usize, current_match_index: Option<usize>, forward: bool) -> (r:
    Option<usize>)
    requires
        (match current_match_index {
            Some(i) => i < match_count,
            None => true,
        }),
    ensures
        match_count == 0 ==> r is None,
        match_count > 0 ==> r == Some(
            spec_next_cursor(
                match_count as int,
                (match current_match_index {
                    Some(i) => Some(i as int),
                    None => None::<int>,
                }),
                forward,
            ) as usize,
        ),
{
    if match_count == 0 {
        return None;
    }
    match current_match_index {
        Some(current_index) => {
            if forward {
                let next = if current_index + 1 == match_count {
                    0
                } else {
                    current_index + 1
                };
                assert(next == (current_index + 1) % match_count as int) by (nonlinear_arith)
                    requires
                        0 <= current_index < match_count,
                        next == (if current_index + 1 == match_count {
                            0int
                        } else {
                            current_index + 1
                        }),
                ;
                Some(next)
            } else {
                let prev = if current_index == 0 {
                    match_count - 1
                } else {
                    current_index - 1
                };
                assert(prev == (current_index + match_count - 1) % match_count as int)
                    by (nonlinear_arith)
                    requires
                        0 <= current_index < match_count,
                        prev == (if current_index == 0 {
                            match_count - 1
                        } else {
                            current_index - 1
                        }),
                ;
                Some(prev)
            }
        },
        None => {
            if forward {
                Some(0)
            } else {
                Some(match_count - 1)
            }
        },
    }
}

/// The cyclic cursor wraps in both directions: one step forward from the
/// last match lands on the first, one step backward from the first lands
/// on the last.
pub proof fn lemma_match_cursor_wraps(count: int)
    requires
        count > 0,
    ensures
        spec_next_cursor(count, Some(count - 1), true) == 0,
        spec_next_cursor(count, Some(0), false) == count - 1,
        spec_next_cursor(count, None, true) == 0,
        spec_next_cursor(count, None, false) == count - 1,
{
    assert(count % count == 0) by (nonlinear_arith)
        requires
            count > 0,
    ;
    assert((count - 1) % count == count - 1) by (nonlinear_arith)
        requires
            count > 0,
    ;
}


/// `v` clamped into `[lo, hi]`.
pub open spec fn spec_clamp(v: int, lo: int, hi: int) -> int {
    if v < lo {
        lo
    } else if v > hi {
        hi
    } else {
        v
    }
}

/// Greatest useful vertical scroll of `file` at terminal height `rows`:
/// the lines that do not fit the body, floored at zero.
pub open spec fn spec_max_scroll(file: DiffFileView, rows: u16) -> int {
    let body = crate::render::spec_body_line_count(rows as int);
    if file.max_line_count() >= body {
        file.max_line_count() - body
    } else {
        0
    }
}

/// Greatest useful vertical scroll of the active file.
pub fn max_scroll_for_current_file(files: &Vec<DiffFileView>, app: &AppState, rows: u16) -> (r:
    usize)
    requires
        app.file_index < files@.len(),
    ensures
        r == spec_max_scroll(files@[app.file_index as int], rows),
{
    let current_file = &files[app.file_index];
    let left_count = current_file.left_lines.len();
    let right_count = current_file.right_lines.len();
    let max_lines = if left_count >= right_count {
        left_count
    } else {
        right_count
    };
    let body_line_count = crate::render::get_body_line_count(rows as usize);
    if max_lines >= body_line_count {
        max_lines - body_line_count
    } else {
        0
    }
}

/// `current` shifted by `delta` and clamped into `[0, max_value]`.
fn clamp_shift(current: usize, delta: isize, max_value: usize) -> (r: usize)
    ensures
        r == spec_clamp(current + delta, 0, max_value as int),
{
    if delta >= 0 {
        let d = delta as usize;
        if current >= max_value {
            max_value
        } else if d <= max_value - current {
            current + d
        } else {
            max_value
        }
    } else {
        let d: usize = if delta == isize::MIN {
            (isize::MAX as usize) + 1
        } else {
            (-delta) as usize
        };
        let lowered = if d >= current {
            0
        } else {
            current - d
        };
        if lowered >= max_value {
            max_value
        } else {
            lowered
        }
    }
}

/// Image of switching the active file by `delta`, clamped to the valid
/// index range; an actual change resets the vertical scroll and nothing
/// else.
pub open spec fn spec_move_file(m: AppModel, file_count: int, delta: int) -> AppModel {
    let target = spec_clamp(m.file_index + delta, 0, file_count - 1);
    if target != m.file_index {
        AppModel { file_index: target, scroll_offset: 0, ..m }
    } else {
        m
    }
}

/// Switches the active file by `delta`, clamped to the valid index range.
/// Returns whether the index actually changed; on a change the vertical
/// scroll resets to zero while the per-file pane offsets of every file
/// stay untouched.
pub fn move_file(delta: isize, files: &Vec<DiffFileView>, app: &mut AppState) -> (r: bool)
    requires
        old(app).file_index < files@.len(),
    ensures
        final(app).model() == spec_move_file(old(app).model(), files@.len() as int, delta as int),
        r == (final(app).file_index != old(app).file_index),
        old(app).wf(files@.len() as int) ==> final(app).wf(files@.len() as int),
{
    let max_index = files.len() - 1;
    let next_index = clamp_shift(app.file_index, delta, max_index);
    if next_index != app.file_index {
        app.file_index = next_index;
        app.scroll_offset = 0;
        return true;
    }
    false
}

/// Image of a vertical scroll by `delta`, clamped into the valid range for
/// the current layout.
pub open spec fn spec_move_scroll(m: AppModel, file: DiffFileView, rows: u16, delta: int) -> AppModel {
    AppModel {
        scroll_offset: spec_clamp(m.scroll_offset + delta, 0, spec_max_scroll(file, rows)),
        ..m
    }
}

/// Scrolls vertically by `delta` lines, clamped into `[0, maxScroll]` for
/// the current terminal height.
pub fn move_scroll(delta: isize, files: &Vec<DiffFileView>, app: &mut AppState, rows: u16)
    requires
        old(app).file_index < files@.len(),
    ensures
        final(app).model() == spec_move_scroll(
            old(app).model(),
            files@[old(app).file_index as int],
            rows,
            delta as int,
        ),
        old(app).wf(files@.len() as int) ==> final(app).wf(files@.len() as int),
{
    let max_scroll = max_scroll_for_current_file(files, app, rows);
    app.scroll_offset = clamp_shift(app.scroll_offset, delta, max_scroll);
}

/// Jumps to the top of the file.
pub fn scroll_to_top(app: &mut AppState)
    ensures
        final(app).model() == (AppModel { scroll_offset: 0, ..old(app).model() }),
{
    app.scroll_offset = 0;
}

/// Jumps to the bottom of the file: the greatest useful scroll offset.
pub fn scroll_to_bottom(files: &Vec<DiffFileView>, app: &mut AppState, rows: u16)
    requires
        old(app).wf(files@.len() as int),
    ensures
        final(app).model() == (AppModel {
            scroll_offset: spec_max_scroll(files@[old(app).file_index as int], rows),
            ..old(app).model()
        }),
        final(app).wf(files@.len() as int),
{
    app.scroll_offset = max_scroll_for_current_file(files, app, rows);
}

/// Image of a horizontal scroll of one pane of the active file by `delta`
/// units, clamped against the pane's greatest useful offset under the
/// current layout.
pub open spec fn spec_move_horizontal(
    m: AppModel,
    file: DiffFileView,
    columns: u16,
    rows: u16,
    pane: PaneSide,
    delta: int,
) -> AppModel {
    let line_number_width = crate::render::spec_line_number_width(file.max_line_count());
    let max_left = crate::render::spec_max_pane_offset(
        file.left_max_content_length as int,
        crate::render::spec_content_width(
            crate::render::spec_left_pane_width(columns as int),
            line_number_width,
        ),
    );
    let max_right = crate::render::spec_max_pane_offset(
        file.right_max_content_length as int,
        crate::render::spec_content_width(
            crate::render::spec_right_pane_width(columns as int),
            line_number_width,
        ),
    );
    let old_offsets = m.pane_offsets_by_file[m.file_index];
    let new_offsets = match pane {
        PaneSide::Left => PaneOffsets {
            left: spec_clamp(old_offsets.left + delta, 0, max_left) as usize,
            right: old_offsets.right,
        },
        PaneSide::Right => PaneOffsets {
            left: old_offsets.left,
            right: spec_clamp(old_offsets.right + delta, 0, max_right) as usize,
        },
    };
    AppModel {
        pane_offsets_by_file: m.pane_offsets_by_file.update(m.file_index, new_offsets),
        ..m
    }
}

/// Scrolls one pane of the active file horizontally by `delta` units,
/// clamped independently per pane against the current layout.
pub fn move_horizontal(
    pane: PaneSide,
    delta: isize,
    files: &Vec<DiffFileView>,
    app: &mut AppState,
    columns: u16,
    rows: u16,
)
    requires
        old(app).file_index < files@.len(),
        old(app).file_index < old(app).pane_offsets_by_file@.len(),
    ensures
        final(app).model() == spec_move_horizontal(
            old(app).model(),
            files@[old(app).file_index as int],
            columns,
            rows,
            pane,
            delta as int,
        ),
        old(app).wf(files@.len() as int) ==> final(app).wf(files@.len() as int),
{
    let current_file = &files[app.file_index];
    let left_count = current_file.left_lines.len();
    let right_count = current_file.right_lines.len();
    let max_lines = if left_count >= right_count {
        left_count
    } else {
        right_count
    };
    let layout = crate::render::create_frame_layout(columns, rows, max_lines);
    let max_offsets = crate::render::get_max_pane_offsets(current_file, &layout);
    let mut offsets = app.pane_offsets_by_file[app.file_index];
    match pane {
        PaneSide::Left => {
            offsets.left = clamp_shift(offsets.left, delta, max_offsets.left);
        },
        PaneSide::Right => {
            offsets.right = clamp_shift(offsets.right, delta, max_offsets.right);
        },
    }
    app.pane_offsets_by_file[app.file_index] = offsets;
}

/// Every scroll or pane-offset mutation lands inside `[0, max]` for the
/// layout it was clamped against.
pub proof fn lemma_mutations_keep_offsets_in_range(
    m: AppModel,
    file: DiffFileView,
    file_count: int,
    columns: u16,
    rows: u16,
    pane: PaneSide,
    delta: int,
)
    requires
        m.wf(file_count),
    ensures
        0 <= spec_move_scroll(m, file, rows, delta).scroll_offset <= spec_max_scroll(file, rows),
        0 <= spec_move_horizontal(m, file, columns, rows, pane, delta).pane_offsets_by_file[
            m.file_index
        ].left,
        0 <= spec_move_horizontal(m, file, columns, rows, pane, delta).pane_offsets_by_file[
            m.file_index
        ].right,
        pane == PaneSide::Left ==> spec_move_horizontal(
            m,
            file,
            columns,
            rows,
            pane,
            delta,
        ).pane_offsets_by_file[m.file_index].left <= crate::render::spec_max_pane_offset(
            file.left_max_content_length as int,
            crate::render::spec_content_width(
                crate::render::spec_left_pane_width(columns as int),
                crate::render::spec_line_number_width(file.max_line_count()),
            ),
        ),
        pane == PaneSide::Right ==> spec_move_horizontal(
            m,
            file,
            columns,
            rows,
            pane,
            delta,
        ).pane_offsets_by_file[m.file_index].right <= crate::render::spec_max_pane_offset(
            file.right_max_content_length as int,
            crate::render::spec_content_width(
                crate::render::spec_right_pane_width(columns as int),
                crate::render::spec_line_number_width(file.max_line_count()),
            ),
        ),
{
}

/// Switching the active file resets the vertical scroll to zero but keeps
/// the stored pane offsets of every file, active or not, exactly as they
/// were.
pub proof fn lemma_file_switch_keeps_pane_offsets(m: AppModel, file_count: int, delta: int)
    requires
        m.wf(file_count),
    ensures
        spec_move_file(m, file_count, delta).pane_offsets_by_file == m.pane_offsets_by_file,
        spec_move_file(m, file_count, delta).file_index != m.file_index ==> spec_move_file(
            m,
            file_count,
            delta,
        ).scroll_offset == 0,
        spec_move_file(m, file_count, delta).file_index == m.file_index ==> spec_move_file(
            m,
            file_count,
            delta,
        ) == m,
{
}


/// Line `x` is changed: deleted on the left or added on the right.
pub open spec fn spec_changed_line(file: DiffFileView, x: int) -> bool {
    0 <= x <= usize::MAX && (file.left_deleted_line_indexes@.contains(x as usize)
        || file.right_added_line_indexes@.contains(x as usize))
}

/// Line `x` opens a maximal run of consecutive changed lines.
pub open spec fn spec_is_hunk_start(file: DiffFileView, x: int) -> bool {
    spec_changed_line(file, x) && (x == 0 || !spec_changed_line(file, x - 1))
}

/// The ascending list of hunk-start lines below `n`.
pub open spec fn spec_hunk_starts_up_to(file: DiffFileView, n: int) -> Seq<usize>
    decreases n,
{
    if n <= 0 {
        Seq::empty()
    } else {
        spec_hunk_starts_up_to(file, n - 1) + (if spec_is_hunk_start(file, n - 1) {
            seq![(n - 1) as usize]
        } else {
            Seq::<usize>::empty()
        })
    }
}

/// One past the largest member of a sorted index set; zero when empty.
pub open spec fn spec_past_last(s: Seq<usize>) -> int {
    if s.len() == 0 {
        0
    } else {
        s.last() + 1
    }
}

/// One past the largest changed line of `file`; every hunk start lies
/// below it.
pub open spec fn spec_changed_bound(file: DiffFileView) -> int {
    let left = spec_past_last(file.left_deleted_line_indexes@);
    let right = spec_past_last(file.right_added_line_indexes@);
    if left >= right {
        left
    } else {
        right
    }
}

/// The full ascending list of hunk-start lines of `file`.
pub open spec fn spec_hunk_starts(file: DiffFileView) -> Seq<usize> {
    spec_hunk_starts_up_to(file, spec_changed_bound(file))
}

/// In a strictly ascending sequence every element is at most the last.
proof fn lemma_sorted_le_last(s: Seq<usize>, k: int)
    requires
        crate::model::strictly_ascending(s),
        0 <= k < s.len(),
    ensures
        s[k] <= s.last(),
{
}

/// A value strictly between neighbours of a strictly ascending sequence
/// is not a member.
proof fn lemma_sorted_gap(s: Seq<usize>, i: int, x: usize)
    requires
        crate::model::strictly_ascending(s),
        0 <= i <= s.len(),
        i > 0 ==> s[i - 1] < x,
        i < s.len() ==> x < s[i],
    ensures
        !s.contains(x),
{
    if s.contains(x) {
        let k = choose|k: int| 0 <= k < s.len() && s[k] == x;
        if k < i {
            assert(k <= i - 1);
            if k < i - 1 {
                assert(s[k] < s[i - 1]);
            }
            assert(false);
        } else {
            assert(i <= k);
            if i < k {
                assert(s[i] < s[k]);
            }
            assert(false);
        }
    }
}

/// The hunk-start list is unchanged across a stretch of unchanged lines.
proof fn lemma_hunk_starts_gap(file: DiffFileView, a: int, b: int)
    requires
        0 <= a <= b,
        forall|x: int| a <= x < b ==> !spec_changed_line(file, x),
    ensures
        spec_hunk_starts_up_to(file, b) == spec_hunk_starts_up_to(file, a),
    decreases b - a,
{
    if a < b {
        lemma_hunk_starts_gap(file, a, b - 1);
        assert(!spec_changed_line(file, b - 1));
        assert(spec_hunk_starts_up_to(file, b) =~= spec_hunk_starts_up_to(file, b - 1));
    }
}

proof fn lemma_hunk_starts_up_to_membership(file: DiffFileView, n: int, y: usize)
    requires
        n <= usize::MAX + 1,
    ensures
        spec_hunk_starts_up_to(file, n).contains(y) <==> (spec_is_hunk_start(file, y as int) && y
            < n),
    decreases n,
{
    if n > 0 {
        lemma_hunk_starts_up_to_membership(file, n - 1, y);
        let prev = spec_hunk_starts_up_to(file, n - 1);
        let cur = spec_hunk_starts_up_to(file, n);
        if spec_is_hunk_start(file, n - 1) {
            assert(cur.last() == (n - 1) as usize);
            assert(forall|k: int| 0 <= k < prev.len() ==> cur[k] == prev[k]);
            if spec_is_hunk_start(file, y as int) && y < n {
                if y < n - 1 {
                    assert(prev.contains(y));
                    let k = choose|k: int| 0 <= k < prev.len() && prev[k] == y;
                    assert(cur[k] == y);
                } else {
                    assert(cur[cur.len() - 1] == y);
                }
                assert(cur.contains(y));
            }
            if cur.contains(y) {
                let k = choose|k: int| 0 <= k < cur.len() && cur[k] == y;
                if k < prev.len() {
                    assert(prev.contains(y));
                }
            }
        } else {
            assert(cur =~= prev);
        }
    }
}

/// Hunk-start membership, in full: a line index is in the derived list
/// exactly when it is a changed line whose predecessor is unchanged (or
/// line zero).
pub proof fn lemma_hunk_starts_membership(file: DiffFileView, y: usize)
    requires
        file.wf(),
    ensures
        spec_hunk_starts(file).contains(y) <==> spec_is_hunk_start(file, y as int),
{
    let bound = spec_changed_bound(file);
    assert(bound <= usize::MAX + 1);
    lemma_hunk_starts_up_to_membership(file, bound, y);
    if spec_is_hunk_start(file, y as int) {
        if file.left_deleted_line_indexes@.contains(y) {
            let k = choose|k: int|
                0 <= k < file.left_deleted_line_indexes@.len()
                    && file.left_deleted_line_indexes@[k] == y;
            lemma_sorted_le_last(file.left_deleted_line_indexes@, k);
        } else {
            let k = choose|k: int|
                0 <= k < file.right_added_line_indexes@.len()
                    && file.right_added_line_indexes@[k] == y;
            lemma_sorted_le_last(file.right_added_line_indexes@, k);
        }
        assert(y < bound);
    }
}

/// Derives the hunk-start lines of `file`: the sorted union of its two
/// highlight sets, kept only where a maximal run of consecutive changed
/// indexes begins.
pub fn build_hunk_start_lines(file: &DiffFileView) -> (r: Vec<usize>)
    requires
        file.wf(),
    ensures
        r@ == spec_hunk_starts(*file),
{
    let mut changed: Vec<usize> = Vec::new();
    let mut i: usize = 0;
    while i < file.left_deleted_line_indexes.len()
        invariant
            i <= file.left_deleted_line_indexes@.len(),
            file.wf(),
            changed@ == file.left_deleted_line_indexes@.take(i as int),
        decreases file.left_deleted_line_indexes@.len() - i,
    {
        changed.push(file.left_deleted_line_indexes[i]);
        assert(changed@ =~= file.left_deleted_line_indexes@.take(i + 1));
        i += 1;
    }
    assert(changed@ =~= file.left_deleted_line_indexes@);
    let mut j: usize = 0;
    while j < file.right_added_line_indexes.len()
        invariant
            j <= file.right_added_line_indexes@.len(),
            file.wf(),
            crate::model::strictly_ascending(changed@),
            forall|y: usize|
                changed@.contains(y) <==> (file.left_deleted_line_indexes@.contains(y)
                    || file.right_added_line_indexes@.take(j as int).contains(y)),
        decreases file.right_added_line_indexes@.len() - j,
    {
        let ghost before = changed@;
        crate::model::insert_sorted(&mut changed, file.right_added_line_indexes[j]);
        assert forall|y: usize|
            changed@.contains(y) <==> (file.left_deleted_line_indexes@.contains(y)
                || file.right_added_line_indexes@.take(j + 1).contains(y)) by {
            let taken = file.right_added_line_indexes@.take(j + 1);
            assert(taken.drop_last() =~= file.right_added_line_indexes@.take(j as int));
            assert(taken.last() == file.right_added_line_indexes@[j as int]);
            if file.right_added_line_indexes@.take(j as int).contains(y) {
                let k = choose|k: int|
                    0 <= k < j && file.right_added_line_indexes@.take(j as int)[k] == y;
                assert(taken[k] == y);
            }
            if taken.contains(y) {
                let k = choose|k: int| 0 <= k < taken.len() && taken[k] == y;
                if k < j {
                    assert(file.right_added_line_indexes@.take(j as int)[k] == y);
                }
            }
        }
        j += 1;
    }
    assert(file.right_added_line_indexes@.take(file.right_added_line_indexes@.len() as int)
        =~= file.right_added_line_indexes@);
    assert(forall|y: usize|
        changed@.contains(y) <==> spec_changed_line(*file, y as int));

    let mut starts: Vec<usize> = Vec::new();
    let mut idx: usize = 0;
    let ghost full = changed@;
    while idx < changed.len()
        invariant
            idx <= changed@.len(),
            changed@ == full,
            crate::model::strictly_ascending(changed@),
            forall|y: usize| changed@.contains(y) <==> spec_changed_line(*file, y as int),
            starts@ == spec_hunk_starts_up_to(
                *file,
                if idx == 0 {
                    0int
                } else {
                    changed@[idx - 1] + 1
                },
            ),
        decreases changed@.len() - idx,
    {
        let e = changed[idx];
        let ghost covered: int = if idx == 0 {
            0int
        } else {
            changed@[idx - 1] + 1
        };
        proof {
            assert forall|x: int| covered <= x < e implies !spec_changed_line(*file, x) by {
                if covered <= x < e {
                    lemma_sorted_gap(changed@, idx as int, x as usize);
                }
            }
            lemma_hunk_starts_gap(*file, covered, e as int);
        }
        let is_start = e == 0 || !crate::model::sorted_contains(&changed, e - 1);
        proof {
            assert(changed@.contains(e));
            assert(spec_changed_line(*file, e as int));
            assert(is_start == spec_is_hunk_start(*file, e as int));
        }
        if is_start {
            starts.push(e);
        }
        proof {
            assert(starts@ =~= spec_hunk_starts_up_to(*file, e + 1));
        }
        idx += 1;
    }
    proof {
        let bound = spec_changed_bound(*file);
        if changed@.len() == 0 {
            assert(file.left_deleted_line_indexes@.len() == 0) by {
                if file.left_deleted_line_indexes@.len() > 0 {
                    assert(file.left_deleted_line_indexes@.contains(
                        file.left_deleted_line_indexes@[0],
                    ));
                    assert(changed@.contains(file.left_deleted_line_indexes@[0]));
                }
            }
            assert(file.right_added_line_indexes@.len() == 0) by {
                if file.right_added_line_indexes@.len() > 0 {
                    assert(file.right_added_line_indexes@.contains(
                        file.right_added_line_indexes@[0],
                    ));
                    assert(changed@.contains(file.right_added_line_indexes@[0]));
                }
            }
            assert(bound == 0);
        } else {
            let covered = changed@.last() + 1;
            assert forall|x: int| covered <= x < bound implies !spec_changed_line(*file, x) by {
                if covered <= x < bound {
                    lemma_sorted_gap(changed@, changed@.len() as int, x as usize);
                }
            }
            lemma_hunk_starts_gap(*file, covered, if bound >= covered {
                bound
            } else {
                covered
            });
            if bound < covered {
                assert(changed@.contains(changed@.last()));
                assert(spec_changed_line(*file, changed@.last() as int));
                if file.left_deleted_line_indexes@.contains(changed@.last()) {
                    let k = choose|k: int|
                        0 <= k < file.left_deleted_line_indexes@.len()
                            && file.left_deleted_line_indexes@[k] == changed@.last();
                    lemma_sorted_le_last(file.left_deleted_line_indexes@, k);
                } else {
                    let k = choose|k: int|
                        0 <= k < file.right_added_line_indexes@.len()
                            && file.right_added_line_indexes@[k] == changed@.last();
                    lemma_sorted_le_last(file.right_added_line_indexes@, k);
                }
                assert(false);
            }
        }
    }
    starts
}


/// The first member greater than `line`, scanning forward.
pub open spec fn spec_first_gt(values: Seq<usize>, line: int) -> Option<usize>
    decreases values.len(),
{
    if values.len() == 0 {
        None
    } else if values[0] > line {
        Some(values[0])
    } else {
        spec_first_gt(values.drop_first(), line)
    }
}

/// The last member less than `line`, scanning backward.
pub open spec fn spec_last_lt(values: Seq<usize>, line: int) -> Option<usize>
    decreases values.len(),
{
    if values.len() == 0 {
        None
    } else if values.last() < line {
        Some(values.last())
    } else {
        spec_last_lt(values.drop_last(), line)
    }
}

/// The first member of `values` greater than `line`, if any.
fn first_value_gt(values: &Vec<usize>, line: usize) -> (r: Option<usize>)
    ensures
        r == spec_first_gt(values@, line as int),
{
    assert(values@.skip(0) =~= values@);
    let mut i: usize = 0;
    while i < values.len()
        invariant
            i <= values@.len(),
            spec_first_gt(values@, line as int) == spec_first_gt(
                values@.skip(i as int),
                line as int,
            ),
        decreases values@.len() - i,
    {
        if values[i] > line {
            assert(values@.skip(i as int)[0] == values@[i as int]);
            return Some(values[i]);
        }
        assert(values@.skip(i as int)[0] == values@[i as int]);
        assert(values@.skip(i as int).drop_first() =~= values@.skip(i + 1));
        i += 1;
    }
    assert(values@.skip(values@.len() as int) =~= Seq::<usize>::empty());
    None
}

/// The last member of `values` less than `line`, if any.
fn last_value_lt(values: &Vec<usize>, line: usize) -> (r: Option<usize>)
    ensures
        r == spec_last_lt(values@, line as int),
{
    assert(values@.take(values@.len() as int) =~= values@);
    let mut i: usize = values.len();
    while i > 0
        invariant
            i <= values@.len(),
            spec_last_lt(values@, line as int) == spec_last_lt(values@.take(i as int), line as int),
        decreases i,
    {
        assert(values@.take(i as int).last() == values@[i - 1]);
        if values[i - 1] < line {
            return Some(values[i - 1]);
        }
        assert(values@.take(i as int).drop_last() =~= values@.take(i - 1));
        i -= 1;
    }
    assert(values@.take(0) =~= Seq::<usize>::empty());
    None
}

/// The cyclic cursor step stays inside the match list.
proof fn lemma_next_cursor_bounds(count: int, current: Option<int>, forward: bool)
    requires
        count > 0,
        (match current {
            Some(i) => 0 <= i < count,
            None => true,
        }),
    ensures
        0 <= spec_next_cursor(count, current, forward) < count,
{
    match current {
        Some(i) => {
            if forward {
                assert(0 <= (i + 1) % count < count) by (nonlinear_arith)
                    requires
                        count > 0,
                ;
            } else {
                assert(0 <= (i + count - 1) % count < count) by (nonlinear_arith)
                    requires
                        count > 0,
                ;
            }
        },
        None => {},
    }
}

/// Image of one jump to the next or previous search match.
pub open spec fn spec_jump_to_match(
    m: AppModel,
    file: DiffFileView,
    rows: u16,
    forward: bool,
) -> AppModel {
    if m.search_match_line_indexes.len() == 0 {
        AppModel { search_match_index: None, ..m }
    } else {
        let k = spec_next_cursor(
            m.search_match_line_indexes.len() as int,
            m.search_match_index,
            forward,
        );
        let target = m.search_match_line_indexes[k];
        let maxs = spec_max_scroll(file, rows);
        AppModel {
            search_match_index: Some(k),
            scroll_offset: if target <= maxs {
                target as int
            } else {
                maxs
            },
            ..m
        }
    }
}

/// Image of one hunk jump: forward to the first hunk start strictly past
/// the scroll offset (wrapping to the first overall), backward to the last
/// strictly before it (wrapping to the last overall), clamped to the
/// layout's greatest scroll.
pub open spec fn spec_jump_to_hunk(
    m: AppModel,
    file: DiffFileView,
    rows: u16,
    forward: bool,
) -> AppModel {
    let hunk_starts = spec_hunk_starts(file);
    if hunk_starts.len() == 0 {
        m
    } else {
        let target = if forward {
            match spec_first_gt(hunk_starts, m.scroll_offset) {
                Some(y) => y,
                None => hunk_starts[0],
            }
        } else {
            match spec_last_lt(hunk_starts, m.scroll_offset) {
                Some(y) => y,
                None => hunk_starts.last(),
            }
        };
        let maxs = spec_max_scroll(file, rows);
        AppModel {
            scroll_offset: if target <= maxs {
                target as int
            } else {
                maxs
            },
            ..m
        }
    }
}

/// Image of recomputing the match list for the active file under the
/// committed query.
pub open spec fn spec_refresh_matches(m: AppModel, file: DiffFileView) -> AppModel {
    if m.search_query.len() == 0 {
        AppModel {
            search_match_line_indexes: Seq::empty(),
            search_match_index: None,
            ..m
        }
    } else {
        let matches = spec_search_matches(file, m.search_query);
        AppModel {
            search_match_line_indexes: matches,
            search_match_index: if matches.len() == 0 {
                None
            } else {
                Some(0int)
            },
            ..m
        }
    }
}

/// Image of committing the search input: the buffer becomes the query,
/// input mode ends, matches are recomputed, and the view jumps to the
/// first match at or after the current scroll position, wrapping to the
/// first match overall.
pub open spec fn spec_apply_search_input(m: AppModel, file: DiffFileView, rows: u16) -> AppModel {
    let committed = AppModel {
        search_query: m.search_input,
        search_input: Seq::empty(),
        search_input_mode: false,
        ..m
    };
    let refreshed = spec_refresh_matches(committed, file);
    if refreshed.search_match_line_indexes.len() == 0 {
        refreshed
    } else {
        let start = match spec_position_geq(
            refreshed.search_match_line_indexes,
            m.scroll_offset,
        ) {
            Some(k) => k,
            None => 0int,
        };
        let target = refreshed.search_match_line_indexes[start];
        let maxs = spec_max_scroll(file, rows);
        AppModel {
            search_match_index: Some(start),
            scroll_offset: if target <= maxs {
                target as int
            } else {
                maxs
            },
            ..refreshed
        }
    }
}

proof fn lemma_position_geq_bounds(matches: Seq<usize>, line: int)
    ensures
        (match spec_position_geq(matches, line) {
            Some(k) => 0 <= k < matches.len(),
            None => true,
        }),
    decreases matches.len(),
{
    if matches.len() > 0 && !(matches[0] >= line) {
        lemma_position_geq_bounds(matches.drop_first(), line);
    }
}

impl AppState {
    pub fn is_search_input_mode(&self) -> (r: bool)
        ensures
            r == self.search_input_mode,
    {
        self.search_input_mode
    }

    /// Recomputes the match list for the active file; the committed query
    /// persists across files, the match list does not.
    pub fn refresh_search_matches_for_current_file(&mut self, files: &Vec<DiffFileView>)
        requires
            old(self).wf(files@.len() as int),
        ensures
            final(self).model() == spec_refresh_matches(
                old(self).model(),
                files@[old(self).file_index as int],
            ),
            final(self).wf(files@.len() as int),
    {
        if self.search_query.as_str().unicode_len() == 0 {
            self.search_match_line_indexes = Vec::new();
            self.search_match_index = None;
            return;
        }
        let current_file = &files[self.file_index];
        let left_count = current_file.left_lines.len();
        let right_count = current_file.right_lines.len();
        assert(current_file.max_line_count() <= usize::MAX);
        let matches = build_search_match_line_indexes(current_file, self.search_query.as_str());
        proof {
            lemma_search_matches_sorted(*current_file, self.search_query@);
        }
        self.search_match_index = if matches.len() == 0 {
            None
        } else {
            Some(0)
        };
        self.search_match_line_indexes = matches;
    }

    /// Moves the cyclic match cursor one step and scrolls to the match it
    /// lands on, clamped to the layout's greatest scroll; with no matches
    /// the cursor is cleared and nothing moves.
    pub fn jump_to_search_match(&mut self, files: &Vec<DiffFileView>, rows: u16, forward: bool)
        requires
            old(self).wf(files@.len() as int),
        ensures
            final(self).model() == spec_jump_to_match(
                old(self).model(),
                files@[old(self).file_index as int],
                rows,
                forward,
            ),
            final(self).wf(files@.len() as int),
    {
        if self.search_match_line_indexes.len() == 0 {
            self.search_match_index = None;
            return;
        }
        proof {
            lemma_next_cursor_bounds(
                self.search_match_line_indexes@.len() as int,
                old(self).model().search_match_index,
                forward,
            );
        }
        let next = next_match_index(
            self.search_match_line_indexes.len(),
            self.search_match_index,
            forward,
        );
        if let Some(match_index) = next {
            self.search_match_index = Some(match_index);
            let target_line = self.search_match_line_indexes[match_index];
            let max_scroll = max_scroll_for_current_file(files, self, rows);
            self.scroll_offset = if target_line <= max_scroll {
                target_line
            } else {
                max_scroll
            };
        }
    }

    /// Scrolls to the nearest hunk start in the given direction, with
    /// wrap-around; a file without changed lines is left untouched.
    pub fn jump_to_hunk(&mut self, files: &Vec<DiffFileView>, rows: u16, forward: bool)
        requires
            old(self).wf(files@.len() as int),
            files@[old(self).file_index as int].wf(),
        ensures
            final(self).model() == spec_jump_to_hunk(
                old(self).model(),
                files@[old(self).file_index as int],
                rows,
                forward,
            ),
            final(self).wf(files@.len() as int),
    {
        let hunk_starts = build_hunk_start_lines(&files[self.file_index]);
        if hunk_starts.len() == 0 {
            return;
        }
        let found = if forward {
            first_value_gt(&hunk_starts, self.scroll_offset)
        } else {
            last_value_lt(&hunk_starts, self.scroll_offset)
        };
        let target = match found {
            Some(line) => line,
            None => {
                if forward {
                    hunk_starts[0]
                } else {
                    hunk_starts[hunk_starts.len() - 1]
                }
            },
        };
        let max_scroll = max_scroll_for_current_file(files, self, rows);
        self.scroll_offset = if target <= max_scroll {
            target
        } else {
            max_scroll
        };
    }

    /// Enters search-input mode with a cleared input buffer.
    pub fn enter_search_input_mode(&mut self)
        ensures
            final(self).model() == (AppModel {
                search_input_mode: true,
                search_input: Seq::empty(),
                ..old(self).model()
            }),
    {
        self.search_input_mode = true;
        self.search_input = String::new();
    }

    /// Leaves search-input mode, discarding only the input buffer; the
    /// previously committed query and its matches are untouched.
    pub fn exit_search_input_mode(&mut self)
        ensures
            final(self).model() == (AppModel {
                search_input_mode: false,
                search_input: Seq::empty(),
                ..old(self).model()
            }),
    {
        self.search_input_mode = false;
        self.search_input = String::new();
    }

    /// Commits the input buffer as the query and jumps to the first match
    /// at or after the current scroll position, wrapping to the first
    /// match overall when none qualifies.
    pub fn apply_search_input(&mut self, files: &Vec<DiffFileView>, rows: u16)
        requires
            old(self).wf(files@.len() as int),
        ensures
            final(self).model() == spec_apply_search_input(
                old(self).model(),
                files@[old(self).file_index as int],
                rows,
            ),
            final(self).wf(files@.len() as int),
    {
        let ghost scroll_before: int = self.scroll_offset as int;
        self.search_query = self.search_input.clone();
        self.search_input = String::new();
        self.search_input_mode = false;
        self.refresh_search_matches_for_current_file(files);
        if self.search_match_line_indexes.len() == 0 {
            return;
        }
        proof {
            lemma_position_geq_bounds(self.search_match_line_indexes@, scroll_before);
        }
        let found = first_match_index_from_line(
            &self.search_match_line_indexes,
            self.scroll_offset,
            true,
        );
        if let Some(start_index) = found {
            self.search_match_index = Some(start_index);
            let target_line = self.search_match_line_indexes[start_index];
            let max_scroll = max_scroll_for_current_file(files, self, rows);
            self.scroll_offset = if target_line <= max_scroll {
                target_line
            } else {
                max_scroll
            };
        }
    }
}


/// The footer's search status line.
pub open spec fn spec_search_status(m: AppModel) -> Seq<char> {
    if m.search_input_mode {
        "search: /"@ + m.search_input
    } else if m.search_query.len() == 0 {
        "search: /"@
    } else if m.search_match_line_indexes.len() == 0 {
        "search: /"@ + m.search_query + " (no matches)"@
    } else {
        let current = (match m.search_match_index {
            Some(i) => i,
            None => 0int,
        }) + 1;
        "search: /"@ + m.search_query + " ("@ + crate::render::spec_dec_digits(current as nat)
            + "/"@ + crate::render::spec_dec_digits(m.search_match_line_indexes.len()) + ")"@
    }
}

impl AppState {
    /// The search status shown in the footer: the live buffer while
    /// typing, else the committed query with its match position.
    pub fn search_status_text(&self) -> (r: String)
        requires
            (match self.search_match_index {
                Some(i) => i < self.search_match_line_indexes@.len(),
                None => true,
            }),
        ensures
            r@ == spec_search_status(self.model()),
    {
        proof {
            reveal_strlit("search: /");
            reveal_strlit(" (no matches)");
            reveal_strlit(" (");
            reveal_strlit("/");
            reveal_strlit(")");
        }
        let mut r = String::new();
        r.append("search: /");
        if self.search_input_mode {
            r.append(self.search_input.as_str());
            assert(r@ =~= spec_search_status(self.model()));
            return r;
        }
        if self.search_query.as_str().unicode_len() == 0 {
            assert(r@ =~= spec_search_status(self.model()));
            return r;
        }
        r.append(self.search_query.as_str());
        if self.search_match_line_indexes.len() == 0 {
            r.append(" (no matches)");
            assert(r@ =~= spec_search_status(self.model()));
            return r;
        }
        let current_match = match self.search_match_index {
            Some(i) => i + 1,
            None => 1,
        };
        r.append(" (");
        let current_text = crate::render::dec_string(current_match);
        r.append(current_text.as_str());
        r.append("/");
        let total_text = crate::render::dec_string(self.search_match_line_indexes.len());
        r.append(total_text.as_str());
        r.append(")");
        assert(r@ =~= spec_search_status(self.model()));
        r
    }
}

/// Relies on String::push: appends exactly the one character.
#[verifier::external_body]
fn push_char(s: &mut String, c: char)
    ensures
        final(s)@ == old(s)@.push(c),
{
    s.push(c);
}

/// Image of switching the active file and, on an actual change,
/// recomputing the match list for the newly active file.
pub open spec fn spec_file_change(
    m: AppModel,
    files: Seq<DiffFileView>,
    delta: int,
) -> AppModel {
    let moved = spec_move_file(m, files.len() as int, delta);
    if moved.file_index != m.file_index {
        spec_refresh_matches(moved, files[moved.file_index])
    } else {
        moved
    }
}

/// Image of one keypress: the successor state and the outcome handed to
/// the caller. Mirrors `handle_keypress` clause for clause.
pub open spec fn spec_handle_keypress(
    m: AppModel,
    files: Seq<DiffFileView>,
    key: KeyInput,
    rows: u16,
) -> (AppModel, KeypressOutcome) {
    let quit = KeypressOutcome { should_quit: true, review_toggled: None };
    let nothing = KeypressOutcome { should_quit: false, review_toggled: None };
    let file = files[m.file_index];
    let page = crate::render::spec_body_line_count(rows as int);
    if key.ctrl && (key.code == KeyCode::Char('c') || key.code == KeyCode::Char('C')) {
        (m, quit)
    } else if m.search_input_mode {
        if key.code == KeyCode::Enter {
            (spec_apply_search_input(m, file, rows), nothing)
        } else if key.code == KeyCode::Esc {
            (AppModel { search_input_mode: false, search_input: Seq::empty(), ..m }, nothing)
        } else if key.code == KeyCode::Backspace {
            let shortened = if m.search_input.len() > 0 {
                m.search_input.drop_last()
            } else {
                m.search_input
            };
            (AppModel { search_input: shortened, ..m }, nothing)
        } else {
            match key.code {
                KeyCode::Char(ch) => if !key.ctrl && !key.alt {
                    (AppModel { search_input: m.search_input.push(ch), ..m }, nothing)
                } else {
                    (m, nothing)
                },
                _ => (m, nothing),
            }
        }
    } else {
        let code = key.code;
        if code == KeyCode::Char('q') || code == KeyCode::Char('Q') {
            (m, quit)
        } else if code == KeyCode::Left || code == KeyCode::Char('h') {
            (spec_file_change(m, files, -1), nothing)
        } else if code == KeyCode::Right || code == KeyCode::Char('l') {
            (spec_file_change(m, files, 1), nothing)
        } else if code == KeyCode::Up || code == KeyCode::Char('k') {
            (spec_move_scroll(m, file, rows, -1), nothing)
        } else if code == KeyCode::Down || code == KeyCode::Char('j') {
            (spec_move_scroll(m, file, rows, 1), nothing)
        } else if code == KeyCode::Char('u') && key.ctrl {
            (spec_move_scroll(m, file, rows, -page), nothing)
        } else if code == KeyCode::Char('d') && key.ctrl {
            (spec_move_scroll(m, file, rows, page), nothing)
        } else if code == KeyCode::PageUp {
            (spec_move_scroll(m, file, rows, -page), nothing)
        } else if code == KeyCode::PageDown {
            (spec_move_scroll(m, file, rows, page), nothing)
        } else if code == KeyCode::Home {
            (AppModel { scroll_offset: 0, ..m }, nothing)
        } else if code == KeyCode::End || code == KeyCode::Char('G') || (code == KeyCode::Char('g')
            && key.shift) {
            (AppModel { scroll_offset: spec_max_scroll(file, rows), ..m }, nothing)
        } else if code == KeyCode::Char('g') {
            (AppModel { scroll_offset: 0, ..m }, nothing)
        } else if code == KeyCode::Char('/') {
            (AppModel { search_input_mode: true, search_input: Seq::empty(), ..m }, nothing)
        } else if code == KeyCode::Char('n') {
            (spec_jump_to_match(m, file, rows, true), nothing)
        } else if code == KeyCode::Char('N') {
            (spec_jump_to_match(m, file, rows, false), nothing)
        } else if code == KeyCode::Char('}') {
            (spec_jump_to_hunk(m, file, rows, true), nothing)
        } else if code == KeyCode::Char('{') {
            (spec_jump_to_hunk(m, file, rows, false), nothing)
        } else if code == KeyCode::Char('r') {
            let toggled = spec_toggle_reviewed(m);
            (
                toggled,
                KeypressOutcome {
                    should_quit: false,
                    review_toggled: Some(
                        (m.file_index as usize, !m.reviewed_by_file[m.file_index]),
                    ),
                },
            )
        } else {
            (m, nothing)
        }
    }
}

/// Applies one keypress to the navigation state. Control-c and q quit;
/// arrows, vim keys and paging move; `/` starts a search, enter commits
/// it; n/N and braces step through matches and hunks; r toggles the
/// reviewed mark and reports the toggle outward for persistence.
pub fn handle_keypress(
    key: KeyInput,
    files: &Vec<DiffFileView>,
    app: &mut AppState,
    rows: u16,
) -> (outcome: KeypressOutcome)
    requires
        old(app).wf(files@.len() as int),
        forall|i: int| 0 <= i < files@.len() ==> (#[trigger] files@[i]).wf(),
    ensures
        final(app).model() == spec_handle_keypress(old(app).model(), files@, key, rows).0,
        outcome == spec_handle_keypress(old(app).model(), files@, key, rows).1,
        final(app).wf(files@.len() as int),
{
    let quit = KeypressOutcome { should_quit: true, review_toggled: None };
    if key.ctrl && (matches!(key.code, KeyCode::Char('c')) || matches!(
        key.code,
        KeyCode::Char('C'),
    )) {
        return quit;
    }
    if app.is_search_input_mode() {
        match key.code {
            KeyCode::Enter => app.apply_search_input(files, rows),
            KeyCode::Esc => app.exit_search_input_mode(),
            KeyCode::Backspace => {
                let len = app.search_input.as_str().unicode_len();
                if len > 0 {
                    let shortened = app.search_input.as_str().substring_char(0, len - 1).to_owned();
                    app.search_input = shortened;
                    assert(app.search_input@ =~= old(app).search_input@.drop_last());
                }
            },
            KeyCode::Char(ch) => {
                if !key.ctrl && !key.alt {
                    push_char(&mut app.search_input, ch);
                }
            },
            _ => {},
        }
        return KeypressOutcome::default();
    }
    match key.code {
        KeyCode::Char('q') | KeyCode::Char('Q') => quit,
        KeyCode::Left | KeyCode::Char('h') => {
            if move_file(-1, files, app) {
                app.refresh_search_matches_for_current_file(files);
            }
            KeypressOutcome::default()
        },
        KeyCode::Right | KeyCode::Char('l') => {
            if move_file(1, files, app) {
                app.refresh_search_matches_for_current_file(files);
            }
            KeypressOutcome::default()
        },
        KeyCode::Up | KeyCode::Char('k') => {
            move_scroll(-1, files, app, rows);
            KeypressOutcome::default()
        },
        KeyCode::Down | KeyCode::Char('j') => {
            move_scroll(1, files, app, rows);
            KeypressOutcome::default()
        },
        KeyCode::Char('u') if key.ctrl => {
            let page_size = crate::render::get_body_line_count(rows as usize);
            move_scroll(-(page_size as isize), files, app, rows);
            KeypressOutcome::default()
        },
        KeyCode::Char('d') if key.ctrl => {
            let page_size = crate::render::get_body_line_count(rows as usize);
            move_scroll(page_size as isize, files, app, rows);
            KeypressOutcome::default()
        },
        KeyCode::PageUp => {
            let page_size = crate::render::get_body_line_count(rows as usize);
            move_scroll(-(page_size as isize), files, app, rows);
            KeypressOutcome::default()
        },
        KeyCode::PageDown => {
            let page_size = crate::render::get_body_line_count(rows as usize);
            move_scroll(page_size as isize, files, app, rows);
            KeypressOutcome::default()
        },
        KeyCode::Home => {
            scroll_to_top(app);
            KeypressOutcome::default()
        },
        KeyCode::End => {
            scroll_to_bottom(files, app, rows);
            KeypressOutcome::default()
        },
        KeyCode::Char('g') if key.shift => {
            scroll_to_bottom(files, app, rows);
            KeypressOutcome::default()
        },
        KeyCode::Char('G') => {
            scroll_to_bottom(files, app, rows);
            KeypressOutcome::default()
        },
        KeyCode::Char('g') => {
            scroll_to_top(app);
            KeypressOutcome::default()
        },
        KeyCode::Char('/') => {
            app.enter_search_input_mode();
            KeypressOutcome::default()
        },
        KeyCode::Char('n') => {
            app.jump_to_search_match(files, rows, true);
            KeypressOutcome::default()
        },
        KeyCode::Char('N') => {
            app.jump_to_search_match(files, rows, false);
            KeypressOutcome::default()
        },
        KeyCode::Char('}') => {
            app.jump_to_hunk(files, rows, true);
            KeypressOutcome::default()
        },
        KeyCode::Char('{') => {
            app.jump_to_hunk(files, rows, false);
            KeypressOutcome::default()
        },
        KeyCode::Char('r') => {
            let ghost flags = app.reviewed_by_file@;
            let ghost active = app.file_index as int;
            let reviewed = app.toggle_current_file_reviewed();
            proof {
                lemma_count_true_update(flags, active, !flags[active]);
            }
            KeypressOutcome { should_quit: false, review_toggled: Some((app.file_index, reviewed)) }
        },
        _ => KeypressOutcome::default(),
    }
}


/// Lines scrolled per mouse-wheel tick.
pub const MOUSE_WHEEL_SCROLL_LINES: usize = 3;

/// Columns scrolled per horizontal wheel tick.
pub const MOUSE_WHEEL_HORIZONTAL_COLUMNS: usize = 8;

/// A mouse event, already decoded into plain data.
#[derive(Clone, Copy, Debug, PartialEq, Eq, Structural)]
pub enum MouseKind {
    ScrollUp,
    ScrollDown,
    ScrollLeft,
    ScrollRight,
    Other,
}

#[derive(Clone, Copy, Debug, PartialEq, Eq, Structural)]
pub struct MouseInput {
    pub kind: MouseKind,
    pub row: u16,
    pub column: u16,
    pub shift: bool,
}

/// Which pane a terminal column falls into under the layout for `file`.
pub open spec fn spec_pane_for_column(file: DiffFileView, columns: u16, column: int) -> Option<
    PaneSide,
> {
    let left_width = crate::render::spec_left_pane_width(columns as int);
    let right_start = left_width + crate::render::PANE_SEPARATOR_WIDTH;
    let right_end = right_start + crate::render::spec_right_pane_width(columns as int) - 1;
    if 0 <= column <= left_width - 1 {
        Some(PaneSide::Left)
    } else if right_start <= column <= right_end {
        Some(PaneSide::Right)
    } else {
        None
    }
}

/// Image of one mouse event: wheel ticks scroll vertically, with shift or
/// a horizontal wheel they scroll the hovered pane; anything outside the
/// body rows is ignored.
pub open spec fn spec_handle_mouse(
    m: AppModel,
    files: Seq<DiffFileView>,
    mouse: MouseInput,
    columns: u16,
    rows: u16,
) -> AppModel {
    let file = files[m.file_index];
    let body_start = crate::render::HEADER_LINE_COUNT + 1;
    let body_end = body_start + crate::render::spec_body_line_count(rows as int) - 1;
    let wheel_lines = MOUSE_WHEEL_SCROLL_LINES as int;
    let wheel_columns = MOUSE_WHEEL_HORIZONTAL_COLUMNS as int;
    if mouse.row < body_start || mouse.row > body_end {
        m
    } else {
        let hovered = spec_pane_for_column(file, columns, mouse.column as int);
        match mouse.kind {
            MouseKind::ScrollUp => if mouse.shift {
                match hovered {
                    Some(pane) => spec_move_horizontal(m, file, columns, rows, pane, -wheel_columns),
                    None => m,
                }
            } else {
                spec_move_scroll(m, file, rows, -wheel_lines)
            },
            MouseKind::ScrollDown => if mouse.shift {
                match hovered {
                    Some(pane) => spec_move_horizontal(m, file, columns, rows, pane, wheel_columns),
                    None => m,
                }
            } else {
                spec_move_scroll(m, file, rows, wheel_lines)
            },
            MouseKind::ScrollLeft => match hovered {
                Some(pane) => spec_move_horizontal(m, file, columns, rows, pane, -wheel_columns),
                None => m,
            },
            MouseKind::ScrollRight => match hovered {
                Some(pane) => spec_move_horizontal(m, file, columns, rows, pane, wheel_columns),
                None => m,
            },
            MouseKind::Other => m,
        }
    }
}

/// Applies one mouse event: vertical wheel scrolling, and horizontal
/// scrolling of the hovered pane via shift-wheel or a horizontal wheel.
pub fn handle_mouse(
    mouse: MouseInput,
    files: &Vec<DiffFileView>,
    app: &mut AppState,
    columns: u16,
    rows: u16,
)
    requires
        old(app).wf(files@.len() as int),
    ensures
        final(app).model() == spec_handle_mouse(old(app).model(), files@, mouse, columns, rows),
        final(app).wf(files@.len() as int),
{
    let current_file = &files[app.file_index];
    let left_count = current_file.left_lines.len();
    let right_count = current_file.right_lines.len();
    let max_lines = if left_count >= right_count {
        left_count
    } else {
        right_count
    };
    let layout = crate::render::create_frame_layout(columns, rows, max_lines);

    let row = mouse.row as usize;
    if row < layout.body_start_row || row > layout.body_end_row {
        return;
    }
    let column = mouse.column as usize;
    let hovered_pane = crate::render::get_pane_for_column(column, &layout);
    assert(hovered_pane == spec_pane_for_column(*current_file, columns, column as int));

    match mouse.kind {
        MouseKind::ScrollUp => {
            if mouse.shift {
                if let Some(pane) = hovered_pane {
                    move_horizontal(
                        pane,
                        -(MOUSE_WHEEL_HORIZONTAL_COLUMNS as isize),
                        files,
                        app,
                        columns,
                        rows,
                    );
                }
            } else {
                move_scroll(-(MOUSE_WHEEL_SCROLL_LINES as isize), files, app, rows);
            }
        },
        MouseKind::ScrollDown => {
            if mouse.shift {
                if let Some(pane) = hovered_pane {
                    move_horizontal(
                        pane,
                        MOUSE_WHEEL_HORIZONTAL_COLUMNS as isize,
                        files,
                        app,
                        columns,
                        rows,
                    );
                }
            } else {
                move_scroll(MOUSE_WHEEL_SCROLL_LINES as isize, files, app, rows);
            }
        },
        MouseKind::ScrollLeft => {
            if let Some(pane) = hovered_pane {
                move_horizontal(
                    pane,
                    -(MOUSE_WHEEL_HORIZONTAL_COLUMNS as isize),
                    files,
                    app,
                    columns,
                    rows,
                );
            }
        },
        MouseKind::ScrollRight => {
            if let Some(pane) = hovered_pane {
                move_horizontal(
                    pane,
                    MOUSE_WHEEL_HORIZONTAL_COLUMNS as isize,
                    files,
                    app,
                    columns,
                    rows,
                );
            }
        },
        MouseKind::Other => {},
    }
}

} // verus!
