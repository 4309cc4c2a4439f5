//! Pure layout engine and frame assembly: terminal geometry to pane and
//! column math, and the plain-text content of one painted frame.

use vstd::prelude::*;
use vstd::string::*;
use crate::model::{DiffFileView, PaneOffsets, PaneSide};

verus! {

pub const HEADER_LINE_COUNT: usize = 4;

pub const FOOTER_LINE_COUNT: usize = 2;

pub const FRAME_DIVIDER_LINE_COUNT: usize = 2;

pub const MIN_BODY_LINE_COUNT: usize = 3;

/// Character count of the pane separator ` | `.
pub const PANE_SEPARATOR_WIDTH: usize = 3;

/// The column and row geometry of one frame, derived from nothing but the
/// terminal size and the active file's line count.
#[derive(Clone, Copy, Debug, PartialEq, Eq, Structural)]
pub struct FrameLayout {
    pub columns: usize,
    pub body_line_count: usize,
    pub left_pane_width: usize,
    pub right_pane_width: usize,
    pub left_content_width: usize,
    pub right_content_width: usize,
    pub line_number_width: usize,
    pub body_start_row: usize,
    pub body_end_row: usize,
    pub left_pane_start_column: usize,
    pub left_pane_end_column: usize,
    pub right_pane_start_column: usize,
    pub right_pane_end_column: usize,
}

/// Rows left for the body once header, footer and dividers are taken out,
/// floored at three so a tiny terminal still shows a usable view.
pub open spec fn spec_body_line_count(rows: int) -> int {
    let chrome = HEADER_LINE_COUNT + FOOTER_LINE_COUNT + FRAME_DIVIDER_LINE_COUNT;
    if rows - chrome >= MIN_BODY_LINE_COUNT {
        rows - chrome
    } else {
        MIN_BODY_LINE_COUNT as int
    }
}

/// Columns available to the two panes together.
pub open spec fn spec_available_pane_width(columns: int) -> int {
    let available = if columns >= PANE_SEPARATOR_WIDTH {
        columns - PANE_SEPARATOR_WIDTH
    } else {
        0
    };
    if available >= 2 {
        available
    } else {
        2
    }
}

/// The left pane takes the larger half of an odd split.
pub open spec fn spec_left_pane_width(columns: int) -> int {
    let left = (spec_available_pane_width(columns) + 1) / 2;
    if left >= 1 {
        left
    } else {
        1
    }
}

pub open spec fn spec_right_pane_width(columns: int) -> int {
    let right = spec_available_pane_width(columns) - spec_left_pane_width(columns);
    if right >= 1 {
        right
    } else {
        1
    }
}

/// Decimal digit count, at least one.
pub open spec fn spec_digit_count(n: nat) -> nat
    decreases n,
{
    if n < 10 {
        1
    } else {
        1 + spec_digit_count(n / 10)
    }
}

/// Width of the line-number column: the digit count of the largest line
/// number, floored at three so columns do not jitter.
pub open spec fn spec_line_number_width(max_lines: nat) -> int {
    if spec_digit_count(max_lines) >= 3 {
        spec_digit_count(max_lines) as int
    } else {
        3
    }
}

/// Pane width minus the line-number column and its trailing space,
/// clamped at zero.
pub open spec fn spec_content_width(pane_width: int, line_number_width: int) -> int {
    if pane_width - (line_number_width + 1) >= 0 {
        pane_width - (line_number_width + 1)
    } else {
        0
    }
}

proof fn lemma_digit_count_bound(n: nat)
    ensures
        spec_digit_count(n) <= n / 10 + 1,
    decreases n,
{
    if n >= 10 {
        lemma_digit_count_bound(n / 10);
    }
}

/// Decimal digit count of `n`, at least one.
pub fn digit_count(n: usize) -> (r: usize)
    ensures
        r == spec_digit_count(n as nat),
{
    let mut m: usize = n;
    let mut d: usize = 1;
    while m >= 10
        invariant
            d >= 1,
            spec_digit_count(n as nat) == d - 1 + spec_digit_count(m as nat),
        decreases m,
    {
        proof {
            lemma_digit_count_bound(n as nat);
        }
        m = m / 10;
        d = d + 1;
    }
    d
}

/// Rows available for file content given the terminal height.
pub fn get_body_line_count(rows: usize) -> (r: usize)
    ensures
        r == spec_body_line_count(rows as int),
{
    let chrome = HEADER_LINE_COUNT + FOOTER_LINE_COUNT + FRAME_DIVIDER_LINE_COUNT;
    let body = if rows >= chrome {
        rows - chrome
    } else {
        0
    };
    if body >= MIN_BODY_LINE_COUNT {
        body
    } else {
        MIN_BODY_LINE_COUNT
    }
}

/// Derives the whole frame geometry from the terminal size and the active
/// file's larger line count. Referentially transparent: called anew for
/// every paint, since the terminal may resize between any two events.
pub fn create_frame_layout(columns: u16, rows: u16, max_lines: usize) -> (layout: FrameLayout)
    ensures
        layout.columns == columns as int,
        layout.body_line_count == spec_body_line_count(rows as int),
        layout.left_pane_width == spec_left_pane_width(columns as int),
        layout.right_pane_width == spec_right_pane_width(columns as int),
        layout.line_number_width == spec_line_number_width(max_lines as nat),
        layout.left_content_width == spec_content_width(
            layout.left_pane_width as int,
            layout.line_number_width as int,
        ),
        layout.right_content_width == spec_content_width(
            layout.right_pane_width as int,
            layout.line_number_width as int,
        ),
        layout.body_start_row == HEADER_LINE_COUNT + 1,
        layout.body_end_row == layout.body_start_row + layout.body_line_count - 1,
        layout.left_pane_start_column == 0,
        layout.left_pane_end_column == layout.left_pane_width - 1,
        layout.right_pane_start_column == layout.left_pane_width + PANE_SEPARATOR_WIDTH,
        layout.right_pane_end_column == layout.right_pane_start_column + layout.right_pane_width
            - 1,
{
    let columns = columns as usize;
    let rows = rows as usize;
    let body_line_count = get_body_line_count(rows);
    let subtracted = if columns >= PANE_SEPARATOR_WIDTH {
        columns - PANE_SEPARATOR_WIDTH
    } else {
        0
    };
    let available_pane_width = if subtracted >= 2 {
        subtracted
    } else {
        2
    };
    let half = (available_pane_width + 1) / 2;
    let left_pane_width = if half >= 1 {
        half
    } else {
        1
    };
    let remainder = if available_pane_width >= left_pane_width {
        available_pane_width - left_pane_width
    } else {
        0
    };
    let right_pane_width = if remainder >= 1 {
        remainder
    } else {
        1
    };
    let digits = digit_count(max_lines);
    let line_number_width = if digits >= 3 {
        digits
    } else {
        3
    };
    proof {
        lemma_digit_count_bound(max_lines as nat);
    }
    let left_content_width = if left_pane_width >= line_number_width + 1 {
        left_pane_width - (line_number_width + 1)
    } else {
        0
    };
    let right_content_width = if right_pane_width >= line_number_width + 1 {
        right_pane_width - (line_number_width + 1)
    } else {
        0
    };
    let body_start_row = HEADER_LINE_COUNT + 1;
    let body_end_row = body_start_row + (body_line_count - 1);
    let left_pane_start_column: usize = 0;
    let left_pane_end_column = left_pane_width - 1;
    let right_pane_start_column = left_pane_width + PANE_SEPARATOR_WIDTH;
    let right_pane_end_column = right_pane_start_column + (right_pane_width - 1);

    FrameLayout {
        columns,
        body_line_count,
        left_pane_width,
        right_pane_width,
        left_content_width,
        right_content_width,
        line_number_width,
        body_start_row,
        body_end_row,
        left_pane_start_column,
        left_pane_end_column,
        right_pane_start_column,
        right_pane_end_column,
    }
}

/// The two panes and the separator tile the terminal width exactly, for
/// every terminal at least as wide as the five-column minimum.
pub proof fn lemma_pane_widths_fill_columns(columns: int)
    requires
        columns >= 2 + PANE_SEPARATOR_WIDTH,
    ensures
        spec_left_pane_width(columns) + PANE_SEPARATOR_WIDTH + spec_right_pane_width(columns)
            == columns,
{
    let available = spec_available_pane_width(columns);
    assert(available == columns - PANE_SEPARATOR_WIDTH);
    assert(available >= 2);
    assert(spec_left_pane_width(columns) == (available + 1) / 2);
    assert((available + 1) / 2 >= 1);
    assert(available - (available + 1) / 2 >= 1);
}

/// Greatest useful horizontal offset of one pane: scrolling further would
/// show nothing beyond the widest line.
pub fn get_max_pane_offset(max_content_length: usize, content_width: usize) -> (r: usize)
    ensures
        r == spec_max_pane_offset(max_content_length as int, content_width as int),
{
    if content_width == 0 {
        0
    } else if max_content_length >= content_width {
        max_content_length - content_width
    } else {
        0
    }
}

pub open spec fn spec_max_pane_offset(max_content_length: int, content_width: int) -> int {
    if content_width == 0 {
        0
    } else if max_content_length - content_width >= 0 {
        max_content_length - content_width
    } else {
        0
    }
}

/// Greatest useful horizontal offsets of the two panes of `file` under
/// `layout`.
pub fn get_max_pane_offsets(file: &DiffFileView, layout: &FrameLayout) -> (r: PaneOffsets)
    ensures
        r.left == spec_max_pane_offset(
            file.left_max_content_length as int,
            layout.left_content_width as int,
        ),
        r.right == spec_max_pane_offset(
            file.right_max_content_length as int,
            layout.right_content_width as int,
        ),
{
    PaneOffsets {
        left: get_max_pane_offset(file.left_max_content_length, layout.left_content_width),
        right: get_max_pane_offset(file.right_max_content_length, layout.right_content_width),
    }
}

/// Which pane, if any, a terminal column falls into; used for mouse
/// hit-testing.
pub fn get_pane_for_column(column: usize, layout: &FrameLayout) -> (r: Option<PaneSide>)
    ensures
        r == (if layout.left_pane_start_column <= column <= layout.left_pane_end_column {
            Some(PaneSide::Left)
        } else if layout.right_pane_start_column <= column <= layout.right_pane_end_column {
            Some(PaneSide::Right)
        } else {
            Option::<PaneSide>::None
        }),
{
    if column >= layout.left_pane_start_column && column <= layout.left_pane_end_column {
        return Some(PaneSide::Left);
    }
    if column >= layout.right_pane_start_column && column <= layout.right_pane_end_column {
        return Some(PaneSide::Right);
    }
    None
}


/// The character for one decimal digit.
pub open spec fn spec_digit_char(d: int) -> char {
    if d == 0 {
        '0'
    } else if d == 1 {
        '1'
    } else if d == 2 {
        '2'
    } else if d == 3 {
        '3'
    } else if d == 4 {
        '4'
    } else if d == 5 {
        '5'
    } else if d == 6 {
        '6'
    } else if d == 7 {
        '7'
    } else if d == 8 {
        '8'
    } else {
        '9'
    }
}

/// The decimal digits of `n`, most significant first.
pub open spec fn spec_dec_digits(n: nat) -> Seq<char>
    decreases n,
{
    if n < 10 {
        seq![spec_digit_char(n as int)]
    } else {
        spec_dec_digits(n / 10).push(spec_digit_char((n % 10) as int))
    }
}

/// One decimal digit as text.
fn digit_str(d: usize) -> (r: &'static str)
    requires
        d < 10,
    ensures
        r@ == seq![spec_digit_char(d as int)],
{
    if d == 0 {
        proof {
            reveal_strlit("0");
        }
        "0"
    } else if d == 1 {
        proof {
            reveal_strlit("1");
        }
        "1"
    } else if d == 2 {
        proof {
            reveal_strlit("2");
        }
        "2"
    } else if d == 3 {
        proof {
            reveal_strlit("3");
        }
        "3"
    } else if d == 4 {
        proof {
            reveal_strlit("4");
        }
        "4"
    } else if d == 5 {
        proof {
            reveal_strlit("5");
        }
        "5"
    } else if d == 6 {
        proof {
            reveal_strlit("6");
        }
        "6"
    } else if d == 7 {
        proof {
            reveal_strlit("7");
        }
        "7"
    } else if d == 8 {
        proof {
            reveal_strlit("8");
        }
        "8"
    } else {
        proof {
            reveal_strlit("9");
        }
        "9"
    }
}

/// `n` in decimal.
pub fn dec_string(n: usize) -> (r: String)
    ensures
        r@ == spec_dec_digits(n as nat),
    decreases n,
{
    if n < 10 {
        let r = digit_str(n).to_owned();
        r
    } else {
        let mut r = dec_string(n / 10);
        r.append(digit_str(n % 10));
        assert(r@ =~= spec_dec_digits(n as nat));
        r
    }
}

/// Padding on the left: short values get leading spaces, long ones are
/// kept whole.
pub open spec fn spec_pad_left(s: Seq<char>, width: int) -> Seq<char> {
    if s.len() >= width {
        s
    } else {
        Seq::new((width - s.len()) as nat, |i: int| ' ') + s
    }
}

/// Right-aligns `value` in a field of `width` characters.
pub fn pad_left_to_width(value: String, width: usize) -> (r: String)
    ensures
        r@ == spec_pad_left(value@, width as int),
{
    let len = value.as_str().unicode_len();
    if len >= width {
        return value;
    }
    let mut r = String::new();
    let mut i: usize = 0;
    while i < width - len
        invariant
            len < width,
            i <= width - len,
            r@ == Seq::new(i as nat, |k: int| ' '),
        decreases width - len - i,
    {
        r.append(" ");
        proof {
            reveal_strlit(" ");
            assert(r@ =~= Seq::new((i + 1) as nat, |k: int| ' '));
        }
        i += 1;
    }
    r.append(value.as_str());
    assert(r@ =~= spec_pad_left(value@, width as int));
    r
}

/// A run of `n` spaces.
pub fn spaces_string(n: usize) -> (r: String)
    ensures
        r@ == Seq::new(n as nat, |k: int| ' '),
{
    let mut r = String::new();
    let mut i: usize = 0;
    while i < n
        invariant
            i <= n,
            r@ == Seq::new(i as nat, |k: int| ' '),
        decreases n - i,
    {
        r.append(" ");
        proof {
            reveal_strlit(" ");
            assert(r@ =~= Seq::new((i + 1) as nat, |k: int| ' '));
        }
        i += 1;
    }
    r
}


/// The first eight characters of a commit id.
pub fn short_commit(commit: &str) -> (r: String)
    ensures
        r@ == crate::text::spec_take_chars(commit@, 8),
{
    let total = commit.unicode_len();
    let end = if total >= 8 {
        8
    } else {
        total
    };
    let r = commit.substring_char(0, end).to_owned();
    assert(r@ =~= crate::text::spec_take_chars(commit@, 8));
    r
}

/// Parses a terminal palette index from an environment field.
pub fn parse_terminal_palette_index(value: &str) -> (r: Option<usize>)
    ensures
        r == crate::diff::spec_parse_decimal(crate::text::spec_trim(value@)),
{
    let trimmed = crate::text::trim_spaces(value);
    crate::diff::parse_decimal_str(trimmed.as_str())
}

/// Index of the last palette separator, `;` or `:`.
pub open spec fn spec_rfind_sep(s: Seq<char>) -> Option<int>
    decreases s.len(),
{
    if s.len() == 0 {
        None
    } else if s.last() == ';' || s.last() == ':' {
        Some(s.len() - 1)
    } else {
        spec_rfind_sep(s.drop_last())
    }
}

/// The background field of a `COLORFGBG`-style value: whatever follows
/// the last separator, or the whole value.
pub open spec fn spec_bg_field(s: Seq<char>) -> Seq<char> {
    match spec_rfind_sep(s) {
        Some(i) => s.skip(i + 1),
        None => s,
    }
}

proof fn lemma_rfind_sep_bounds(s: Seq<char>)
    ensures
        (match spec_rfind_sep(s) {
            Some(i) => 0 <= i < s.len(),
            None => true,
        }),
    decreases s.len(),
{
    if s.len() > 0 && !(s.last() == ';' || s.last() == ':') {
        lemma_rfind_sep_bounds(s.drop_last());
    }
}

/// The background field of a palette report.
fn bg_field(value: &str) -> (r: String)
    ensures
        r@ == spec_bg_field(value@),
{
    proof {
        lemma_rfind_sep_bounds(value@);
    }
    let total = value.unicode_len();
    let mut i: usize = total;
    assert(value@.take(total as int) =~= value@);
    while i > 0
        invariant
            i <= total,
            total == value@.len(),
            spec_rfind_sep(value@) == spec_rfind_sep(value@.take(i as int)),
        decreases i,
    {
        assert(value@.take(i as int).last() == value@[i - 1]);
        let c = value.get_char(i - 1);
        if c == ';' || c == ':' {
            let r = value.substring_char(i, total).to_owned();
            assert(r@ =~= value@.skip(i as int));
            return r;
        }
        assert(value@.take(i as int).drop_last() =~= value@.take(i - 1));
        i -= 1;
    }
    assert(value@.take(0) =~= Seq::<char>::empty());
    value.to_owned()
}

/// Whether the session should use a dark colour scheme: the explicit
/// override wins, then a theme environment value of `dark` or `light`,
/// then a palette report whose background index is at most six; with no
/// signal, dark is assumed.
pub open spec fn spec_prefer_dark(
    mode_override: Option<crate::model::ThemeMode>,
    env_theme: Option<Seq<char>>,
    palette: Option<Seq<char>>,
) -> bool {
    if mode_override == Some(crate::model::ThemeMode::Dark) {
        true
    } else if mode_override == Some(crate::model::ThemeMode::Light) {
        false
    } else {
        let env_pick: Option<bool> = match env_theme {
            Some(v) => {
                let t = crate::syntax::spec_ascii_lower(crate::text::spec_trim(v));
                if t == "dark"@ {
                    Some(true)
                } else if t == "light"@ {
                    Some(false)
                } else {
                    None
                }
            },
            None => None,
        };
        match env_pick {
            Some(b) => b,
            None => match palette {
                Some(v) => match crate::diff::spec_parse_decimal(
                    crate::text::spec_trim(spec_bg_field(v)),
                ) {
                    Some(index) => index <= 6,
                    None => true,
                },
                None => true,
            },
        }
    }
}

/// Decides the colour scheme from the override and the environment's
/// theme and palette reports.
pub fn should_prefer_dark_theme(
    mode_override: Option<crate::model::ThemeMode>,
    env_theme: Option<&str>,
    palette: Option<&str>,
) -> (r: bool)
    ensures
        r == spec_prefer_dark(
            mode_override,
            (match env_theme {
                Some(v) => Some(v@),
                None => None,
            }),
            (match palette {
                Some(v) => Some(v@),
                None => None,
            }),
        ),
{
    match mode_override {
        Some(crate::model::ThemeMode::Dark) => {
            return true;
        },
        Some(crate::model::ThemeMode::Light) => {
            return false;
        },
        _ => {},
    }
    if let Some(value) = env_theme {
        let trimmed = crate::text::trim_spaces(value);
        let lowered = crate::syntax::ascii_lower(trimmed.as_str());
        if crate::syntax::str_eq_text(lowered.as_str(), "dark") {
            return true;
        }
        if crate::syntax::str_eq_text(lowered.as_str(), "light") {
            return false;
        }
    }
    if let Some(value) = palette {
        let field = bg_field(value);
        match parse_terminal_palette_index(field.as_str()) {
            Some(index) => {
                return index <= 6;
            },
            None => {},
        }
    }
    true
}

/// The text content of one rendered pane cell: either a lone fitted
/// piece when the pane is too narrow for content, or a line-number
/// prefix plus the visible slice of the line.
#[derive(Clone, Debug)]
pub enum PaneLine {
    Narrow { text: String, highlight: crate::model::LineHighlightKind },
    Full { prefix: String, content: String, highlight: crate::model::LineHighlightKind },
}

/// Mathematical image of a pane cell.
pub ghost struct PaneLineModel {
    pub full: bool,
    pub prefix: Seq<char>,
    pub content: Seq<char>,
    pub highlight: crate::model::LineHighlightKind,
}

impl PaneLine {
    pub open spec fn model(self) -> PaneLineModel {
        match self {
            PaneLine::Narrow { text, highlight } => PaneLineModel {
                full: false,
                prefix: text@,
                content: Seq::empty(),
                highlight,
            },
            PaneLine::Full { prefix, content, highlight } => PaneLineModel {
                full: true,
                prefix: prefix@,
                content: content@,
                highlight,
            },
        }
    }
}

/// What one pane cell shows: a right-aligned line number (blank past the
/// end of the file) and a space, then the horizontally scrolled, padded
/// slice of the normalised line; a pane too narrow for any content shows
/// the fitted prefix alone.
pub open spec fn spec_pane_line_model(
    value: Option<Seq<char>>,
    line_index: int,
    pane_width: int,
    line_number_width: int,
    highlight: crate::model::LineHighlightKind,
    horizontal_offset: int,
) -> PaneLineModel {
    let number_text = match value {
        Some(_) => spec_pad_left(spec_dec_digits((line_index + 1) as nat), line_number_width),
        None => Seq::new(line_number_width as nat, |k: int| ' '),
    };
    let prefix = number_text + seq![' '];
    if pane_width <= prefix.len() {
        PaneLineModel {
            full: false,
            prefix: crate::text::spec_pad(
                crate::text::spec_truncate(prefix, pane_width),
                pane_width,
            ),
            content: Seq::empty(),
            highlight,
        }
    } else {
        let content_width = pane_width - prefix.len();
        let content_text = match value {
            Some(v) => crate::text::spec_normalize(v),
            None => Seq::<char>::empty(),
        };
        let from = if horizontal_offset <= content_text.len() {
            horizontal_offset
        } else {
            content_text.len() as int
        };
        let to = if horizontal_offset + content_width <= content_text.len() {
            horizontal_offset + content_width
        } else {
            content_text.len() as int
        };
        let visible = content_text.subrange(from, to);
        PaneLineModel {
            full: true,
            prefix,
            content: crate::text::spec_pad(visible, content_width),
            highlight,
        }
    }
}

/// Renders the text of one pane cell.
pub fn format_pane_line(
    line_value: Option<&str>,
    line_index: usize,
    pane_width: usize,
    line_number_width: usize,
    line_highlight_kind: crate::model::LineHighlightKind,
    horizontal_offset: usize,
) -> (r: PaneLine)
    requires
        line_index < usize::MAX,
    ensures
        r.model() == spec_pane_line_model(
            (match line_value {
                Some(v) => Some(v@),
                None => None,
            }),
            line_index as int,
            pane_width as int,
            line_number_width as int,
            line_highlight_kind,
            horizontal_offset as int,
        ),
{
    let mut prefix = match line_value {
        Some(_) => pad_left_to_width(dec_string(line_index + 1), line_number_width),
        None => spaces_string(line_number_width),
    };
    prefix.append(" ");
    proof {
        reveal_strlit(" ");
        assert(" "@ =~= seq![' ']);
    }
    let prefix_width = prefix.as_str().unicode_len();
    if pane_width <= prefix_width {
        let text = crate::text::fit_line(prefix.as_str(), pane_width);
        return PaneLine::Narrow { text, highlight: line_highlight_kind };
    }
    let content_width = pane_width - prefix_width;
    let content_text = match line_value {
        Some(v) => crate::text::normalize_content(v),
        None => String::new(),
    };
    let visible_content = crate::text::slice_chars(
        content_text.as_str(),
        horizontal_offset,
        content_width,
    );
    let padded = crate::text::pad_to_width(visible_content, content_width);
    PaneLine::Full { prefix, content: padded, highlight: line_highlight_kind }
}


/// `parts` joined by `sep`.
pub open spec fn spec_join_with(parts: Seq<Seq<char>>, sep: Seq<char>) -> Seq<char>
    decreases parts.len(),
{
    if parts.len() == 0 {
        Seq::empty()
    } else if parts.len() == 1 {
        parts[0]
    } else {
        spec_join_with(parts.drop_last(), sep) + sep + parts.last()
    }
}

/// Joins owned parts with a separator.
pub fn join_with(parts: &Vec<String>, sep: &str) -> (r: String)
    ensures
        r@ == spec_join_with(parts@.map_values(|p: String| p@), sep@),
{
    let ghost part_views = parts@.map_values(|p: String| p@);
    let mut r = String::new();
    let mut i: usize = 0;
    assert(r@ =~= spec_join_with(part_views.take(0), sep@));
    while i < parts.len()
        invariant
            i <= parts@.len(),
            part_views == parts@.map_values(|p: String| p@),
            r@ == spec_join_with(part_views.take(i as int), sep@),
        decreases parts@.len() - i,
    {
        if i > 0 {
            r.append(sep);
        }
        r.append(parts[i].as_str());
        proof {
            let taken = part_views.take(i + 1);
            assert(taken.drop_last() =~= part_views.take(i as int));
            assert(taken.last() == part_views[i as int]);
            if i == 0 {
                assert(r@ =~= spec_join_with(taken, sep@));
            } else {
                assert(r@ =~= spec_join_with(taken, sep@));
            }
        }
        i += 1;
    }
    assert(part_views.take(parts@.len() as int) =~= part_views);
    r
}

/// The header's left/right summary: references with their abbreviated
/// commits, the right side naming the working tree when uncommitted
/// changes are included.
pub open spec fn spec_side_summary(c: crate::model::ResolvedComparison) -> Seq<char> {
    if c.includes_uncommitted {
        "left: "@ + c.base_ref@ + " ("@ + crate::text::spec_take_chars(c.base_commit@, 8) + ")  right: working tree ("@
            + c.head_ref@ + " + local changes)"@
    } else {
        "left: "@ + c.base_ref@ + " ("@ + crate::text::spec_take_chars(c.base_commit@, 8) + ")  right: "@
            + c.head_ref@ + " ("@ + crate::text::spec_take_chars(c.head_commit@, 8) + ")"@
    }
}

/// The title line: the strategy and the comparison summary.
pub open spec fn spec_title_line(c: crate::model::ResolvedComparison) -> Seq<char> {
    "deff review ("@ + crate::model::spec_strategy_label(c.strategy_id) + ")  "@ + c.summary@
}

/// The per-file metadata line: position, status, review state, the
/// reviewed tally and the side summary.
pub open spec fn spec_file_meta_line(
    c: crate::model::ResolvedComparison,
    status: Seq<char>,
    file_index: int,
    file_count: int,
    current_file_reviewed: bool,
    reviewed_count: int,
) -> Seq<char> {
    "file "@ + spec_dec_digits((file_index + 1) as nat) + "/"@ + spec_dec_digits(file_count as nat)
        + " ["@ + status + "] ["@ + (if current_file_reviewed {
        "reviewed"@
    } else {
        "unreviewed"@
    }) + "] reviewed: "@ + spec_dec_digits(reviewed_count as nat) + "/"@ + spec_dec_digits(
        file_count as nat,
    ) + "  "@ + spec_side_summary(c)
}

/// The footer's position line: visible line range, vertical and
/// horizontal offsets against their maxima, and the search status.
pub open spec fn spec_footer_status_line(
    first_visible: int,
    last_visible: int,
    max_lines: int,
    clamped_scroll: int,
    max_scroll: int,
    left_offset: int,
    max_left: int,
    right_offset: int,
    max_right: int,
    search_status: Seq<char>,
) -> Seq<char> {
    "lines "@ + spec_dec_digits(first_visible as nat) + "-"@ + spec_dec_digits(last_visible as nat)
        + "/"@ + spec_dec_digits(max_lines as nat) + "  v "@ + spec_dec_digits(
        clamped_scroll as nat,
    ) + "/"@ + spec_dec_digits(max_scroll as nat) + "  xL "@ + spec_dec_digits(left_offset as nat)
        + "/"@ + spec_dec_digits(max_left as nat) + "  xR "@ + spec_dec_digits(right_offset as nat)
        + "/"@ + spec_dec_digits(max_right as nat) + "  "@ + search_status
}

/// The key-binding help line.
pub open spec fn spec_help_line() -> Seq<char> {
    "h/l: file  j/k: scroll  ctrl-u/d: page  g/G: top/bottom  /: search  n/N: next/prev match  r: reviewed  q: quit"@
}

/// One rendered body row: the two pane cells; the separator between
/// them is the constant ` | `.
#[derive(Clone, Debug)]
pub struct BodyRow {
    pub left: PaneLine,
    pub right: PaneLine,
}

/// The plain-text content of one frame, ready for styling: four header
/// lines, a divider used above and below the body, the body rows, the
/// help line and the status line, together with the authoritative
/// clamped offsets the caller writes back into its state.
#[derive(Clone, Debug)]
pub struct RenderFrameOutput {
    pub header_lines: Vec<String>,
    pub divider: String,
    pub body_rows: Vec<BodyRow>,
    pub footer_help: String,
    pub footer_status: String,
    pub max_scroll: usize,
    pub clamped_scroll_offset: usize,
    pub clamped_pane_offsets: PaneOffsets,
}

/// Assembles the text of one frame from the active file, the comparison
/// and the current offsets. Every line is fitted to the terminal width;
/// the scroll and pane offsets are authoritatively clamped against the
/// freshly computed layout and handed back.
#[verifier::rlimit(100)]
pub fn render_frame(
    files: &Vec<DiffFileView>,
    comparison: &crate::model::ResolvedComparison,
    file_index: usize,
    scroll_offset: usize,
    pane_offsets: PaneOffsets,
    reviewed_count: usize,
    current_file_reviewed: bool,
    search_status_text: String,
    columns: u16,
    rows: u16,
) -> (r: RenderFrameOutput)
    requires
        file_index < files@.len(),
    ensures
        ({
            let file = files@[file_index as int];
            let layout_columns = columns as int;
            let max_lines = file.max_line_count() as int;
            let body = spec_body_line_count(rows as int);
            let line_number_width = spec_line_number_width(file.max_line_count());
            let left_width = spec_left_pane_width(layout_columns);
            let right_width = spec_right_pane_width(layout_columns);
            let max_left = spec_max_pane_offset(
                file.left_max_content_length as int,
                spec_content_width(left_width, line_number_width),
            );
            let max_right = spec_max_pane_offset(
                file.right_max_content_length as int,
                spec_content_width(right_width, line_number_width),
            );
            &&& r.max_scroll == (if max_lines >= body {
                max_lines - body
            } else {
                0
            })
            &&& r.clamped_scroll_offset == (if scroll_offset <= r.max_scroll {
                scroll_offset as int
            } else {
                r.max_scroll as int
            })
            &&& r.clamped_pane_offsets.left == (if pane_offsets.left <= max_left {
                pane_offsets.left as int
            } else {
                max_left
            })
            &&& r.clamped_pane_offsets.right == (if pane_offsets.right <= max_right {
                pane_offsets.right as int
            } else {
                max_right
            })
            &&& r.body_rows@.len() == body
            &&& (forall|row: int|
                0 <= row < body ==> {
                    let line_number = r.clamped_scroll_offset + row;
                    (#[trigger] r.body_rows@[row]).left.model() == spec_pane_line_model(
                        (if line_number < file.left_lines@.len() {
                            Some(file.left_lines@[line_number]@)
                        } else {
                            None
                        }),
                        line_number,
                        left_width,
                        line_number_width,
                        (if file.left_deleted_line_indexes@.contains(line_number as usize) {
                            crate::model::LineHighlightKind::Deleted
                        } else {
                            crate::model::LineHighlightKind::Unchanged
                        }),
                        r.clamped_pane_offsets.left as int,
                    ) && r.body_rows@[row].right.model() == spec_pane_line_model(
                        (if line_number < file.right_lines@.len() {
                            Some(file.right_lines@[line_number]@)
                        } else {
                            None
                        }),
                        line_number,
                        right_width,
                        line_number_width,
                        (if file.right_added_line_indexes@.contains(line_number as usize) {
                            crate::model::LineHighlightKind::Added
                        } else {
                            crate::model::LineHighlightKind::Unchanged
                        }),
                        r.clamped_pane_offsets.right as int,
                    )
                })
            &&& r.header_lines@.len() == 4
            &&& r.header_lines@[0]@ == crate::text::spec_pad(
                crate::text::spec_truncate(spec_title_line(*comparison), layout_columns),
                layout_columns,
            )
            &&& r.header_lines@[1]@ == crate::text::spec_pad(
                crate::text::spec_truncate(
                    "filename: "@ + file.descriptor.display_path@,
                    layout_columns,
                ),
                layout_columns,
            )
            &&& r.header_lines@[2]@ == crate::text::spec_pad(
                crate::text::spec_truncate(
                    spec_file_meta_line(
                        *comparison,
                        file.descriptor.raw_status@,
                        file_index as int,
                        files@.len() as int,
                        current_file_reviewed,
                        reviewed_count as int,
                    ),
                    layout_columns,
                ),
                layout_columns,
            )
            &&& r.header_lines@[3]@ == crate::text::spec_pad(
                crate::text::spec_truncate(
                    spec_join_with(
                        comparison.details@.map_values(|d: String| d@),
                        " | "@,
                    ),
                    layout_columns,
                ),
                layout_columns,
            )
            &&& r.divider@ == crate::text::spec_pad(
                crate::text::spec_truncate(
                    Seq::new(
                        (if layout_columns >= 1 {
                            layout_columns
                        } else {
                            1
                        }) as nat,
                        |k: int| '-',
                    ),
                    layout_columns,
                ),
                layout_columns,
            )
            &&& r.footer_help@ == crate::text::spec_pad(
                crate::text::spec_truncate(spec_help_line(), layout_columns),
                layout_columns,
            )
            &&& r.footer_status@ == crate::text::spec_pad(
                crate::text::spec_truncate(
                    spec_footer_status_line(
                        (if max_lines == 0 {
                            0
                        } else {
                            r.clamped_scroll_offset + 1
                        }),
                        (if max_lines == 0 {
                            0
                        } else if max_lines <= r.clamped_scroll_offset + body {
                            max_lines
                        } else {
                            r.clamped_scroll_offset + body
                        }),
                        max_lines,
                        r.clamped_scroll_offset as int,
                        r.max_scroll as int,
                        r.clamped_pane_offsets.left as int,
                        max_left,
                        r.clamped_pane_offsets.right as int,
                        max_right,
                        search_status_text@,
                    ),
                    layout_columns,
                ),
                layout_columns,
            )
        }),
{
    proof {
        reveal_strlit("deff review (");
        reveal_strlit(")  ");
        reveal_strlit("filename: ");
        reveal_strlit("file ");
        reveal_strlit("/");
        reveal_strlit(" [");
        reveal_strlit("] [");
        reveal_strlit("reviewed");
        reveal_strlit("unreviewed");
        reveal_strlit("] reviewed: ");
        reveal_strlit("  ");
        reveal_strlit("left: ");
        reveal_strlit(" (");
        reveal_strlit(")  right: working tree (");
        reveal_strlit(" + local changes)");
        reveal_strlit(")  right: ");
        reveal_strlit(")");
        reveal_strlit("lines ");
        reveal_strlit("-");
        reveal_strlit("  v ");
        reveal_strlit("  xL ");
        reveal_strlit("  xR ");
        reveal_strlit("-");
    }
    let file_count = files.len();
    let current_file = &files[file_index];
    let left_count = current_file.left_lines.len();
    let right_count = current_file.right_lines.len();
    let max_lines = if left_count >= right_count {
        left_count
    } else {
        right_count
    };
    let layout = create_frame_layout(columns, rows, max_lines);
    let max_scroll = if max_lines >= layout.body_line_count {
        max_lines - layout.body_line_count
    } else {
        0
    };
    let clamped_scroll_offset = if scroll_offset <= max_scroll {
        scroll_offset
    } else {
        max_scroll
    };
    let max_pane_offsets = get_max_pane_offsets(current_file, &layout);
    let clamped_pane_offsets = PaneOffsets {
        left: if pane_offsets.left <= max_pane_offsets.left {
            pane_offsets.left
        } else {
            max_pane_offsets.left
        },
        right: if pane_offsets.right <= max_pane_offsets.right {
            pane_offsets.right
        } else {
            max_pane_offsets.right
        },
    };

    let mut body_rows: Vec<BodyRow> = Vec::new();
    let mut row: usize = 0;
    while row < layout.body_line_count
        invariant
            row <= layout.body_line_count,
            layout.body_line_count == spec_body_line_count(rows as int),
            layout.left_pane_width == spec_left_pane_width(columns as int),
            layout.right_pane_width == spec_right_pane_width(columns as int),
            layout.line_number_width == spec_line_number_width(
                files@[file_index as int].max_line_count(),
            ),
            file_index < files@.len(),
            current_file == files@[file_index as int],
            max_lines == files@[file_index as int].max_line_count(),
            max_scroll == (if max_lines >= layout.body_line_count {
                max_lines - layout.body_line_count
            } else {
                0int
            }),
            clamped_scroll_offset <= max_scroll,
            body_rows@.len() == row,
            forall|k: int|
                0 <= k < row ==> {
                    let line_number = clamped_scroll_offset + k;
                    (#[trigger] body_rows@[k]).left.model() == spec_pane_line_model(
                        (if line_number < files@[file_index as int].left_lines@.len() {
                            Some(files@[file_index as int].left_lines@[line_number]@)
                        } else {
                            None
                        }),
                        line_number,
                        layout.left_pane_width as int,
                        layout.line_number_width as int,
                        (if files@[file_index as int].left_deleted_line_indexes@.contains(
                            line_number as usize,
                        ) {
                            crate::model::LineHighlightKind::Deleted
                        } else {
                            crate::model::LineHighlightKind::Unchanged
                        }),
                        clamped_pane_offsets.left as int,
                    ) && body_rows@[k].right.model() == spec_pane_line_model(
                        (if line_number < files@[file_index as int].right_lines@.len() {
                            Some(files@[file_index as int].right_lines@[line_number]@)
                        } else {
                            None
                        }),
                        line_number,
                        layout.right_pane_width as int,
                        layout.line_number_width as int,
                        (if files@[file_index as int].right_added_line_indexes@.contains(
                            line_number as usize,
                        ) {
                            crate::model::LineHighlightKind::Added
                        } else {
                            crate::model::LineHighlightKind::Unchanged
                        }),
                        clamped_pane_offsets.right as int,
                    )
                },
        decreases layout.body_line_count - row,
    {
        assert(clamped_scroll_offset + row < usize::MAX) by {
            if max_lines >= layout.body_line_count {
                assert(clamped_scroll_offset + row < max_lines);
            } else {
                assert(clamped_scroll_offset == 0);
                assert(row < layout.body_line_count);
                assert(layout.body_line_count <= rows as int + 3);
            }
        }
        let line_number = clamped_scroll_offset + row;
        let left_value: Option<&str> = if line_number < current_file.left_lines.len() {
            Some(current_file.left_lines[line_number].as_str())
        } else {
            None
        };
        let right_value: Option<&str> = if line_number < current_file.right_lines.len() {
            Some(current_file.right_lines[line_number].as_str())
        } else {
            None
        };
        let left_highlight = if crate::model::sorted_contains(
            &current_file.left_deleted_line_indexes,
            line_number,
        ) {
            crate::model::LineHighlightKind::Deleted
        } else {
            crate::model::LineHighlightKind::Unchanged
        };
        let right_highlight = if crate::model::sorted_contains(
            &current_file.right_added_line_indexes,
            line_number,
        ) {
            crate::model::LineHighlightKind::Added
        } else {
            crate::model::LineHighlightKind::Unchanged
        };
        let left_rendered = format_pane_line(
            left_value,
            line_number,
            layout.left_pane_width,
            layout.line_number_width,
            left_highlight,
            clamped_pane_offsets.left,
        );
        let right_rendered = format_pane_line(
            right_value,
            line_number,
            layout.right_pane_width,
            layout.line_number_width,
            right_highlight,
            clamped_pane_offsets.right,
        );
        body_rows.push(BodyRow { left: left_rendered, right: right_rendered });
        row += 1;
    }

    let first_visible_line = if max_lines == 0 {
        0
    } else {
        clamped_scroll_offset + 1
    };
    let last_visible_line = if max_lines == 0 {
        0
    } else if max_lines <= clamped_scroll_offset + layout.body_line_count {
        max_lines
    } else {
        clamped_scroll_offset + layout.body_line_count
    };

    let mut title = String::new();
    title.append("deff review (");
    title.append(crate::model::strategy_label(comparison.strategy_id));
    title.append(")  ");
    title.append(comparison.summary.as_str());

    let mut filename_line = String::new();
    filename_line.append("filename: ");
    filename_line.append(current_file.descriptor.display_path.as_str());

    let mut side_summary = String::new();
    side_summary.append("left: ");
    side_summary.append(comparison.base_ref.as_str());
    side_summary.append(" (");
    let base_short = short_commit(comparison.base_commit.as_str());
    side_summary.append(base_short.as_str());
    if comparison.includes_uncommitted {
        side_summary.append(")  right: working tree (");
        side_summary.append(comparison.head_ref.as_str());
        side_summary.append(" + local changes)");
    } else {
        side_summary.append(")  right: ");
        side_summary.append(comparison.head_ref.as_str());
        side_summary.append(" (");
        let head_short = short_commit(comparison.head_commit.as_str());
        side_summary.append(head_short.as_str());
        side_summary.append(")");
    }
    assert(side_summary@ =~= spec_side_summary(*comparison));

    let mut file_meta_line = String::new();
    file_meta_line.append("file ");
    assert(file_index < file_count);
    let position_text = dec_string(file_index + 1);
    file_meta_line.append(position_text.as_str());
    file_meta_line.append("/");
    let count_text = dec_string(file_count);
    file_meta_line.append(count_text.as_str());
    file_meta_line.append(" [");
    file_meta_line.append(current_file.descriptor.raw_status.as_str());
    file_meta_line.append("] [");
    if current_file_reviewed {
        file_meta_line.append("reviewed");
    } else {
        file_meta_line.append("unreviewed");
    }
    file_meta_line.append("] reviewed: ");
    let reviewed_text = dec_string(reviewed_count);
    file_meta_line.append(reviewed_text.as_str());
    file_meta_line.append("/");
    file_meta_line.append(count_text.as_str());
    file_meta_line.append("  ");
    file_meta_line.append(side_summary.as_str());
    assert(file_meta_line@ =~= spec_file_meta_line(
        *comparison,
        files@[file_index as int].descriptor.raw_status@,
        file_index as int,
        files@.len() as int,
        current_file_reviewed,
        reviewed_count as int,
    ));

    let details_line = join_with(&comparison.details, " | ");

    let mut header_lines: Vec<String> = Vec::new();
    header_lines.push(crate::text::fit_line(title.as_str(), layout.columns));
    header_lines.push(crate::text::fit_line(filename_line.as_str(), layout.columns));
    header_lines.push(crate::text::fit_line(file_meta_line.as_str(), layout.columns));
    header_lines.push(crate::text::fit_line(details_line.as_str(), layout.columns));
    assert(title@ =~= spec_title_line(*comparison));
    assert(filename_line@ =~= "filename: "@
        + files@[file_index as int].descriptor.display_path@);

    let dash_count = if layout.columns >= 1 {
        layout.columns
    } else {
        1
    };
    let mut dashes = String::new();
    let mut d: usize = 0;
    while d < dash_count
        invariant
            d <= dash_count,
            dashes@ == Seq::new(d as nat, |k: int| '-'),
        decreases dash_count - d,
    {
        dashes.append("-");
        proof {
            reveal_strlit("-");
            assert(dashes@ =~= Seq::new((d + 1) as nat, |k: int| '-'));
        }
        d += 1;
    }
    let divider = crate::text::fit_line(dashes.as_str(), layout.columns);

    let footer_help = crate::text::fit_line(
        "h/l: file  j/k: scroll  ctrl-u/d: page  g/G: top/bottom  /: search  n/N: next/prev match  r: reviewed  q: quit",
        layout.columns,
    );
    proof {
        reveal_strlit(
            "h/l: file  j/k: scroll  ctrl-u/d: page  g/G: top/bottom  /: search  n/N: next/prev match  r: reviewed  q: quit",
        );
    }

    let mut status_line = String::new();
    status_line.append("lines ");
    let first_text = dec_string(first_visible_line);
    status_line.append(first_text.as_str());
    status_line.append("-");
    let last_text = dec_string(last_visible_line);
    status_line.append(last_text.as_str());
    status_line.append("/");
    let max_lines_text = dec_string(max_lines);
    status_line.append(max_lines_text.as_str());
    status_line.append("  v ");
    let scroll_text = dec_string(clamped_scroll_offset);
    status_line.append(scroll_text.as_str());
    status_line.append("/");
    let max_scroll_text = dec_string(max_scroll);
    status_line.append(max_scroll_text.as_str());
    status_line.append("  xL ");
    let left_text = dec_string(clamped_pane_offsets.left);
    status_line.append(left_text.as_str());
    status_line.append("/");
    let max_left_text = dec_string(max_pane_offsets.left);
    status_line.append(max_left_text.as_str());
    status_line.append("  xR ");
    let right_text = dec_string(clamped_pane_offsets.right);
    status_line.append(right_text.as_str());
    status_line.append("/");
    let max_right_text = dec_string(max_pane_offsets.right);
    status_line.append(max_right_text.as_str());
    status_line.append("  ");
    status_line.append(search_status_text.as_str());
    let footer_status = crate::text::fit_line(status_line.as_str(), layout.columns);

    RenderFrameOutput {
        header_lines,
        divider,
        body_rows,
        footer_help,
        footer_status,
        max_scroll,
        clamped_scroll_offset,
        clamped_pane_offsets,
    }
}

} // verus!
