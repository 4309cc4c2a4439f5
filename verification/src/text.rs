//! Character-level text helpers: counting, slicing, truncation with an
//! ellipsis, padding to a fixed display width, and tab/carriage-return
//! normalisation.

use vstd::prelude::*;
use vstd::string::*;

verus! {

/// The first `min(width, s.len())` characters of `s`.
pub open spec fn spec_take_chars(s: Seq<char>, width: int) -> Seq<char> {
    if s.len() <= width {
        s
    } else {
        s.subrange(0, width)
    }
}

/// Truncation rule: values that fit are kept; otherwise the value is cut,
/// and when at least four columns are available the last three are an
/// ellipsis.
pub open spec fn spec_truncate(s: Seq<char>, width: int) -> Seq<char> {
    if width <= 0 {
        Seq::empty()
    } else if s.len() <= width {
        s
    } else if width <= 3 {
        spec_take_chars(s, width)
    } else {
        spec_take_chars(s, width - 3) + "..."@
    }
}

/// Padding rule: long values are cut to `width`, short ones get trailing
/// spaces.
pub open spec fn spec_pad(s: Seq<char>, width: int) -> Seq<char> {
    if s.len() >= width {
        spec_take_chars(s, width)
    } else {
        s + Seq::new((width - s.len()) as nat, |i: int| ' ')
    }
}

/// Tabs become two spaces, carriage returns vanish, all else is kept.
pub open spec fn spec_normalize(s: Seq<char>) -> Seq<char>
    decreases s.len(),
{
    if s.len() == 0 {
        Seq::empty()
    } else {
        spec_normalize(s.drop_last()) + (if s.last() == '\t' {
            seq![' ', ' ']
        } else if s.last() == '\r' {
            Seq::<char>::empty()
        } else {
            seq![s.last()]
        })
    }
}

/// The largest normalised character count over a sequence of lines.
pub open spec fn spec_max_normalized_len(lines: Seq<String>) -> nat
    decreases lines.len(),
{
    if lines.len() == 0 {
        0
    } else {
        let rest = spec_max_normalized_len(lines.drop_last());
        let last = spec_normalize(lines.last()@).len();
        if last >= rest {
            last
        } else {
            rest
        }
    }
}

/// Number of characters in `value` (not bytes).
pub fn normalized_char_count(value: &str) -> (r: usize)
    ensures
        r == value@.len(),
{
    value.unicode_len()
}

/// The characters of `value` from `start`, at most `len` of them; both
/// bounds are clipped to the end of the string.
pub fn slice_chars(value: &str, start: usize, len: usize) -> (r: String)
    ensures
        r@ == value@.subrange(
            if start <= value@.len() { start as int } else { value@.len() as int },
            if start + len <= value@.len() { start + len } else { value@.len() as int },
        ),
{
    let total = value.unicode_len();
    let a = if start <= total { start } else { total };
    let b = if total - a >= len { a + len } else { total };
    let piece = value.substring_char(a, b);
    piece.to_owned()
}

/// Cuts `value` to at most `width` characters, replacing the tail by
/// `...` when the value is longer and at least four columns are available.
pub fn truncate_to_width(value: &str, width: usize) -> (r: String)
    ensures
        r@ == spec_truncate(value@, width as int),
{
    if width == 0 {
        return String::new();
    }
    let total = value.unicode_len();
    if total <= width {
        return value.to_owned();
    }
    if width <= 3 {
        return value.substring_char(0, width).to_owned();
    }
    let mut truncated = value.substring_char(0, width - 3).to_owned();
    truncated.append("...");
    assert(spec_take_chars(value@, width - 3) == value@.subrange(0, width - 3));
    truncated
}

/// Brings `value` to exactly `width` characters: long values are cut,
/// short ones get trailing spaces.
pub fn pad_to_width(value: String, width: usize) -> (r: String)
    ensures
        r@ == spec_pad(value@, width as int),
        r@.len() == width,
{
    let len = value.as_str().unicode_len();
    if len >= width {
        let r = value.as_str().substring_char(0, width).to_owned();
        assert(r@ =~= spec_pad(value@, width as int));
        r
    } else {
        let mut r = value;
        let ghost orig = r@;
        let mut i: usize = len;
        while i < width
            invariant
                len <= i <= width,
                r@ == orig + Seq::new((i - len) as nat, |k: int| ' '),
            decreases width - i,
        {
            r.append(" ");
            proof {
                reveal_strlit(" ");
                assert(r@ =~= orig + Seq::new((i + 1 - len) as nat, |k: int| ' '));
            }
            i += 1;
        }
        assert(r@ =~= spec_pad(orig, width as int));
        r
    }
}

/// Truncates then pads, yielding exactly `width` characters.
pub fn fit_line(value: &str, width: usize) -> (r: String)
    ensures
        r@ == spec_pad(spec_truncate(value@, width as int), width as int),
        r@.len() == width,
{
    let truncated = truncate_to_width(value, width);
    pad_to_width(truncated, width)
}

proof fn lemma_normalize_snoc(s: Seq<char>, c: char)
    ensures
        spec_normalize(s.push(c)) == spec_normalize(s) + (if c == '\t' {
            seq![' ', ' ']
        } else if c == '\r' {
            Seq::<char>::empty()
        } else {
            seq![c]
        }),
{
    assert(s.push(c).drop_last() =~= s);
    assert(s.push(c).last() == c);
}

/// Expands each tab to two spaces and removes carriage returns.
pub fn normalize_content(value: &str) -> (r: String)
    ensures
        r@ == spec_normalize(value@),
{
    let total = value.unicode_len();
    let mut r = String::new();
    let mut i: usize = 0;
    while i < total
        invariant
            i <= total,
            total == value@.len(),
            r@ == spec_normalize(value@.take(i as int)),
        decreases total - i,
    {
        let c = value.get_char(i);
        if c == '\t' {
            r.append("  ");
            proof {
                reveal_strlit("  ");
            }
        } else if c == '\r' {
        } else {
            let piece = value.substring_char(i, i + 1);
            r.append(piece);
            assert(piece@ =~= seq![c]);
        }
        proof {
            lemma_normalize_snoc(value@.take(i as int), c);
            assert(value@.take(i + 1) =~= value@.take(i as int).push(c));
            if c == '\t' {
                assert(r@ =~= spec_normalize(value@.take(i + 1)));
            } else if c == '\r' {
                assert(r@ =~= spec_normalize(value@.take(i + 1)));
            } else {
                assert(r@ =~= spec_normalize(value@.take(i + 1)));
            }
        }
        i += 1;
    }
    assert(value@.take(total as int) =~= value@);
    r
}

/// The widest line after normalisation, in characters; zero for no lines.
pub fn get_max_normalized_line_length(lines: &Vec<String>) -> (r: usize)
    ensures
        r == spec_max_normalized_len(lines@),
{
    let mut best: usize = 0;
    let mut i: usize = 0;
    while i < lines.len()
        invariant
            i <= lines@.len(),
            best == spec_max_normalized_len(lines@.take(i as int)),
        decreases lines@.len() - i,
    {
        let normalized = normalize_content(lines[i].as_str());
        let len = normalized.as_str().unicode_len();
        if len > best {
            best = len;
        }
        assert(lines@.take(i + 1).drop_last() =~= lines@.take(i as int));
        assert(lines@.take(i + 1).last() == lines@[i as int]);
        i += 1;
    }
    assert(lines@.take(lines@.len() as int) =~= lines@);
    best
}


/// Index of the first occurrence of `c`.
pub open spec fn spec_find_char(s: Seq<char>, c: char) -> Option<int>
    decreases s.len(),
{
    if s.len() == 0 {
        None
    } else if s[0] == c {
        Some(0)
    } else {
        match spec_find_char(s.drop_first(), c) {
            Some(i) => Some(i + 1),
            None => None,
        }
    }
}

/// First occurrence of `c` in `value` at or after `from`.
pub fn find_char_from(value: &str, from: usize, c: char) -> (r: Option<usize>)
    requires
        from <= value@.len(),
    ensures
        r == (match spec_find_char(value@.skip(from as int), c) {
            Some(i) => Some((from + i) as usize),
            None => None::<usize>,
        }),
        (match r {
            Some(i) => from <= i < value@.len(),
            None => true,
        }),
{
    let total = value.unicode_len();
    let mut i: usize = from;
    while i < total
        invariant
            from <= i <= total,
            total == value@.len(),
            spec_find_char(value@.skip(from as int), c) == (match spec_find_char(
                value@.skip(i as int),
                c,
            ) {
                Some(k) => Some(k + i - from),
                None => None::<int>,
            }),
        decreases total - i,
    {
        assert(value@.skip(i as int)[0] == value@[i as int]);
        if value.get_char(i) == c {
            return Some(i);
        }
        assert(value@.skip(i as int).drop_first() =~= value@.skip(i + 1));
        i += 1;
    }
    assert(value@.skip(total as int) =~= Seq::<char>::empty());
    None
}

/// Where `c` first occurs, it occurs there and nowhere earlier.
pub proof fn lemma_find_char_bounds(s: Seq<char>, c: char)
    ensures
        (match spec_find_char(s, c) {
            Some(i) => 0 <= i < s.len() && s[i] == c && (forall|k: int|
                0 <= k < i ==> #[trigger] s[k] != c),
            None => forall|k: int| 0 <= k < s.len() ==> #[trigger] s[k] != c,
        }),
    decreases s.len(),
{
    if s.len() > 0 && s[0] != c {
        lemma_find_char_bounds(s.drop_first(), c);
        assert forall|k: int| #![trigger s[k]] 0 <= k < s.len() implies (match spec_find_char(s, c) {
            Some(i) => k < i ==> s[k] != c,
            None => s[k] != c,
        }) by {
            if k > 0 {
                assert(s.drop_first()[k - 1] == s[k]);
            }
        }
    }
}

/// The lines of `s`: split at every newline, a carriage return before a
/// newline stripped, and no empty line after a final newline.
pub open spec fn spec_split_text_lines(s: Seq<char>) -> Seq<Seq<char>>
    decreases s.len(),
    via spec_split_text_lines_decreases
{
    if s.len() == 0 {
        Seq::empty()
    } else {
        match spec_find_char(s, '\n') {
            None => seq![s],
            Some(i) => {
                let head = if i > 0 && s[i - 1] == '\r' {
                    s.subrange(0, i - 1)
                } else {
                    s.subrange(0, i)
                };
                seq![head] + spec_split_text_lines(s.skip(i + 1))
            },
        }
    }
}

#[via_fn]
proof fn spec_split_text_lines_decreases(s: Seq<char>) {
    lemma_find_char_bounds(s, '\n');
}

/// Splits `value` into lines the way a line iterator does: at each
/// newline, stripping one carriage return before it, with no trailing
/// empty line.
pub fn split_text_lines(value: &str) -> (r: Vec<String>)
    ensures
        r@.map_values(|l: String| l@) == spec_split_text_lines(value@),
{
    let total = value.unicode_len();
    let mut r: Vec<String> = Vec::new();
    let mut p: usize = 0;
    assert(value@.skip(0) =~= value@);
    assert(r@.map_values(|l: String| l@) =~= Seq::<Seq<char>>::empty());
    while p < total
        invariant
            p <= total,
            total == value@.len(),
            spec_split_text_lines(value@) == r@.map_values(|l: String| l@)
                + spec_split_text_lines(value@.skip(p as int)),
        decreases total - p,
    {
        let found = find_char_from(value, p, '\n');
        let ghost before = r@;
        match found {
            None => {
                let piece = value.substring_char(p, total).to_owned();
                r.push(piece);
                proof {
                    assert(value@.skip(p as int).subrange(
                        0,
                        value@.skip(p as int).len() as int,
                    ) =~= value@.skip(p as int));
                    assert(value@.subrange(p as int, total as int) =~= value@.skip(p as int));
                    assert(r@.map_values(|l: String| l@) =~= before.map_values(|l: String| l@)
                        + seq![value@.skip(p as int)]);
                    assert(spec_split_text_lines(value@) =~= r@.map_values(|l: String| l@));
                }
                p = total;
            },
            Some(i) => {
                let end = if i > p && value.get_char(i - 1) == '\r' {
                    i - 1
                } else {
                    i
                };
                let piece = value.substring_char(p, end).to_owned();
                r.push(piece);
                proof {
                    let rest = value@.skip(p as int);
                    lemma_find_char_bounds(rest, '\n');
                    assert(spec_find_char(rest, '\n') == Some(i - p));
                    assert(rest[i - p] == value@[i as int]);
                    if i > p && value@[i - 1] == '\r' {
                        assert(rest.subrange(0, i - p - 1) =~= value@.subrange(
                            p as int,
                            i - 1,
                        ));
                    } else {
                        assert(rest.subrange(0, i - p) =~= value@.subrange(p as int, i as int));
                    }
                    assert(rest.skip(i - p + 1) =~= value@.skip(i + 1));
                    assert(r@.map_values(|l: String| l@) =~= before.map_values(|l: String| l@)
                        + seq![value@.subrange(p as int, end as int)]);
                    assert(spec_split_text_lines(value@) =~= r@.map_values(|l: String| l@)
                        + spec_split_text_lines(value@.skip(i + 1)));
                }
                p = i + 1;
            },
        }
    }
    assert(value@.skip(p as int) =~= Seq::<char>::empty());
    assert(spec_split_text_lines(value@.skip(p as int)) =~= Seq::<Seq<char>>::empty());
    assert(spec_split_text_lines(value@) =~= r@.map_values(|l: String| l@));
    r
}

/// The characters stripped from line ends by trimming: the Unicode
/// whitespace set.
pub open spec fn spec_is_space(c: char) -> bool {
    ||| c == '\t' || c == '\n' || c == '\u{b}' || c == '\u{c}' || c == '\r' || c == ' '
    ||| c == '\u{85}' || c == '\u{a0}' || c == '\u{1680}'
    ||| ('\u{2000}' <= c && c <= '\u{200a}')
    ||| c == '\u{2028}' || c == '\u{2029}' || c == '\u{202f}' || c == '\u{205f}'
    ||| c == '\u{3000}'
}

pub open spec fn spec_trim_start(s: Seq<char>) -> Seq<char>
    decreases s.len(),
{
    if s.len() > 0 && spec_is_space(s[0]) {
        spec_trim_start(s.drop_first())
    } else {
        s
    }
}

pub open spec fn spec_trim_end(s: Seq<char>) -> Seq<char>
    decreases s.len(),
{
    if s.len() > 0 && spec_is_space(s.last()) {
        spec_trim_end(s.drop_last())
    } else {
        s
    }
}

/// `s` without leading and trailing whitespace.
pub open spec fn spec_trim(s: Seq<char>) -> Seq<char> {
    spec_trim_end(spec_trim_start(s))
}

fn is_space(c: char) -> (r: bool)
    ensures
        r == spec_is_space(c),
{
    (c == '\t' || c == '\n' || c == '\u{b}' || c == '\u{c}' || c == '\r' || c == ' ')
        || (c == '\u{85}' || c == '\u{a0}' || c == '\u{1680}')
        || ('\u{2000}' <= c && c <= '\u{200a}')
        || (c == '\u{2028}' || c == '\u{2029}' || c == '\u{202f}' || c == '\u{205f}')
        || c == '\u{3000}'
}

/// Strips leading and trailing whitespace.
pub fn trim_spaces(value: &str) -> (r: String)
    ensures
        r@ == spec_trim(value@),
{
    let total = value.unicode_len();
    let mut a: usize = 0;
    assert(value@.skip(0) =~= value@);
    while a < total && is_space(value.get_char(a))
        invariant
            a <= total,
            total == value@.len(),
            spec_trim_start(value@) == spec_trim_start(value@.skip(a as int)),
        decreases total - a,
    {
        assert(value@.skip(a as int)[0] == value@[a as int]);
        assert(value@.skip(a as int).drop_first() =~= value@.skip(a + 1));
        a += 1;
    }
    proof {
        if a < total {
            assert(value@.skip(a as int)[0] == value@[a as int]);
        } else {
            assert(value@.skip(a as int) =~= Seq::<char>::empty());
        }
        assert(spec_trim_start(value@) == value@.skip(a as int));
    }
    let mut b: usize = total;
    assert(value@.skip(a as int).take(total - a) =~= value@.skip(a as int));
    while b > a && is_space(value.get_char(b - 1))
        invariant
            a <= b <= total,
            total == value@.len(),
            spec_trim_start(value@) == value@.skip(a as int),
            spec_trim_end(value@.skip(a as int)) == spec_trim_end(
                value@.skip(a as int).take(b - a),
            ),
        decreases b,
    {
        assert(value@.skip(a as int).take(b - a).last() == value@[b - 1]);
        assert(value@.skip(a as int).take(b - a).drop_last() =~= value@.skip(a as int).take(
            b - 1 - a,
        ));
        b -= 1;
    }
    proof {
        let rest = value@.skip(a as int).take(b - a);
        if b > a {
            assert(rest.last() == value@[b - 1]);
        }
        assert(spec_trim_end(value@.skip(a as int)) == rest);
        assert(rest =~= value@.subrange(a as int, b as int));
    }
    value.substring_char(a, b).to_owned()
}

/// Strict lexicographic order on character sequences, by code point; for
/// text this matches byte order.
pub open spec fn spec_str_lt(a: Seq<char>, b: Seq<char>) -> bool
    decreases a.len(),
{
    if b.len() == 0 {
        false
    } else if a.len() == 0 {
        true
    } else if a[0] != b[0] {
        (a[0] as u32) < (b[0] as u32)
    } else {
        spec_str_lt(a.drop_first(), b.drop_first())
    }
}

/// Whether `a` sorts strictly before `b`.
pub fn str_lt(a: &str, b: &str) -> (r: bool)
    ensures
        r == spec_str_lt(a@, b@),
{
    let a_len = a.unicode_len();
    let b_len = b.unicode_len();
    let mut i: usize = 0;
    assert(a@.skip(0) =~= a@);
    assert(b@.skip(0) =~= b@);
    while i < a_len && i < b_len
        invariant
            i <= a_len,
            i <= b_len,
            a_len == a@.len(),
            b_len == b@.len(),
            spec_str_lt(a@, b@) == spec_str_lt(a@.skip(i as int), b@.skip(i as int)),
        decreases a_len - i,
    {
        let ca = a.get_char(i);
        let cb = b.get_char(i);
        assert(a@.skip(i as int)[0] == a@[i as int]);
        assert(b@.skip(i as int)[0] == b@[i as int]);
        if ca as u32 != cb as u32 {
            assert(ca != cb);
            return (ca as u32) < (cb as u32);
        }
        assert(ca == cb);
        assert(a@.skip(i as int).drop_first() =~= a@.skip(i + 1));
        assert(b@.skip(i as int).drop_first() =~= b@.skip(i + 1));
        i += 1;
    }
    proof {
        if i >= b_len {
            assert(b@.skip(i as int) =~= Seq::<char>::empty());
        } else {
            assert(a@.skip(i as int) =~= Seq::<char>::empty());
            assert(b@.skip(i as int).len() > 0);
        }
    }
    a_len < b_len
}

/// Distinct characters have distinct code points.
proof fn lemma_char_inj(a: char, b: char)
    ensures
        (a == b) <==> (a as u32 == b as u32),
{
}

/// Lexicographic order never holds reflexively.
pub proof fn lemma_str_lt_irrefl(a: Seq<char>)
    ensures
        !spec_str_lt(a, a),
    decreases a.len(),
{
    if a.len() > 0 {
        lemma_str_lt_irrefl(a.drop_first());
    }
}

/// Two sequences neither of which sorts before the other are equal.
pub proof fn lemma_str_lt_connected(a: Seq<char>, b: Seq<char>)
    requires
        !spec_str_lt(a, b),
        !spec_str_lt(b, a),
    ensures
        a == b,
    decreases a.len(),
{
    if a.len() == 0 || b.len() == 0 {
        assert(a =~= b);
    } else {
        lemma_char_inj(a[0], b[0]);
        assert(a[0] == b[0]);
        lemma_str_lt_connected(a.drop_first(), b.drop_first());
        assert(a =~= seq![a[0]] + a.drop_first());
        assert(b =~= seq![b[0]] + b.drop_first());
    }
}

/// Lexicographic order is transitive.
pub proof fn lemma_str_lt_trans(a: Seq<char>, b: Seq<char>, c: Seq<char>)
    requires
        spec_str_lt(a, b),
        spec_str_lt(b, c),
    ensures
        spec_str_lt(a, c),
    decreases a.len(),
{
    if a.len() == 0 {
        assert(c.len() > 0);
    } else {
        assert(b.len() > 0 && c.len() > 0);
        if a[0] == b[0] && b[0] == c[0] {
            lemma_str_lt_trans(a.drop_first(), b.drop_first(), c.drop_first());
        }
    }
}


} // verus!
