//! Parsing of the version-control client's outputs: the null-separated
//! name-status list into file descriptors, raw file bytes into display
//! lines, and zero-context patches into per-line highlight sets.

use vstd::prelude::*;
use vstd::string::*;
use crate::model::{DescriptorModel, DiffFileDescriptor, DiffFileView, FileContentSource,
    FileLineHighlights, ResolvedComparison, strictly_ascending, insert_sorted};
use crate::review::contains_line;
use crate::syntax::str_eq_text;
use crate::text::{spec_split_text_lines, split_text_lines};
use syntect::parsing::SyntaxSet;

verus! {

/// What `String::from_utf8_lossy` yields for one byte sequence: a
/// function of the bytes alone.
pub uninterp spec fn lossy_decode(bytes: Seq<u8>) -> Seq<char>;

/// Relies on String::from_utf8_lossy: the decoding depends on the bytes
/// alone, and bytes that are valid UTF-8 — in particular pure ASCII —
/// decode to themselves.
#[verifier::external_body]
fn lossy_string(bytes: &[u8]) -> (r: String)
    ensures
        r@ == lossy_decode(bytes@),
        (forall|k: int| 0 <= k < bytes@.len() ==> bytes@[k] < 0x80) ==> r@ == bytes@.map_values(
            |b: u8| b as char,
        ),
{
    String::from_utf8_lossy(bytes).into_owned()
}

/// Index of the first occurrence of `b`.
pub open spec fn spec_find_byte(s: Seq<u8>, b: u8) -> Option<int>
    decreases s.len(),
{
    if s.len() == 0 {
        None
    } else if s[0] == b {
        Some(0)
    } else {
        match spec_find_byte(s.drop_first(), b) {
            Some(i) => Some(i + 1),
            None => None,
        }
    }
}

proof fn lemma_find_byte_bounds(s: Seq<u8>, b: u8)
    ensures
        (match spec_find_byte(s, b) {
            Some(i) => 0 <= i < s.len() && s[i] == b,
            None => true,
        }),
    decreases s.len(),
{
    if s.len() > 0 && s[0] != b {
        lemma_find_byte_bounds(s.drop_first(), b);
        match spec_find_byte(s.drop_first(), b) {
            Some(i) => {
                assert(s.drop_first()[i] == s[i + 1]);
            },
            None => {},
        }
    }
}

/// First occurrence of `b` in `bytes` at or after `from`.
fn find_byte_from(bytes: &[u8], from: usize, b: u8) -> (r: Option<usize>)
    requires
        from <= bytes@.len(),
    ensures
        r == (match spec_find_byte(bytes@.skip(from as int), b) {
            Some(i) => Some((from + i) as usize),
            None => None::<usize>,
        }),
        (match r {
            Some(i) => from <= i < bytes@.len(),
            None => true,
        }),
{
    proof {
        lemma_find_byte_bounds(bytes@.skip(from as int), b);
    }
    let total = bytes.len();
    let mut i: usize = from;
    while i < total
        invariant
            from <= i <= total,
            total == bytes@.len(),
            spec_find_byte(bytes@.skip(from as int), b) == (match spec_find_byte(
                bytes@.skip(i as int),
                b,
            ) {
                Some(k) => Some(k + i - from),
                None => None::<int>,
            }),
        decreases total - i,
    {
        assert(bytes@.skip(i as int)[0] == bytes@[i as int]);
        if bytes[i] == b {
            proof {
                lemma_find_byte_bounds(bytes@.skip(from as int), b);
            }
            return Some(i);
        }
        assert(bytes@.skip(i as int).drop_first() =~= bytes@.skip(i + 1));
        i += 1;
    }
    assert(bytes@.skip(total as int) =~= Seq::<u8>::empty());
    None
}

/// The non-empty stretches of `s` between zero bytes.
pub open spec fn spec_null_chunks(s: Seq<u8>) -> Seq<Seq<u8>>
    decreases s.len(),
    via spec_null_chunks_decreases
{
    if s.len() == 0 {
        Seq::empty()
    } else {
        match spec_find_byte(s, 0) {
            None => seq![s],
            Some(i) => (if i == 0 {
                Seq::<Seq<u8>>::empty()
            } else {
                seq![s.subrange(0, i)]
            }) + spec_null_chunks(s.skip(i + 1)),
        }
    }
}

#[via_fn]
proof fn spec_null_chunks_decreases(s: Seq<u8>) {
    lemma_find_byte_bounds(s, 0);
}

/// The tokens a null-separated listing decodes to: each non-empty chunk,
/// decoded leniently.
pub open spec fn spec_null_tokens(s: Seq<u8>) -> Seq<Seq<char>> {
    spec_null_chunks(s).map_values(|c: Seq<u8>| lossy_decode(c))
}

/// Splits null-separated output into its non-empty chunks, each decoded
/// leniently to text.
pub fn split_null_terminated(raw_output: &[u8]) -> (r: Vec<String>)
    ensures
        r@.map_values(|t: String| t@) == spec_null_tokens(raw_output@),
{
    let total = raw_output.len();
    let mut r: Vec<String> = Vec::new();
    let mut p: usize = 0;
    assert(raw_output@.skip(0) =~= raw_output@);
    assert(r@.map_values(|t: String| t@) =~= Seq::<Seq<char>>::empty());
    while p < total
        invariant
            p <= total,
            total == raw_output@.len(),
            spec_null_tokens(raw_output@) == r@.map_values(|t: String| t@) + spec_null_chunks(
                raw_output@.skip(p as int),
            ).map_values(|c: Seq<u8>| lossy_decode(c)),
        decreases total - p,
    {
        let ghost before = r@;
        let found = find_byte_from(raw_output, p, 0);
        match found {
            None => {
                let piece = lossy_string(&raw_output[p..total]);
                r.push(piece);
                proof {
                    assert(raw_output@.subrange(p as int, total as int) =~= raw_output@.skip(
                        p as int,
                    ));
                    assert(r@.map_values(|t: String| t@) =~= before.map_values(|t: String| t@)
                        + seq![lossy_decode(raw_output@.skip(p as int))]);
                    assert(spec_null_chunks(raw_output@.skip(p as int)).map_values(
                        |c: Seq<u8>| lossy_decode(c),
                    ) =~= seq![lossy_decode(raw_output@.skip(p as int))]);
                }
                p = total;
            },
            Some(i) => {
                proof {
                    let rest = raw_output@.skip(p as int);
                    lemma_find_byte_bounds(rest, 0);
                    assert(spec_find_byte(rest, 0) == Some(i - p));
                    assert(rest.skip(i - p + 1) =~= raw_output@.skip(i + 1));
                    if i > p {
                        assert(rest.subrange(0, i - p) =~= raw_output@.subrange(
                            p as int,
                            i as int,
                        ));
                    }
                }
                if i > p {
                    let piece = lossy_string(&raw_output[p..i]);
                    r.push(piece);
                    proof {
                        assert(r@.map_values(|t: String| t@) =~= before.map_values(
                            |t: String| t@,
                        ) + seq![lossy_decode(raw_output@.subrange(p as int, i as int))]);
                        assert(spec_null_chunks(raw_output@.skip(p as int)).map_values(
                            |c: Seq<u8>| lossy_decode(c),
                        ) =~= seq![lossy_decode(raw_output@.subrange(p as int, i as int))]
                            + spec_null_chunks(raw_output@.skip(i + 1)).map_values(
                            |c: Seq<u8>| lossy_decode(c),
                        ));
                    }
                } else {
                    proof {
                        assert(spec_null_chunks(raw_output@.skip(p as int)).map_values(
                            |c: Seq<u8>| lossy_decode(c),
                        ) =~= spec_null_chunks(raw_output@.skip(i + 1)).map_values(
                            |c: Seq<u8>| lossy_decode(c),
                        ));
                    }
                }
                p = i + 1;
            },
        }
    }
    assert(raw_output@.skip(p as int) =~= Seq::<u8>::empty());
    assert(spec_null_tokens(raw_output@) =~= r@.map_values(|t: String| t@));
    r
}

/// Splits a null-separated path list.
pub fn parse_null_separated_list(raw_output: &[u8]) -> (r: Vec<String>)
    ensures
        r@.map_values(|t: String| t@) == spec_null_tokens(raw_output@),
{
    split_null_terminated(raw_output)
}

/// The status code of one entry: its first character, `'\0'` for an
/// empty token.
pub open spec fn spec_status_code(status: Seq<char>) -> char {
    if status.len() > 0 {
        status[0]
    } else {
        '\u{0}'
    }
}

/// The descriptors encoded in a null-separated name-status listing.
/// Renames and copies carry two paths; a truncated final entry is
/// dropped; an empty path token skips its entry.
pub open spec fn spec_parse_name_status(
    tokens: Seq<Seq<char>>,
    base_source: FileContentSource,
    head_source: FileContentSource,
) -> Seq<DescriptorModel>
    decreases tokens.len(),
{
    if tokens.len() == 0 {
        Seq::empty()
    } else {
        let status = tokens[0];
        let code = spec_status_code(status);
        if code == 'R' || code == 'C' {
            if tokens.len() < 3 {
                Seq::empty()
            } else {
                let old_path = tokens[1];
                let new_path = tokens[2];
                let rest = spec_parse_name_status(tokens.skip(3), base_source, head_source);
                if old_path.len() == 0 || new_path.len() == 0 {
                    rest
                } else {
                    seq![
                        DescriptorModel {
                            raw_status: status,
                            display_path: old_path + " -> "@ + new_path,
                            base_path: Some(old_path),
                            head_path: Some(new_path),
                            base_source,
                            head_source,
                        },
                    ] + rest
                }
            }
        } else {
            if tokens.len() < 2 {
                Seq::empty()
            } else {
                let path = tokens[1];
                let rest = spec_parse_name_status(tokens.skip(2), base_source, head_source);
                if path.len() == 0 {
                    rest
                } else if code == 'A' {
                    seq![
                        DescriptorModel {
                            raw_status: status,
                            display_path: path,
                            base_path: None,
                            head_path: Some(path),
                            base_source: FileContentSource::Missing,
                            head_source,
                        },
                    ] + rest
                } else if code == 'D' {
                    seq![
                        DescriptorModel {
                            raw_status: status,
                            display_path: path,
                            base_path: Some(path),
                            head_path: None,
                            base_source,
                            head_source: FileContentSource::Missing,
                        },
                    ] + rest
                } else {
                    seq![
                        DescriptorModel {
                            raw_status: status,
                            display_path: path,
                            base_path: Some(path),
                            head_path: Some(path),
                            base_source,
                            head_source,
                        },
                    ] + rest
                }
            }
        }
    }
}

/// The descriptor views of a descriptor vector.
pub open spec fn spec_descriptor_models(descriptors: Seq<DiffFileDescriptor>) -> Seq<
    DescriptorModel,
> {
    descriptors.map_values(|d: DiffFileDescriptor| d.model())
}

/// Parses a null-separated name-status listing into file descriptors.
pub fn parse_diff_name_status_output(
    raw_output: &[u8],
    base_source: FileContentSource,
    head_source: FileContentSource,
) -> (r: Vec<DiffFileDescriptor>)
    ensures
        spec_descriptor_models(r@) == spec_parse_name_status(
            spec_null_tokens(raw_output@),
            base_source,
            head_source,
        ),
{
    let tokens = split_null_terminated(raw_output);
    let ghost token_views = tokens@.map_values(|t: String| t@);
    let mut files: Vec<DiffFileDescriptor> = Vec::new();
    let mut index: usize = 0;
    assert(token_views.skip(0) =~= token_views);
    assert(spec_descriptor_models(files@) =~= Seq::<DescriptorModel>::empty());
    while index < tokens.len()
        invariant
            index <= tokens@.len(),
            token_views == tokens@.map_values(|t: String| t@),
            spec_parse_name_status(token_views, base_source, head_source)
                == spec_descriptor_models(files@) + spec_parse_name_status(
                token_views.skip(index as int),
                base_source,
                head_source,
            ),
        decreases tokens@.len() - index,
    {
        let ghost before = files@;
        let ghost rest = token_views.skip(index as int);
        let status_token = &tokens[index];
        assert(rest[0] == token_views[index as int]);
        let status_code = if status_token.as_str().unicode_len() > 0 {
            status_token.as_str().get_char(0)
        } else {
            '\u{0}'
        };
        assert(status_code == spec_status_code(rest[0]));
        if status_code == 'R' || status_code == 'C' {
            if tokens.len() - index < 3 {
                proof {
                    assert(rest.len() < 3);
                    assert(token_views.skip(tokens@.len() as int)
                        =~= Seq::<Seq<char>>::empty());
                    assert(spec_parse_name_status(rest, base_source, head_source)
                        =~= Seq::<DescriptorModel>::empty());
                }
                index = tokens.len();
            } else {
                let old_path = &tokens[index + 1];
                let new_path = &tokens[index + 2];
                assert(rest[1] == token_views[index + 1]);
                assert(rest[2] == token_views[index + 2]);
                assert(rest.skip(3) =~= token_views.skip(index + 3));
                if old_path.as_str().unicode_len() > 0 && new_path.as_str().unicode_len() > 0 {
                    let mut display_path = old_path.clone();
                    display_path.append(" -> ");
                    display_path.append(new_path.as_str());
                    let descriptor = DiffFileDescriptor {
                        raw_status: status_token.clone(),
                        display_path,
                        base_path: Some(old_path.clone()),
                        head_path: Some(new_path.clone()),
                        base_source,
                        head_source,
                    };
                    files.push(descriptor);
                    proof {
                        assert(spec_descriptor_models(files@) =~= spec_descriptor_models(before)
                            + seq![files@.last().model()]);
                        assert(spec_parse_name_status(rest, base_source, head_source)
                            =~= seq![files@.last().model()] + spec_parse_name_status(
                            token_views.skip(index + 3),
                            base_source,
                            head_source,
                        ));
                    }
                }
                index = index + 3;
            }
        } else {
            if tokens.len() - index < 2 {
                proof {
                    assert(rest.len() < 2);
                    assert(spec_parse_name_status(rest, base_source, head_source)
                        =~= Seq::<DescriptorModel>::empty());
                }
                index = tokens.len();
            } else {
                let path_value = &tokens[index + 1];
                assert(rest[1] == token_views[index + 1]);
                assert(rest.skip(2) =~= token_views.skip(index + 2));
                if path_value.as_str().unicode_len() > 0 {
                    let descriptor = if status_code == 'A' {
                        DiffFileDescriptor {
                            raw_status: status_token.clone(),
                            display_path: path_value.clone(),
                            base_path: None,
                            head_path: Some(path_value.clone()),
                            base_source: FileContentSource::Missing,
                            head_source,
                        }
                    } else if status_code == 'D' {
                        DiffFileDescriptor {
                            raw_status: status_token.clone(),
                            display_path: path_value.clone(),
                            base_path: Some(path_value.clone()),
                            head_path: None,
                            base_source,
                            head_source: FileContentSource::Missing,
                        }
                    } else {
                        DiffFileDescriptor {
                            raw_status: status_token.clone(),
                            display_path: path_value.clone(),
                            base_path: Some(path_value.clone()),
                            head_path: Some(path_value.clone()),
                            base_source,
                            head_source,
                        }
                    };
                    files.push(descriptor);
                    proof {
                        assert(spec_descriptor_models(files@) =~= spec_descriptor_models(before)
                            + seq![files@.last().model()]);
                        assert(spec_parse_name_status(rest, base_source, head_source)
                            =~= seq![files@.last().model()] + spec_parse_name_status(
                            token_views.skip(index + 2),
                            base_source,
                            head_source,
                        ));
                    }
                }
                index = index + 2;
            }
        }
    }
    assert(token_views.skip(tokens@.len() as int) =~= Seq::<Seq<char>>::empty());
    assert(spec_parse_name_status(token_views, base_source, head_source)
        =~= spec_descriptor_models(files@));
    files
}


/// An ASCII decimal digit.
pub open spec fn spec_is_ascii_digit(c: char) -> bool {
    '0' <= c && c <= '9'
}

/// Every character is a digit.
pub open spec fn spec_all_digits(s: Seq<char>) -> bool {
    forall|k: int| 0 <= k < s.len() ==> spec_is_ascii_digit(#[trigger] s[k])
}

/// The number the digit sequence denotes.
pub open spec fn spec_digits_value(s: Seq<char>) -> int
    decreases s.len(),
{
    if s.len() == 0 {
        0
    } else {
        spec_digits_value(s.drop_last()) * 10 + (s.last() as u32 - '0' as u32)
    }
}

/// Parsing a decimal numeral: its value if the text is one or more
/// digits whose value fits the machine word, else nothing.
pub open spec fn spec_parse_decimal(s: Seq<char>) -> Option<usize> {
    if s.len() > 0 && spec_all_digits(s) && 0 <= spec_digits_value(s) <= usize::MAX {
        Some(spec_digits_value(s) as usize)
    } else {
        None
    }
}

proof fn lemma_digits_value_nonneg(s: Seq<char>)
    requires
        spec_all_digits(s),
    ensures
        spec_digits_value(s) >= 0,
    decreases s.len(),
{
    if s.len() > 0 {
        assert(spec_all_digits(s.drop_last())) by {
            assert(forall|k: int|
                0 <= k < s.len() - 1 ==> #[trigger] s.drop_last()[k] == s[k]);
        }
        lemma_digits_value_nonneg(s.drop_last());
        assert(spec_is_ascii_digit(s.last())) by {
            assert(s[s.len() - 1] == s.last());
        }
    }
}

proof fn lemma_digits_value_monotone(s: Seq<char>, i: int)
    requires
        0 <= i <= s.len(),
        spec_all_digits(s),
    ensures
        spec_digits_value(s.take(i)) <= spec_digits_value(s),
    decreases s.len() - i,
{
    if i < s.len() {
        lemma_digits_value_monotone(s, i + 1);
        assert(s.take(i + 1).drop_last() =~= s.take(i));
        assert(spec_all_digits(s.take(i))) by {
            assert(forall|k: int| 0 <= k < i ==> #[trigger] s.take(i)[k] == s[k]);
        }
        lemma_digits_value_nonneg(s.take(i));
        assert(spec_digits_value(s.take(i + 1)) == spec_digits_value(s.take(i)) * 10 + (
        s.take(i + 1).last() as u32 - '0' as u32));
        assert(spec_digits_value(s.take(i)) * 10 >= spec_digits_value(s.take(i)));
        assert(spec_is_ascii_digit(s[i])) by {
            assert(s.take(i + 1)[i] == s[i]);
        }
    } else {
        assert(s.take(i) =~= s);
    }
}

/// Parses a string of decimal digits; anything else, or a value too big
/// for the machine word, yields nothing.
pub fn parse_decimal_str(value: &str) -> (r: Option<usize>)
    ensures
        r == spec_parse_decimal(value@),
{
    let total = value.unicode_len();
    if total == 0 {
        return None;
    }
    let mut acc: usize = 0;
    let mut i: usize = 0;
    assert(value@.take(0) =~= Seq::<char>::empty());
    while i < total
        invariant
            i <= total,
            total == value@.len(),
            spec_all_digits(value@.take(i as int)),
            acc == spec_digits_value(value@.take(i as int)),
        decreases total - i,
    {
        let c = value.get_char(i);
        if !('0' <= c && c <= '9') {
            assert(!spec_all_digits(value@)) by {
                assert(value@[i as int] == c);
            }
            return None;
        }
        let digit = (c as u32 - '0' as u32) as usize;
        assert(digit <= 9);
        let ghost prefix = value@.take(i as int);
        let ghost extended = value@.take(i + 1);
        assert(extended.drop_last() =~= prefix);
        assert(extended.last() == c);
        assert(forall|k: int| 0 <= k < extended.len() ==> spec_is_ascii_digit(#[trigger] extended[k]));
        let widened = match acc.checked_mul(10) {
            Some(w) => w,
            None => {
                proof {
                    if spec_all_digits(value@) {
                        assert(spec_digits_value(extended) > usize::MAX);
                        lemma_digits_value_monotone(value@, i + 1);
                    }
                }
                return None;
            },
        };
        let next = match widened.checked_add(digit) {
            Some(n) => n,
            None => {
                proof {
                    if spec_all_digits(value@) {
                        assert(spec_digits_value(extended) > usize::MAX);
                        lemma_digits_value_monotone(value@, i + 1);
                    }
                }
                return None;
            },
        };
        acc = next;
        i += 1;
    }
    assert(value@.take(total as int) =~= value@);
    Some(acc)
}

/// The count part of a hunk header: one when absent, the parsed value,
/// or zero when the numeral does not fit.
pub open spec fn spec_hunk_count(digits: Option<Seq<char>>) -> usize {
    match digits {
        None => 1,
        Some(d) => match spec_parse_decimal(d) {
            Some(v) => v,
            None => 0,
        },
    }
}

/// Parses an optional hunk-count field.
pub fn parse_hunk_count(value: Option<&str>) -> (r: usize)
    ensures
        r == spec_hunk_count(
            (match value {
                Some(v) => Some(v@),
                None => None,
            }),
        ),
{
    match value {
        None => 1,
        Some(raw) => match parse_decimal_str(raw) {
            Some(v) => v,
            None => 0,
        },
    }
}

/// One past the maximal run of digits starting at `i`.
pub open spec fn spec_digits_end(s: Seq<char>, i: int) -> int
    decreases s.len() - i,
    when 0 <= i <= s.len()
{
    if i >= s.len() {
        i
    } else if !spec_is_ascii_digit(s[i]) {
        i
    } else {
        spec_digits_end(s, i + 1)
    }
}

proof fn lemma_digits_end_bounds(s: Seq<char>, i: int)
    requires
        0 <= i <= s.len(),
    ensures
        i <= spec_digits_end(s, i) <= s.len(),
        spec_all_digits(s.subrange(i, spec_digits_end(s, i))),
    decreases s.len() - i,
{
    if i < s.len() && spec_is_ascii_digit(s[i]) {
        lemma_digits_end_bounds(s, i + 1);
        let e = spec_digits_end(s, i);
        assert forall|k: int|
            0 <= k < s.subrange(i, e).len() implies spec_is_ascii_digit(
            #[trigger] s.subrange(i, e)[k],
        ) by {
            if k > 0 {
                assert(s.subrange(i + 1, e)[k - 1] == s.subrange(i, e)[k]);
            }
        }
    }
}

/// End of the digit run starting at `i`.
fn digits_end_from(value: &str, i: usize) -> (r: usize)
    requires
        i <= value@.len(),
    ensures
        r == spec_digits_end(value@, i as int),
        i <= r <= value@.len(),
{
    proof {
        lemma_digits_end_bounds(value@, i as int);
    }
    let total = value.unicode_len();
    let mut j: usize = i;
    while j < total
        invariant
            i <= j <= total,
            total == value@.len(),
            spec_digits_end(value@, i as int) == spec_digits_end(value@, j as int),
        decreases total - j,
    {
        let c = value.get_char(j);
        if !('0' <= c && c <= '9') {
            return j;
        }
        j += 1;
    }
    j
}

/// The digits of one side of a hunk header: the start numeral and the
/// optional count numeral after a comma, with the position that follows.
pub open spec fn spec_hunk_number(s: Seq<char>, i: int) -> Option<(Seq<char>, Option<Seq<char>>, int)>
    recommends
        0 <= i <= s.len(),
{
    let e1 = spec_digits_end(s, i);
    if e1 == i {
        None
    } else if e1 < s.len() && s[e1] == ',' && spec_digits_end(s, e1 + 1) > e1 + 1 {
        let e2 = spec_digits_end(s, e1 + 1);
        Some((s.subrange(i, e1), Some(s.subrange(e1 + 1, e2)), e2))
    } else {
        Some((s.subrange(i, e1), None, e1))
    }
}

/// A parsed hunk header: start numeral and count for each side, the
/// start as nothing when its numeral does not fit the machine word, the
/// count defaulting to one when absent and zero when it does not fit.
pub open spec fn spec_parse_hunk_header(s: Seq<char>) -> Option<
    (Option<usize>, usize, Option<usize>, usize),
> {
    if s.len() < 4 || s.subrange(0, 4) != "@@ -"@ {
        None
    } else {
        match spec_hunk_number(s, 4) {
            None => None,
            Some((old_digits, old_count_digits, p1)) => {
                if p1 + 2 <= s.len() && s.subrange(p1, p1 + 2) == " +"@ {
                    match spec_hunk_number(s, p1 + 2) {
                        None => None,
                        Some((new_digits, new_count_digits, p2)) => {
                            if p2 + 3 <= s.len() && s.subrange(p2, p2 + 3) == " @@"@ {
                                Some(
                                    (
                                        spec_parse_decimal(old_digits),
                                        spec_hunk_count(old_count_digits),
                                        spec_parse_decimal(new_digits),
                                        spec_hunk_count(new_count_digits),
                                    ),
                                )
                            } else {
                                None
                            }
                        },
                    }
                } else {
                    None
                }
            },
        }
    }
}

/// Parses the digits of one header side starting at `i`: the start
/// numeral, the optional count numeral, and the next position.
fn parse_hunk_number(line: &str, i: usize) -> (r: Option<(usize, usize, Option<(usize, usize)>,
    usize)>)
    requires
        i <= line@.len(),
    ensures
        (match r {
            Some((a, b, count_range, next)) => {
                &&& spec_hunk_number(line@, i as int) matches Some((sd, cd, p))
                &&& line@.subrange(a as int, b as int) == sd
                &&& a == i && i <= b <= line@.len()
                &&& (match count_range {
                    Some((c, d)) => cd == Some(line@.subrange(c as int, d as int)) && b < c <= d
                        <= line@.len(),
                    None => cd is None,
                })
                &&& p == next && next <= line@.len()
            },
            None => spec_hunk_number(line@, i as int) is None,
        }),
{
    let total = line.unicode_len();
    let e1 = digits_end_from(line, i);
    if e1 == i {
        return None;
    }
    if e1 < total && line.get_char(e1) == ',' {
        let e2 = digits_end_from(line, e1 + 1);
        if e2 > e1 + 1 {
            return Some((i, e1, Some((e1 + 1, e2)), e2));
        }
    }
    Some((i, e1, None, e1))
}

/// Parses one line as a zero-context hunk header of the form
/// `@@ -start[,count] +start[,count] @@`; anything else yields nothing.
pub fn parse_hunk_header(line: &str) -> (r: Option<(Option<usize>, usize, Option<usize>, usize)>)
    ensures
        r == spec_parse_hunk_header(line@),
{
    proof {
        reveal_strlit("@@ -");
        reveal_strlit(" +");
        reveal_strlit(" @@");
    }
    let total = line.unicode_len();
    if total < 4 {
        return None;
    }
    let prefix_ok = line.get_char(0) == '@' && line.get_char(1) == '@' && line.get_char(2) == ' '
        && line.get_char(3) == '-';
    if !prefix_ok {
        proof {
            if line@.subrange(0, 4) == "@@ -"@ {
                assert(line@[0] == '@' && line@[1] == '@' && line@[2] == ' ' && line@[3] == '-')
                    by {
                    assert(line@.subrange(0, 4)[0] == line@[0]);
                    assert(line@.subrange(0, 4)[1] == line@[1]);
                    assert(line@.subrange(0, 4)[2] == line@[2]);
                    assert(line@.subrange(0, 4)[3] == line@[3]);
                }
                assert(false);
            }
        }
        return None;
    }
    assert(line@.subrange(0, 4) =~= "@@ -"@);
    let first = match parse_hunk_number(line, 4) {
        Some(parts) => parts,
        None => {
            return None;
        },
    };
    let (old_a, old_b, old_count_range, p1) = first;
    if total - p1 < 2 || !(line.get_char(p1) == ' ' && line.get_char(p1 + 1) == '+') {
        proof {
            let sp = line@;
            if p1 + 2 <= sp.len() && sp.subrange(p1 as int, p1 + 2) == " +"@ {
                assert(sp.subrange(p1 as int, p1 + 2)[0] == sp[p1 as int]);
                assert(sp.subrange(p1 as int, p1 + 2)[1] == sp[p1 + 1]);
                assert(false);
            }
        }
        return None;
    }
    assert(line@.subrange(p1 as int, p1 + 2) =~= " +"@);
    let second = match parse_hunk_number(line, p1 + 2) {
        Some(parts) => parts,
        None => {
            return None;
        },
    };
    let (new_a, new_b, new_count_range, p2) = second;
    if total - p2 < 3 || !(line.get_char(p2) == ' ' && line.get_char(p2 + 1) == '@'
        && line.get_char(p2 + 2) == '@') {
        proof {
            let sp = line@;
            if p2 + 3 <= sp.len() && sp.subrange(p2 as int, p2 + 3) == " @@"@ {
                assert(sp.subrange(p2 as int, p2 + 3)[0] == sp[p2 as int]);
                assert(sp.subrange(p2 as int, p2 + 3)[1] == sp[p2 + 1]);
                assert(sp.subrange(p2 as int, p2 + 3)[2] == sp[p2 + 2]);
                assert(false);
            }
        }
        return None;
    }
    assert(line@.subrange(p2 as int, p2 + 3) =~= " @@"@);
    let old_start = parse_decimal_str(line.substring_char(old_a, old_b));
    let old_count = match old_count_range {
        Some((c, d)) => parse_hunk_count(Some(line.substring_char(c, d))),
        None => parse_hunk_count(None),
    };
    let new_start = parse_decimal_str(line.substring_char(new_a, new_b));
    let new_count = match new_count_range {
        Some((c, d)) => parse_hunk_count(Some(line.substring_char(c, d))),
        None => parse_hunk_count(None),
    };
    Some((old_start, old_count, new_start, new_count))
}


/// An empty pair of highlight sets.
pub fn create_empty_line_highlights() -> (r: FileLineHighlights)
    ensures
        r.wf(),
        r.left_deleted_line_indexes@ == Seq::<usize>::empty(),
        r.right_added_line_indexes@ == Seq::<usize>::empty(),
{
    FileLineHighlights { left_deleted_line_indexes: Vec::new(), right_added_line_indexes: Vec::new() }
}

/// The indexes `0 .. line_count`, in order.
pub fn create_range_line_indexes(line_count: usize) -> (r: Vec<usize>)
    ensures
        r@ == Seq::new(line_count as nat, |k: int| k as usize),
        strictly_ascending(r@),
        forall|y: usize| r@.contains(y) <==> y < line_count,
{
    let mut r: Vec<usize> = Vec::new();
    let mut i: usize = 0;
    while i < line_count
        invariant
            i <= line_count,
            r@ == Seq::new(i as nat, |k: int| k as usize),
        decreases line_count - i,
    {
        r.push(i);
        assert(r@ =~= Seq::new((i + 1) as nat, |k: int| k as usize));
        i += 1;
    }
    assert forall|y: usize| r@.contains(y) <==> y < line_count by {
        if y < line_count {
            assert(r@[y as int] == y);
        }
    }
    r
}

/// The 0-based indexes one hunk side marks: `start` is 1-based, a start
/// of zero stays at line zero, and `count` consecutive lines follow.
pub open spec fn spec_in_hunk_range(start: usize, count: usize, x: usize) -> bool {
    let base: int = if start > 0 {
        start - 1
    } else {
        0
    };
    base <= x < base + count
}

/// Inserts the `count` indexes starting at `base` (saturating at the top
/// of the index range) into a sorted index set.
fn insert_index_range(indexes: &mut Vec<usize>, base: usize, count: usize)
    requires
        strictly_ascending(old(indexes)@),
    ensures
        strictly_ascending(final(indexes)@),
        forall|y: usize|
            final(indexes)@.contains(y) <==> (old(indexes)@.contains(y) || base <= y < base
                + count),
{
    let mut offset: usize = 0;
    while offset < count
        invariant
            offset <= count,
            strictly_ascending(indexes@),
            forall|y: usize|
                indexes@.contains(y) <==> (old(indexes)@.contains(y) || base <= y < base + offset),
        decreases count - offset,
    {
        let index = if offset > usize::MAX - base {
            usize::MAX
        } else {
            base + offset
        };
        insert_sorted(indexes, index);
        assert forall|y: usize|
            indexes@.contains(y) <==> (old(indexes)@.contains(y) || base <= y < base + offset
                + 1) by {
            if base + offset > usize::MAX {
                assert(index == usize::MAX);
                assert(base <= usize::MAX < base + offset);
            } else {
                assert(index == base + offset);
            }
        }
        offset += 1;
    }
}

/// Whether some patch line marks `x` on the left (old) side.
pub open spec fn spec_patch_marks_left(lines: Seq<Seq<char>>, x: usize) -> bool {
    exists|k: int|
        0 <= k < lines.len() && (match spec_parse_hunk_header(#[trigger] lines[k]) {
            Some((old_start, old_count, new_start, new_count)) => match old_start {
                Some(start) => spec_in_hunk_range(start, old_count, x),
                None => false,
            },
            None => false,
        })
}

/// Whether some patch line marks `x` on the right (new) side.
pub open spec fn spec_patch_marks_right(lines: Seq<Seq<char>>, x: usize) -> bool {
    exists|k: int|
        0 <= k < lines.len() && (match spec_parse_hunk_header(#[trigger] lines[k]) {
            Some((old_start, old_count, new_start, new_count)) => match new_start {
                Some(start) => spec_in_hunk_range(start, new_count, x),
                None => false,
            },
            None => false,
        })
}

/// Scans a patch for zero-context hunk headers and collects, per side,
/// the set of line indexes the headers cover; lines that are not headers
/// are ignored.
pub fn parse_line_highlights_from_patch(diff_output: &str) -> (r: FileLineHighlights)
    ensures
        r.wf(),
        forall|x: usize|
            r.left_deleted_line_indexes@.contains(x) <==> spec_patch_marks_left(
                spec_split_text_lines(diff_output@),
                x,
            ),
        forall|x: usize|
            r.right_added_line_indexes@.contains(x) <==> spec_patch_marks_right(
                spec_split_text_lines(diff_output@),
                x,
            ),
{
    let lines = split_text_lines(diff_output);
    let ghost line_views = lines@.map_values(|l: String| l@);
    let mut left: Vec<usize> = Vec::new();
    let mut right: Vec<usize> = Vec::new();
    let mut i: usize = 0;
    while i < lines.len()
        invariant
            i <= lines@.len(),
            line_views == lines@.map_values(|l: String| l@),
            strictly_ascending(left@),
            strictly_ascending(right@),
            forall|x: usize|
                left@.contains(x) <==> spec_patch_marks_left(line_views.take(i as int), x),
            forall|x: usize|
                right@.contains(x) <==> spec_patch_marks_right(line_views.take(i as int), x),
        decreases lines@.len() - i,
    {
        let ghost left_before = left@;
        let ghost right_before = right@;
        let header = parse_hunk_header(lines[i].as_str());
        assert(line_views[i as int] == lines@[i as int]@);
        if let Some((old_start, old_count, new_start, new_count)) = header {
            if let Some(start) = old_start {
                let base = if start > 0 {
                    start - 1
                } else {
                    0
                };
                insert_index_range(&mut left, base, old_count);
            }
            if let Some(start) = new_start {
                let base = if start > 0 {
                    start - 1
                } else {
                    0
                };
                insert_index_range(&mut right, base, new_count);
            }
        }
        proof {
            let taken = line_views.take(i + 1);
            assert(taken.drop_last() =~= line_views.take(i as int));
            assert(taken.last() == line_views[i as int]);
            assert forall|x: usize|
                left@.contains(x) <==> spec_patch_marks_left(taken, x) by {
                if spec_patch_marks_left(taken, x) {
                    let k = choose|k: int|
                        0 <= k < taken.len() && (match spec_parse_hunk_header(
                            #[trigger] taken[k],
                        ) {
                            Some((old_start, old_count, new_start, new_count)) => match old_start {
                                Some(start) => spec_in_hunk_range(start, old_count, x),
                                None => false,
                            },
                            None => false,
                        });
                    if k < i {
                        assert(line_views.take(i as int)[k] == taken[k]);
                        assert(spec_patch_marks_left(line_views.take(i as int), x));
                    }
                }
                if spec_patch_marks_left(line_views.take(i as int), x) {
                    let k = choose|k: int|
                        0 <= k < i && (match spec_parse_hunk_header(
                            #[trigger] line_views.take(i as int)[k],
                        ) {
                            Some((old_start, old_count, new_start, new_count)) => match old_start {
                                Some(start) => spec_in_hunk_range(start, old_count, x),
                                None => false,
                            },
                            None => false,
                        });
                    assert(taken[k] == line_views.take(i as int)[k]);
                    assert(spec_patch_marks_left(taken, x));
                }
            }
            assert forall|x: usize|
                right@.contains(x) <==> spec_patch_marks_right(taken, x) by {
                if spec_patch_marks_right(taken, x) {
                    let k = choose|k: int|
                        0 <= k < taken.len() && (match spec_parse_hunk_header(
                            #[trigger] taken[k],
                        ) {
                            Some((old_start, old_count, new_start, new_count)) => match new_start {
                                Some(start) => spec_in_hunk_range(start, new_count, x),
                                None => false,
                            },
                            None => false,
                        });
                    if k < i {
                        assert(line_views.take(i as int)[k] == taken[k]);
                        assert(spec_patch_marks_right(line_views.take(i as int), x));
                    }
                }
                if spec_patch_marks_right(line_views.take(i as int), x) {
                    let k = choose|k: int|
                        0 <= k < i && (match spec_parse_hunk_header(
                            #[trigger] line_views.take(i as int)[k],
                        ) {
                            Some((old_start, old_count, new_start, new_count)) => match new_start {
                                Some(start) => spec_in_hunk_range(start, new_count, x),
                                None => false,
                            },
                            None => false,
                        });
                    assert(taken[k] == line_views.take(i as int)[k]);
                    assert(spec_patch_marks_right(taken, x));
                }
            }
        }
        i += 1;
    }
    assert(line_views.take(lines@.len() as int) =~= line_views);
    FileLineHighlights { left_deleted_line_indexes: left, right_added_line_indexes: right }
}

/// Whether a content sample looks binary: a zero byte among the first
/// eight kibibytes.
pub fn is_binary_content(content: &[u8]) -> (r: bool)
    ensures
        r == (exists|k: int|
            0 <= k < content@.len() && k < 8192 && content@[k] == 0),
{
    let sample_size = if content.len() >= 8192 {
        8192
    } else {
        content.len()
    };
    let mut i: usize = 0;
    while i < sample_size
        invariant
            i <= sample_size,
            sample_size == (if content@.len() >= 8192 {
                8192int
            } else {
                content@.len() as int
            }),
            forall|k: int| 0 <= k < i ==> content@[k] != 0,
        decreases sample_size - i,
    {
        if content[i] == 0 {
            return true;
        }
        i += 1;
    }
    false
}

/// The display lines of one file's text: its text lines, with one empty
/// line standing for empty content.
pub open spec fn spec_content_lines(s: Seq<char>) -> Seq<Seq<char>> {
    if s.len() == 0 {
        seq![Seq::<char>::empty()]
    } else {
        spec_split_text_lines(s)
    }
}

proof fn lemma_split_text_lines_nonempty(s: Seq<char>)
    requires
        s.len() > 0,
    ensures
        spec_split_text_lines(s).len() > 0,
{
}

/// Splits file content into display lines: at each newline, stripping a
/// carriage return before it and a final empty line, with empty content
/// shown as one empty line.
pub fn split_into_lines(content: &str) -> (r: Vec<String>)
    ensures
        r@.map_values(|l: String| l@) == spec_content_lines(content@),
        r@.len() > 0,
{
    if content.unicode_len() == 0 {
        let mut r: Vec<String> = Vec::new();
        r.push(String::new());
        assert(r@.map_values(|l: String| l@) =~= seq![Seq::<char>::empty()]);
        return r;
    }
    let r = split_text_lines(content);
    proof {
        lemma_split_text_lines_nonempty(content@);
        assert(r@.map_values(|l: String| l@).len() == spec_split_text_lines(content@).len());
    }
    r
}


pub const MISSING_LEFT: &'static str = "<file does not exist in base revision>";

pub const MISSING_RIGHT: &'static str = "<file does not exist in target revision>";

pub const BINARY_PLACEHOLDER: &'static str = "<binary file preview not available>";

/// One side's raw content as the caller could obtain it: absent by
/// design, fetched bytes, or a fetch failure with its message.
#[derive(Clone, Debug)]
pub enum ContentFetch {
    Missing,
    Fetched(Vec<u8>),
    Failed(String),
}

/// A zero byte within the first eight kibibytes.
pub open spec fn spec_is_binary(bytes: Seq<u8>) -> bool {
    exists|k: int| 0 <= k < bytes.len() && k < 8192 && bytes[k] == 0
}

/// The display lines one fetch outcome yields: the placeholder for
/// absent content, an error line for a failed fetch, a binary notice,
/// or the decoded text split into lines.
pub open spec fn spec_fetch_lines(fetch: ContentFetch, placeholder: Seq<char>) -> Seq<Seq<char>> {
    match fetch {
        ContentFetch::Missing => seq![placeholder],
        ContentFetch::Failed(message) => seq![
            "<unable to load file: "@ + message@ + ">"@,
        ],
        ContentFetch::Fetched(bytes) => if spec_is_binary(bytes@) {
            seq![BINARY_PLACEHOLDER@]
        } else {
            spec_content_lines(lossy_decode(bytes@))
        },
    }
}

/// The display lines of one pane: the placeholder when the side is
/// absent or has no path, else what its fetch yielded.
pub open spec fn spec_pane_lines(
    source: FileContentSource,
    path: Option<Seq<char>>,
    fetch: ContentFetch,
    placeholder: Seq<char>,
) -> Seq<Seq<char>> {
    if source == FileContentSource::Missing || path is None {
        seq![placeholder]
    } else {
        spec_fetch_lines(fetch, placeholder)
    }
}

/// Turns one fetch outcome into display lines.
fn content_lines_from_fetch(fetch: &ContentFetch, placeholder: &str) -> (r: Vec<String>)
    ensures
        r@.map_values(|l: String| l@) == spec_fetch_lines(*fetch, placeholder@),
        r@.len() > 0,
{
    match fetch {
        ContentFetch::Missing => {
            let mut r: Vec<String> = Vec::new();
            r.push(placeholder.to_owned());
            assert(r@.map_values(|l: String| l@) =~= seq![placeholder@]);
            r
        },
        ContentFetch::Failed(message) => {
            let mut line = String::new();
            line.append("<unable to load file: ");
            line.append(message.as_str());
            line.append(">");
            let mut r: Vec<String> = Vec::new();
            r.push(line);
            assert(r@.map_values(|l: String| l@) =~= seq![
                "<unable to load file: "@ + message@ + ">"@,
            ]);
            r
        },
        ContentFetch::Fetched(bytes) => {
            if is_binary_content(bytes.as_slice()) {
                let mut r: Vec<String> = Vec::new();
                r.push(BINARY_PLACEHOLDER.to_owned());
                assert(r@.map_values(|l: String| l@) =~= seq![BINARY_PLACEHOLDER@]);
                r
            } else {
                let text = lossy_string(bytes.as_slice());
                split_into_lines(text.as_str())
            }
        },
    }
}

/// Turns one pane's fetch outcome into display lines, honouring the
/// absent-side placeholder.
fn pane_lines(
    source: FileContentSource,
    path: &Option<String>,
    fetch: &ContentFetch,
    placeholder: &str,
) -> (r: Vec<String>)
    ensures
        r@.map_values(|l: String| l@) == spec_pane_lines(
            source,
            (match *path {
                Some(p) => Some(p@),
                None => None,
            }),
            *fetch,
            placeholder@,
        ),
        r@.len() > 0,
{
    let absent = match source {
        FileContentSource::Missing => true,
        _ => match path {
            Some(_) => false,
            None => true,
        },
    };
    if absent {
        let mut r: Vec<String> = Vec::new();
        r.push(placeholder.to_owned());
        assert(r@.map_values(|l: String| l@) =~= seq![placeholder@]);
        r
    } else {
        content_lines_from_fetch(fetch, placeholder)
    }
}

/// The highlight sets are exactly what the descriptor and patch call
/// for: a wholly added or deleted file marks the whole present side, a
/// file without both paths or without a patch is unhighlighted, and
/// otherwise the patch's hunk headers decide both sides.
pub open spec fn spec_highlights_ok(
    d: DiffFileDescriptor,
    left_count: int,
    right_count: int,
    patch: Option<Seq<char>>,
    h: FileLineHighlights,
) -> bool {
    &&& h.wf()
    &&& if d.base_source == FileContentSource::Missing {
        &&& h.left_deleted_line_indexes@ == Seq::<usize>::empty()
        &&& forall|x: usize| h.right_added_line_indexes@.contains(x) <==> x < right_count
    } else if d.head_source == FileContentSource::Missing {
        &&& forall|x: usize| h.left_deleted_line_indexes@.contains(x) <==> x < left_count
        &&& h.right_added_line_indexes@ == Seq::<usize>::empty()
    } else if d.base_path is None || d.head_path is None {
        &&& h.left_deleted_line_indexes@ == Seq::<usize>::empty()
        &&& h.right_added_line_indexes@ == Seq::<usize>::empty()
    } else {
        match patch {
            None => {
                &&& h.left_deleted_line_indexes@ == Seq::<usize>::empty()
                &&& h.right_added_line_indexes@ == Seq::<usize>::empty()
            },
            Some(text) => {
                &&& forall|x: usize|
                    h.left_deleted_line_indexes@.contains(x) <==> spec_patch_marks_left(
                        spec_split_text_lines(text),
                        x,
                    )
                &&& forall|x: usize|
                    h.right_added_line_indexes@.contains(x) <==> spec_patch_marks_right(
                        spec_split_text_lines(text),
                        x,
                    )
            },
        }
    }
}

/// Derives one file's highlight sets: a wholly added or deleted file
/// marks the entire present side without consulting any patch; a file
/// whose patch could not be obtained is shown unhighlighted; otherwise
/// the patch's hunk headers decide.
pub fn get_line_highlights_for_descriptor(
    descriptor: &DiffFileDescriptor,
    left_line_count: usize,
    right_line_count: usize,
    patch: Option<&str>,
) -> (r: FileLineHighlights)
    ensures
        spec_highlights_ok(
            *descriptor,
            left_line_count as int,
            right_line_count as int,
            (match patch {
                Some(p) => Some(p@),
                None => None,
            }),
            r,
        ),
{
    match descriptor.base_source {
        FileContentSource::Missing => {
            return FileLineHighlights {
                left_deleted_line_indexes: Vec::new(),
                right_added_line_indexes: create_range_line_indexes(right_line_count),
            };
        },
        _ => {},
    }
    match descriptor.head_source {
        FileContentSource::Missing => {
            return FileLineHighlights {
                left_deleted_line_indexes: create_range_line_indexes(left_line_count),
                right_added_line_indexes: Vec::new(),
            };
        },
        _ => {},
    }
    let has_both_paths = match (&descriptor.base_path, &descriptor.head_path) {
        (Some(_), Some(_)) => true,
        _ => false,
    };
    if !has_both_paths {
        return create_empty_line_highlights();
    }
    match patch {
        None => create_empty_line_highlights(),
        Some(text) => parse_line_highlights_from_patch(text),
    }
}

/// The paths a highlight patch should be restricted to: both sides'
/// paths, collapsed when equal; nothing when no patch is needed at all.
pub open spec fn spec_patch_request_paths(d: DiffFileDescriptor) -> Option<Seq<Seq<char>>> {
    if d.base_source == FileContentSource::Missing || d.head_source == FileContentSource::Missing {
        None
    } else {
        match (d.base_path, d.head_path) {
            (Some(base), Some(head)) => if base@ == head@ {
                Some(seq![base@])
            } else {
                Some(seq![base@, head@])
            },
            _ => None,
        }
    }
}

/// Which paths to ask the version-control client to diff for one file's
/// highlights; nothing when the highlights need no patch.
pub fn patch_request_paths(descriptor: &DiffFileDescriptor) -> (r: Option<Vec<String>>)
    ensures
        (match r {
            Some(paths) => spec_patch_request_paths(*descriptor) == Some(
                paths@.map_values(|p: String| p@),
            ),
            None => spec_patch_request_paths(*descriptor) is None,
        }),
{
    match descriptor.base_source {
        FileContentSource::Missing => {
            return None;
        },
        _ => {},
    }
    match descriptor.head_source {
        FileContentSource::Missing => {
            return None;
        },
        _ => {},
    }
    match (&descriptor.base_path, &descriptor.head_path) {
        (Some(base), Some(head)) => {
            let mut paths: Vec<String> = Vec::new();
            if str_eq_text(base.as_str(), head.as_str()) {
                paths.push(base.clone());
                assert(paths@.map_values(|p: String| p@) =~= seq![base@]);
            } else {
                paths.push(base.clone());
                paths.push(head.clone());
                assert(paths@.map_values(|p: String| p@) =~= seq![base@, head@]);
            }
            Some(paths)
        },
        _ => None,
    }
}

/// A field-for-field copy of a descriptor.
fn clone_descriptor(d: &DiffFileDescriptor) -> (r: DiffFileDescriptor)
    ensures
        r.model() == d.model(),
{
    DiffFileDescriptor {
        raw_status: d.raw_status.clone(),
        display_path: d.display_path.clone(),
        base_path: match &d.base_path {
            Some(p) => Some(p.clone()),
            None => None,
        },
        head_path: match &d.head_path {
            Some(p) => Some(p.clone()),
            None => None,
        },
        base_source: d.base_source,
        head_source: d.head_source,
    }
}

/// One built view is exactly what its inputs dictate: the descriptor is
/// copied, each pane shows its fetched (or placeholder) lines, the
/// review key is the content fingerprint, both languages come from the
/// detection cascade, the highlight sets follow the patch, and the
/// cached widths are the widest normalised lines.
pub open spec fn spec_view_built(
    v: DiffFileView,
    d: DiffFileDescriptor,
    left_fetch: ContentFetch,
    right_fetch: ContentFetch,
    patch: Option<String>,
    set: SyntaxSet,
) -> bool {
    let left_views = v.left_lines@.map_values(|l: String| l@);
    let right_views = v.right_lines@.map_values(|l: String| l@);
    &&& v.descriptor.model() == d.model()
    &&& left_views == spec_pane_lines(
        d.base_source,
        d.model().base_path,
        left_fetch,
        MISSING_LEFT@,
    )
    &&& right_views == spec_pane_lines(
        d.head_source,
        d.model().head_path,
        right_fetch,
        MISSING_RIGHT@,
    )
    &&& v.review_key@ == crate::review::spec_review_key(d.model(), left_views, right_views)
    &&& (match v.left_language {
        Some(name) => crate::syntax::spec_detect_syntax_name(set, d.model().base_path, left_views)
            == Some(name@),
        None => crate::syntax::spec_detect_syntax_name(set, d.model().base_path, left_views)
            is None,
    })
    &&& (match v.right_language {
        Some(name) => crate::syntax::spec_detect_syntax_name(set, d.model().head_path, right_views)
            == Some(name@),
        None => crate::syntax::spec_detect_syntax_name(set, d.model().head_path, right_views)
            is None,
    })
    &&& spec_highlights_ok(
        d,
        left_views.len() as int,
        right_views.len() as int,
        (match patch {
            Some(p) => Some(p@),
            None => None,
        }),
        FileLineHighlights {
            left_deleted_line_indexes: v.left_deleted_line_indexes,
            right_added_line_indexes: v.right_added_line_indexes,
        },
    )
    &&& v.left_max_content_length == crate::text::spec_max_normalized_len(v.left_lines@)
    &&& v.right_max_content_length == crate::text::spec_max_normalized_len(v.right_lines@)
}

/// Builds the immutable per-file views: pane lines from the fetched
/// content, highlight sets from the patches, syntax names from the
/// detection cascade, and the content fingerprint used as review key.
#[verifier::rlimit(100)]
pub fn build_file_views(
    syntaxes: &SyntaxSet,
    descriptors: &Vec<DiffFileDescriptor>,
    left_fetches: &Vec<ContentFetch>,
    right_fetches: &Vec<ContentFetch>,
    patches: &Vec<Option<String>>,
) -> (r: Vec<DiffFileView>)
    requires
        crate::syntax::first_line_rules_ok(*syntaxes),
        left_fetches@.len() == descriptors@.len(),
        right_fetches@.len() == descriptors@.len(),
        patches@.len() == descriptors@.len(),
    ensures
        r@.len() == descriptors@.len(),
        forall|i: int|
            0 <= i < descriptors@.len() ==> spec_view_built(
                #[trigger] r@[i],
                descriptors@[i],
                left_fetches@[i],
                right_fetches@[i],
                patches@[i],
                *syntaxes,
            ),
        forall|i: int| 0 <= i < r@.len() ==> (#[trigger] r@[i]).wf(),
{
    let mut views: Vec<DiffFileView> = Vec::new();
    let mut i: usize = 0;
    while i < descriptors.len()
        invariant
            crate::syntax::first_line_rules_ok(*syntaxes),
            i <= descriptors@.len(),
            left_fetches@.len() == descriptors@.len(),
            right_fetches@.len() == descriptors@.len(),
            patches@.len() == descriptors@.len(),
            views@.len() == i,
            forall|k: int|
                0 <= k < i ==> spec_view_built(
                    #[trigger] views@[k],
                    descriptors@[k],
                    left_fetches@[k],
                    right_fetches@[k],
                    patches@[k],
                    *syntaxes,
                ),
            forall|k: int| 0 <= k < views@.len() ==> (#[trigger] views@[k]).wf(),
        decreases descriptors@.len() - i,
    {
        let descriptor = &descriptors[i];
        let left_lines = pane_lines(
            descriptor.base_source,
            &descriptor.base_path,
            &left_fetches[i],
            MISSING_LEFT,
        );
        let right_lines = pane_lines(
            descriptor.head_source,
            &descriptor.head_path,
            &right_fetches[i],
            MISSING_RIGHT,
        );
        let patch_text: Option<&str> = match &patches[i] {
            Some(p) => Some(p.as_str()),
            None => None,
        };
        let line_highlights = get_line_highlights_for_descriptor(
            descriptor,
            left_lines.len(),
            right_lines.len(),
            patch_text,
        );
        let review_key = crate::review::compute_review_key(descriptor, &left_lines, &right_lines);
        let left_language = crate::syntax::detect_syntax_name(
            syntaxes,
            (match &descriptor.base_path {
                Some(p) => Some(p.as_str()),
                None => None,
            }),
            &left_lines,
        );
        let right_language = crate::syntax::detect_syntax_name(
            syntaxes,
            (match &descriptor.head_path {
                Some(p) => Some(p.as_str()),
                None => None,
            }),
            &right_lines,
        );
        let left_max_content_length = crate::text::get_max_normalized_line_length(&left_lines);
        let right_max_content_length = crate::text::get_max_normalized_line_length(&right_lines);
        let view = DiffFileView {
            descriptor: clone_descriptor(descriptor),
            review_key,
            left_lines,
            right_lines,
            left_language,
            right_language,
            left_deleted_line_indexes: line_highlights.left_deleted_line_indexes,
            right_added_line_indexes: line_highlights.right_added_line_indexes,
            left_max_content_length,
            right_max_content_length,
        };
        views.push(view);
        i += 1;
    }
    views
}

/// The key a descriptor occupies in the duplicate check against
/// untracked paths: its head path, else its base path.
pub open spec fn spec_descriptor_key(d: DescriptorModel) -> Option<Seq<char>> {
    match d.head_path {
        Some(p) => Some(p),
        None => d.base_path,
    }
}

/// The paths already claimed by a descriptor list.
pub open spec fn spec_seen_paths(descs: Seq<DescriptorModel>) -> Set<Seq<char>> {
    Set::new(
        |p: Seq<char>|
            exists|k: int|
                0 <= k < descs.len() && spec_descriptor_key(#[trigger] descs[k]) == Some(p),
    )
}

/// The descriptor an untracked working-tree path gets.
pub open spec fn spec_untracked_model(p: Seq<char>) -> DescriptorModel {
    DescriptorModel {
        raw_status: "??"@,
        display_path: p,
        base_path: None,
        head_path: Some(p),
        base_source: FileContentSource::Missing,
        head_source: FileContentSource::WorkingTree,
    }
}

/// The descriptors added for untracked paths: each path not yet seen,
/// in order, each claiming its path.
pub open spec fn spec_untracked_additions(
    untracked: Seq<Seq<char>>,
    seen: Set<Seq<char>>,
) -> Seq<DescriptorModel>
    decreases untracked.len(),
{
    if untracked.len() == 0 {
        Seq::empty()
    } else {
        let p = untracked[0];
        if seen.contains(p) {
            spec_untracked_additions(untracked.drop_first(), seen)
        } else {
            seq![spec_untracked_model(p)] + spec_untracked_additions(
                untracked.drop_first(),
                seen.insert(p),
            )
        }
    }
}

/// Assembles the changed-file descriptors of one comparison from the
/// client's raw outputs: the parsed name-status listing, and — when
/// uncommitted changes are included — one untracked-file descriptor per
/// not-yet-seen untracked path.
pub fn get_diff_file_descriptors(
    comparison: &ResolvedComparison,
    tracked_output: &[u8],
    untracked_output: &[u8],
) -> (r: Vec<DiffFileDescriptor>)
    ensures
        !comparison.includes_uncommitted ==> spec_descriptor_models(r@) == spec_parse_name_status(
            spec_null_tokens(tracked_output@),
            FileContentSource::Commit,
            FileContentSource::Commit,
        ),
        comparison.includes_uncommitted ==> spec_descriptor_models(r@) == {
            let parsed = spec_parse_name_status(
                spec_null_tokens(tracked_output@),
                FileContentSource::Commit,
                FileContentSource::WorkingTree,
            );
            parsed + spec_untracked_additions(
                spec_null_tokens(untracked_output@),
                spec_seen_paths(parsed),
            )
        },
{
    if !comparison.includes_uncommitted {
        return parse_diff_name_status_output(
            tracked_output,
            FileContentSource::Commit,
            FileContentSource::Commit,
        );
    }
    let mut descriptors = parse_diff_name_status_output(
        tracked_output,
        FileContentSource::Commit,
        FileContentSource::WorkingTree,
    );
    let ghost parsed = spec_descriptor_models(descriptors@);

    let mut seen_paths: Vec<String> = Vec::new();
    let mut i: usize = 0;
    while i < descriptors.len()
        invariant
            i <= descriptors@.len(),
            spec_descriptor_models(descriptors@) == parsed,
            forall|q: Seq<char>|
                contains_line(seen_paths@, q) <==> (exists|k: int|
                    0 <= k < i && spec_descriptor_key(#[trigger] parsed[k]) == Some(q)),
        decreases descriptors@.len() - i,
    {
        let ghost seen_before = seen_paths@;
        let key = match &descriptors[i].head_path {
            Some(p) => Some(p.clone()),
            None => match &descriptors[i].base_path {
                Some(p) => Some(p.clone()),
                None => None,
            },
        };
        assert(parsed[i as int] == descriptors@[i as int].model());
        match key {
            Some(path) => {
                let ghost path_view = path@;
                seen_paths.push(path);
                assert(spec_descriptor_key(parsed[i as int]) == Some(path_view));
                assert forall|q: Seq<char>|
                    contains_line(seen_paths@, q) <==> (exists|k: int|
                        0 <= k < i + 1 && spec_descriptor_key(#[trigger] parsed[k]) == Some(
                            q,
                        )) by {
                    if contains_line(seen_paths@, q) {
                        let k = choose|k: int|
                            0 <= k < seen_paths@.len() && (#[trigger] seen_paths@[k])@ == q;
                        if k < seen_before.len() {
                            assert(contains_line(seen_before, q));
                        } else {
                            assert(q == path_view);
                            assert(spec_descriptor_key(parsed[i as int]) == Some(q));
                        }
                    }
                    if exists|k: int|
                        0 <= k < i + 1 && spec_descriptor_key(#[trigger] parsed[k]) == Some(q) {
                        let k = choose|k: int|
                            0 <= k < i + 1 && spec_descriptor_key(#[trigger] parsed[k]) == Some(
                                q,
                            );
                        if k < i {
                            assert(contains_line(seen_before, q));
                            let m = choose|m: int|
                                0 <= m < seen_before.len() && (#[trigger] seen_before[m])@ == q;
                            assert(seen_paths@[m]@ == q);
                        } else {
                            assert(seen_paths@[seen_paths@.len() - 1]@ == q);
                        }
                        assert(contains_line(seen_paths@, q));
                    }
                }
            },
            None => {
                assert forall|q: Seq<char>|
                    contains_line(seen_paths@, q) <==> (exists|k: int|
                        0 <= k < i + 1 && spec_descriptor_key(#[trigger] parsed[k]) == Some(
                            q,
                        )) by {
                    if exists|k: int|
                        0 <= k < i + 1 && spec_descriptor_key(#[trigger] parsed[k]) == Some(q) {
                        let k = choose|k: int|
                            0 <= k < i + 1 && spec_descriptor_key(#[trigger] parsed[k]) == Some(
                                q,
                            );
                        assert(k < i);
                    }
                }
            },
        }
        i += 1;
    }
    proof {
        assert forall|q: Seq<char>|
            contains_line(seen_paths@, q) == spec_seen_paths(parsed).contains(q) by {
            assert(spec_seen_paths(parsed).contains(q) == (exists|k: int|
                0 <= k < parsed.len() && spec_descriptor_key(#[trigger] parsed[k]) == Some(q)));
        }
    }

    let untracked_paths = parse_null_separated_list(untracked_output);
    let ghost untracked_views = untracked_paths@.map_values(|p: String| p@);
    let ghost seen0: Set<Seq<char>> = spec_seen_paths(parsed);
    let ghost mut seen_now: Set<Seq<char>> = seen0;
    let mut j: usize = 0;
    assert(untracked_views.skip(0) =~= untracked_views);
    assert(spec_descriptor_models(descriptors@) =~= parsed + Seq::<DescriptorModel>::empty());
    while j < untracked_paths.len()
        invariant
            j <= untracked_paths@.len(),
            untracked_views == untracked_paths@.map_values(|p: String| p@),
            forall|q: Seq<char>| contains_line(seen_paths@, q) == seen_now.contains(q),
            spec_descriptor_models(descriptors@) + spec_untracked_additions(
                untracked_views.skip(j as int),
                seen_now,
            ) == parsed + spec_untracked_additions(untracked_views, seen0),
        decreases untracked_paths@.len() - j,
    {
        let ghost rest = untracked_views.skip(j as int);
        assert(rest[0] == untracked_views[j as int]);
        assert(rest.drop_first() =~= untracked_views.skip(j + 1));
        let untracked_path = &untracked_paths[j];
        let mut already_seen = false;
        let mut m: usize = 0;
        while m < seen_paths.len()
            invariant
                m <= seen_paths@.len(),
                already_seen ==> contains_line(seen_paths@, untracked_path@),
                !already_seen ==> (forall|k: int|
                    0 <= k < m ==> (#[trigger] seen_paths@[k])@ != untracked_path@),
            decreases seen_paths@.len() - m,
        {
            if !already_seen && str_eq_text(seen_paths[m].as_str(), untracked_path.as_str()) {
                already_seen = true;
            }
            m += 1;
        }
        assert(already_seen == contains_line(seen_paths@, untracked_path@));
        if !already_seen {
            let ghost before_models = spec_descriptor_models(descriptors@);
            let descriptor = DiffFileDescriptor {
                raw_status: "??".to_owned(),
                display_path: untracked_path.clone(),
                base_path: None,
                head_path: Some(untracked_path.clone()),
                base_source: FileContentSource::Missing,
                head_source: FileContentSource::WorkingTree,
            };
            descriptors.push(descriptor);
            proof {
                assert(spec_descriptor_models(descriptors@) =~= before_models + seq![
                    spec_untracked_model(untracked_path@),
                ]);
            }
            let ghost seen_prev = seen_now;
            let ghost before_paths = seen_paths@;
            let ghost path_view = untracked_path@;
            seen_paths.push(untracked_path.clone());
            proof {
                seen_now = seen_prev.insert(path_view);
                assert forall|q: Seq<char>|
                    contains_line(seen_paths@, q) == seen_now.contains(q) by {
                    if contains_line(seen_paths@, q) {
                        let k = choose|k: int|
                            0 <= k < seen_paths@.len() && (#[trigger] seen_paths@[k])@ == q;
                        if k < before_paths.len() {
                            assert(before_paths[k]@ == q);
                            assert(contains_line(before_paths, q));
                            assert(seen_prev.contains(q));
                        } else {
                            assert(q == path_view);
                        }
                        assert(seen_now.contains(q));
                    }
                    if seen_now.contains(q) {
                        if q == path_view {
                            assert(seen_paths@[before_paths.len() as int]@ == q);
                            assert(contains_line(seen_paths@, q));
                        } else {
                            assert(seen_prev.contains(q));
                            assert(contains_line(before_paths, q));
                            let k = choose|k: int|
                                0 <= k < before_paths.len() && (#[trigger] before_paths[k])@
                                    == q;
                            assert(seen_paths@[k]@ == q);
                            assert(contains_line(seen_paths@, q));
                        }
                    }
                }
            }
        }
        j += 1;
    }
    assert(untracked_views.skip(untracked_paths@.len() as int) =~= Seq::<Seq<char>>::empty());
    assert(spec_descriptor_models(descriptors@) =~= parsed + spec_untracked_additions(
        untracked_views,
        seen0,
    ));
    descriptors
}

} // verus!
