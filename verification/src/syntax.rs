//! Syntax-name detection for the two panes: pure path dissection (file
//! name, extension, lowercasing) feeding lookups into a syntect syntax
//! set, which is passed in as an explicit context value.

use vstd::prelude::*;
use vstd::string::*;
use syntect::parsing::SyntaxSet;
use crate::text::{spec_trim, str_lt, lemma_str_lt_connected, lemma_str_lt_irrefl};

verus! {

#[verifier::external_type_specification]
#[verifier::external_body]
pub struct ExSyntaxSet(SyntaxSet);

/// What `SyntaxSet::find_syntax_by_token` answers for one token: a
/// function of the set's contents and the token alone.
pub uninterp spec fn syntax_name_for_token(set: SyntaxSet, token: Seq<char>) -> Option<Seq<char>>;

/// What `SyntaxSet::find_syntax_by_extension` answers for one extension.
pub uninterp spec fn syntax_name_for_extension(set: SyntaxSet, extension: Seq<char>) -> Option<
    Seq<char>,
>;

/// What `SyntaxSet::find_syntax_by_name` answers for one exact name.
pub uninterp spec fn syntax_name_exact(set: SyntaxSet, name: Seq<char>) -> Option<Seq<char>>;

/// What `SyntaxSet::find_syntax_by_first_line` answers for one line.
pub uninterp spec fn syntax_name_for_first_line(set: SyntaxSet, line: Seq<char>) -> Option<
    Seq<char>,
>;

/// Every first-line pattern of the set compiles. `find_syntax_by_first_line`
/// compiles the syntaxes' first-line patterns lazily on first use and halts
/// the process on one that does not compile, so first-line lookups are only
/// safe on a set with this property; the constructor below establishes it.
pub uninterp spec fn first_line_rules_ok(set: SyntaxSet) -> bool;

/// Relies on syntect's `SyntaxSet::load_defaults_newlines`: the bundled
/// default syntaxes ship with pre-tested first-line patterns, so first-line
/// lookups on the loaded set cannot halt on a pattern that fails to compile.
/// Public because every caller of the detection cascade, inside the crate or
/// out, must obtain its set from a source that establishes this property.
#[verifier::external_body]
pub fn load_default_syntaxes() -> (r: SyntaxSet)
    ensures
        first_line_rules_ok(r),
{
    SyntaxSet::load_defaults_newlines()
}

/// Relies on syntect's `SyntaxSet::find_syntax_by_token`: a lookup in the
/// set by extension or case-insensitive name, decided by the set's
/// contents and the token alone.
#[verifier::external_body]
fn find_syntax_name_by_token(set: &SyntaxSet, token: &str) -> (r: Option<String>)
    ensures
        (match r {
            Some(name) => syntax_name_for_token(*set, token@) == Some(name@),
            None => syntax_name_for_token(*set, token@) is None,
        }),
{
    set.find_syntax_by_token(token).map(|syntax| syntax.name.clone())
}

/// Relies on syntect's `SyntaxSet::find_syntax_by_extension`: a lookup in
/// the set's extension table.
#[verifier::external_body]
fn find_syntax_name_by_extension(set: &SyntaxSet, extension: &str) -> (r: Option<String>)
    ensures
        (match r {
            Some(name) => syntax_name_for_extension(*set, extension@) == Some(name@),
            None => syntax_name_for_extension(*set, extension@) is None,
        }),
{
    set.find_syntax_by_extension(extension).map(|syntax| syntax.name.clone())
}

/// Relies on syntect's `SyntaxSet::find_syntax_by_name`: an exact-name
/// lookup in the set.
#[verifier::external_body]
fn find_syntax_name_exact(set: &SyntaxSet, name: &str) -> (r: Option<String>)
    ensures
        (match r {
            Some(found) => syntax_name_exact(*set, name@) == Some(found@),
            None => syntax_name_exact(*set, name@) is None,
        }),
{
    set.find_syntax_by_name(name).map(|syntax| syntax.name.clone())
}

/// Relies on syntect's `SyntaxSet::find_syntax_by_first_line`: matches the
/// set's first-line rules (shebangs, mode lines) against one line. The call
/// compiles the set's first-line patterns lazily and halts on one that does
/// not compile, so it demands a set whose patterns are known to compile.
#[verifier::external_body]
fn find_syntax_name_by_first_line(set: &SyntaxSet, line: &str) -> (r: Option<String>)
    requires
        first_line_rules_ok(*set),
    ensures
        (match r {
            Some(name) => syntax_name_for_first_line(*set, line@) == Some(name@),
            None => syntax_name_for_first_line(*set, line@) is None,
        }),
{
    set.find_syntax_by_first_line(line).map(|syntax| syntax.name.clone())
}

/// Whether `a` and `b` hold the same characters.
pub fn str_eq_text(a: &str, b: &str) -> (r: bool)
    ensures
        r == (a@ == b@),
{
    let equal = !str_lt(a, b) && !str_lt(b, a);
    proof {
        if equal {
            lemma_str_lt_connected(a@, b@);
        } else if a@ == b@ {
            lemma_str_lt_irrefl(a@);
        }
    }
    equal
}

/// Index of the last occurrence of `c`.
pub open spec fn spec_rfind_char(s: Seq<char>, c: char) -> Option<int>
    decreases s.len(),
{
    if s.len() == 0 {
        None
    } else if s.last() == c {
        Some(s.len() - 1)
    } else {
        spec_rfind_char(s.drop_last(), c)
    }
}

/// Last occurrence of `c` in `value`.
fn rfind_char(value: &str, c: char) -> (r: Option<usize>)
    ensures
        r == (match spec_rfind_char(value@, c) {
            Some(i) => Some(i as usize),
            None => None::<usize>,
        }),
        (match r {
            Some(i) => i < value@.len(),
            None => true,
        }),
{
    let total = value.unicode_len();
    let mut i: usize = total;
    assert(value@.take(total as int) =~= value@);
    while i > 0
        invariant
            i <= total,
            total == value@.len(),
            spec_rfind_char(value@, c) == spec_rfind_char(value@.take(i as int), c),
        decreases i,
    {
        assert(value@.take(i as int).last() == value@[i - 1]);
        if value.get_char(i - 1) == c {
            return Some(i - 1);
        }
        assert(value@.take(i as int).drop_last() =~= value@.take(i - 1));
        i -= 1;
    }
    assert(value@.take(0) =~= Seq::<char>::empty());
    None
}

/// Where `c` last occurs, it occurs there and nowhere later.
proof fn lemma_rfind_char_bounds(s: Seq<char>, c: char)
    ensures
        (match spec_rfind_char(s, c) {
            Some(i) => 0 <= i < s.len() && s[i] == c,
            None => true,
        }),
    decreases s.len(),
{
    if s.len() > 0 && s.last() != c {
        lemma_rfind_char_bounds(s.drop_last(), c);
        match spec_rfind_char(s.drop_last(), c) {
            Some(i) => {
                assert(s.drop_last()[i] == s[i]);
            },
            None => {},
        }
    }
}

/// `s` without its trailing slashes.
pub open spec fn spec_strip_trailing_slashes(s: Seq<char>) -> Seq<char>
    decreases s.len(),
{
    if s.len() > 0 && s.last() == '/' {
        spec_strip_trailing_slashes(s.drop_last())
    } else {
        s
    }
}

/// The last path component: trailing slashes are ignored, and what follows
/// the last remaining slash is the name; nothing is left of an empty path
/// or one made of slashes alone.
pub open spec fn spec_file_name(path: Seq<char>) -> Option<Seq<char>> {
    let trimmed = spec_strip_trailing_slashes(path);
    let tail = match spec_rfind_char(trimmed, '/') {
        Some(i) => trimmed.skip(i + 1),
        None => trimmed,
    };
    if tail.len() == 0 {
        None
    } else {
        Some(tail)
    }
}

/// The file name of a path: the component after the last slash, trailing
/// slashes ignored; nothing when no component is left.
pub fn file_name_of(path: &str) -> (r: Option<String>)
    ensures
        (match r {
            Some(name) => spec_file_name(path@) == Some(name@),
            None => spec_file_name(path@) is None,
        }),
{
    let total = path.unicode_len();
    let mut end: usize = total;
    assert(path@.take(total as int) =~= path@);
    while end > 0 && path.get_char(end - 1) == '/'
        invariant
            end <= total,
            total == path@.len(),
            spec_strip_trailing_slashes(path@) == spec_strip_trailing_slashes(
                path@.take(end as int),
            ),
        decreases end,
    {
        assert(path@.take(end as int).last() == path@[end - 1]);
        assert(path@.take(end as int).drop_last() =~= path@.take(end - 1));
        end -= 1;
    }
    let ghost trimmed = spec_strip_trailing_slashes(path@);
    proof {
        if end == 0 {
            assert(path@.take(0) =~= Seq::<char>::empty());
        } else {
            assert(path@.take(end as int).last() == path@[end - 1]);
        }
        assert(trimmed == path@.take(end as int));
        lemma_rfind_char_bounds(trimmed, '/');
    }
    if end == 0 {
        return None;
    }
    assert(trimmed.take(end as int) =~= trimmed);
    let mut i: usize = end;
    while i > 0
        invariant
            0 < end <= total,
            i <= end,
            total == path@.len(),
            path@[end - 1] != '/',
            trimmed == path@.take(end as int),
            trimmed == spec_strip_trailing_slashes(path@),
            spec_rfind_char(trimmed, '/') == spec_rfind_char(trimmed.take(i as int), '/'),
        decreases i,
    {
        assert(trimmed.take(i as int).last() == path@[i - 1]);
        if path.get_char(i - 1) == '/' {
            proof {
                lemma_rfind_char_bounds(trimmed, '/');
                assert(spec_rfind_char(trimmed, '/') == Some(i - 1));
                assert(trimmed.last() == path@[end - 1]);
                assert(i < end);
                assert(trimmed.skip(i as int) =~= path@.subrange(i as int, end as int));
                assert(trimmed.skip(i as int).len() == end - i);
                assert(spec_file_name(path@) == Some(trimmed.skip(i as int)));
            }
            let name = path.substring_char(i, end).to_owned();
            return Some(name);
        }
        assert(trimmed.take(i as int).drop_last() =~= trimmed.take(i - 1));
        i -= 1;
    }
    proof {
        assert(trimmed.take(0) =~= Seq::<char>::empty());
        assert(spec_rfind_char(trimmed, '/') is None);
        assert(path@.subrange(0, end as int) =~= trimmed);
    }
    let name = path.substring_char(0, end).to_owned();
    Some(name)
}

/// The extension of a file name: whatever follows the last dot, provided
/// the dot is not the leading character; a dotfile such as `.env` has no
/// extension.
pub open spec fn spec_extension(file_name: Seq<char>) -> Option<Seq<char>> {
    match spec_rfind_char(file_name, '.') {
        Some(i) => if i > 0 {
            Some(file_name.skip(i + 1))
        } else {
            None
        },
        None => None,
    }
}

/// The extension of a file name, if any.
pub fn extension_of(file_name: &str) -> (r: Option<String>)
    ensures
        (match r {
            Some(extension) => spec_extension(file_name@) == Some(extension@),
            None => spec_extension(file_name@) is None,
        }),
{
    let total = file_name.unicode_len();
    proof {
        lemma_rfind_char_bounds(file_name@, '.');
    }
    match rfind_char(file_name, '.') {
        Some(i) => {
            if i > 0 {
                proof {
                    match spec_rfind_char(file_name@, '.') {
                        Some(k) => {
                            assert(k == i as int);
                            assert(file_name@.subrange(k + 1, total as int) =~= file_name@.skip(
                                k + 1,
                            ));
                        },
                        None => {
                            assert(false);
                        },
                    }
                }
                let extension = file_name.substring_char(i + 1, total).to_owned();
                Some(extension)
            } else {
                None
            }
        },
        None => None,
    }
}

/// The extension of a path: the extension of its file name.
pub open spec fn spec_path_extension(path: Seq<char>) -> Option<Seq<char>> {
    match spec_file_name(path) {
        Some(name) => spec_extension(name),
        None => None,
    }
}

/// Lowercasing of one character, ASCII letters only.
pub open spec fn spec_lower_char(c: char) -> char {
    if c == 'A' {
        'a'
    } else if c == 'B' {
        'b'
    } else if c == 'C' {
        'c'
    } else if c == 'D' {
        'd'
    } else if c == 'E' {
        'e'
    } else if c == 'F' {
        'f'
    } else if c == 'G' {
        'g'
    } else if c == 'H' {
        'h'
    } else if c == 'I' {
        'i'
    } else if c == 'J' {
        'j'
    } else if c == 'K' {
        'k'
    } else if c == 'L' {
        'l'
    } else if c == 'M' {
        'm'
    } else if c == 'N' {
        'n'
    } else if c == 'O' {
        'o'
    } else if c == 'P' {
        'p'
    } else if c == 'Q' {
        'q'
    } else if c == 'R' {
        'r'
    } else if c == 'S' {
        's'
    } else if c == 'T' {
        't'
    } else if c == 'U' {
        'u'
    } else if c == 'V' {
        'v'
    } else if c == 'W' {
        'w'
    } else if c == 'X' {
        'x'
    } else if c == 'Y' {
        'y'
    } else if c == 'Z' {
        'z'
    } else {
        c
    }
}

/// ASCII lowercasing of a character sequence.
pub open spec fn spec_ascii_lower(s: Seq<char>) -> Seq<char> {
    s.map_values(|c: char| spec_lower_char(c))
}

/// One lowered ASCII letter as text.
fn lower_letter_str(c: char) -> (r: &'static str)
    requires
        'A' <= c && c <= 'Z',
    ensures
        r@ == seq![spec_lower_char(c)],
{
    if c == 'A' {
        proof {
            reveal_strlit("a");
        }
        "a"
    } else if c == 'B' {
        proof {
            reveal_strlit("b");
        }
        "b"
    } else if c == 'C' {
        proof {
            reveal_strlit("c");
        }
        "c"
    } else if c == 'D' {
        proof {
            reveal_strlit("d");
        }
        "d"
    } else if c == 'E' {
        proof {
            reveal_strlit("e");
        }
        "e"
    } else if c == 'F' {
        proof {
            reveal_strlit("f");
        }
        "f"
    } else if c == 'G' {
        proof {
            reveal_strlit("g");
        }
        "g"
    } else if c == 'H' {
        proof {
            reveal_strlit("h");
        }
        "h"
    } else if c == 'I' {
        proof {
            reveal_strlit("i");
        }
        "i"
    } else if c == 'J' {
        proof {
            reveal_strlit("j");
        }
        "j"
    } else if c == 'K' {
        proof {
            reveal_strlit("k");
        }
        "k"
    } else if c == 'L' {
        proof {
            reveal_strlit("l");
        }
        "l"
    } else if c == 'M' {
        proof {
            reveal_strlit("m");
        }
        "m"
    } else if c == 'N' {
        proof {
            reveal_strlit("n");
        }
        "n"
    } else if c == 'O' {
        proof {
            reveal_strlit("o");
        }
        "o"
    } else if c == 'P' {
        proof {
            reveal_strlit("p");
        }
        "p"
    } else if c == 'Q' {
        proof {
            reveal_strlit("q");
        }
        "q"
    } else if c == 'R' {
        proof {
            reveal_strlit("r");
        }
        "r"
    } else if c == 'S' {
        proof {
            reveal_strlit("s");
        }
        "s"
    } else if c == 'T' {
        proof {
            reveal_strlit("t");
        }
        "t"
    } else if c == 'U' {
        proof {
            reveal_strlit("u");
        }
        "u"
    } else if c == 'V' {
        proof {
            reveal_strlit("v");
        }
        "v"
    } else if c == 'W' {
        proof {
            reveal_strlit("w");
        }
        "w"
    } else if c == 'X' {
        proof {
            reveal_strlit("x");
        }
        "x"
    } else if c == 'Y' {
        proof {
            reveal_strlit("y");
        }
        "y"
    } else {
        proof {
            reveal_strlit("z");
        }
        "z"
    }
}

/// ASCII-lowercases `value`.
pub fn ascii_lower(value: &str) -> (r: String)
    ensures
        r@ == spec_ascii_lower(value@),
{
    let total = value.unicode_len();
    let mut r = String::new();
    let mut i: usize = 0;
    assert(r@ =~= spec_ascii_lower(value@.take(0)));
    while i < total
        invariant
            i <= total,
            total == value@.len(),
            r@ == spec_ascii_lower(value@.take(i as int)),
        decreases total - i,
    {
        let c = value.get_char(i);
        if 'A' <= c && c <= 'Z' {
            r.append(lower_letter_str(c));
        } else {
            let piece = value.substring_char(i, i + 1);
            r.append(piece);
            assert(piece@ =~= seq![c]);
        }
        assert(r@ =~= spec_ascii_lower(value@.take(i + 1)));
        i += 1;
    }
    assert(value@.take(total as int) =~= value@);
    r
}

/// A dotenv-style file name: exactly `.env`, or `.env.` with any suffix.
pub open spec fn spec_is_dotenv_file_name(s: Seq<char>) -> bool {
    s == ".env"@ || (s.len() >= 5 && s.subrange(0, 5) == ".env."@)
}

/// Whether an already lowercased file name is dotenv-style.
pub fn is_dotenv_file_name(file_name_lower: &str) -> (r: bool)
    ensures
        r == spec_is_dotenv_file_name(file_name_lower@),
{
    proof {
        reveal_strlit(".env");
        reveal_strlit(".env.");
    }
    let total = file_name_lower.unicode_len();
    if total == 4 {
        let matched = file_name_lower.get_char(0) == '.' && file_name_lower.get_char(1) == 'e'
            && file_name_lower.get_char(2) == 'n' && file_name_lower.get_char(3) == 'v';
        proof {
            if matched {
                assert(file_name_lower@ =~= ".env"@);
            } else {
                if file_name_lower@ == ".env"@ {
                    assert(file_name_lower@[0] == '.' && file_name_lower@[1] == 'e'
                        && file_name_lower@[2] == 'n' && file_name_lower@[3] == 'v');
                    assert(false);
                }
            }
        }
        matched
    } else if total >= 5 {
        let matched = file_name_lower.get_char(0) == '.' && file_name_lower.get_char(1) == 'e'
            && file_name_lower.get_char(2) == 'n' && file_name_lower.get_char(3) == 'v'
            && file_name_lower.get_char(4) == '.';
        proof {
            if matched {
                assert(file_name_lower@.subrange(0, 5) =~= ".env."@);
            } else {
                let prefix = file_name_lower@.subrange(0, 5);
                if prefix == ".env."@ {
                    assert(file_name_lower@[0] == prefix[0] && file_name_lower@[1] == prefix[1]
                        && file_name_lower@[2] == prefix[2] && file_name_lower@[3] == prefix[3]
                        && file_name_lower@[4] == prefix[4]);
                    assert(false);
                }
            }
        }
        matched
    } else {
        proof {
            assert(file_name_lower@.len() != ".env"@.len());
        }
        false
    }
}

/// The first line that is not blank after trimming, else the first line.
pub open spec fn spec_first_nonblank(lines: Seq<Seq<char>>) -> Option<Seq<char>>
    decreases lines.len(),
{
    if lines.len() == 0 {
        None
    } else if spec_trim(lines[0]).len() > 0 {
        Some(lines[0])
    } else {
        spec_first_nonblank(lines.drop_first())
    }
}

/// The line handed to first-line detection: the first non-blank line, or
/// the first line when all are blank, or nothing for no lines.
pub open spec fn spec_probe_line(lines: Seq<Seq<char>>) -> Option<Seq<char>> {
    match spec_first_nonblank(lines) {
        Some(line) => Some(line),
        None => if lines.len() > 0 {
            Some(lines[0])
        } else {
            None
        },
    }
}

/// The detection cascade: dotenv names first, then token and extension
/// lookups on the file name and its lowercase form, then the path's
/// extension, and as a last resort the first non-blank line.
pub open spec fn spec_detect_syntax_name(
    set: SyntaxSet,
    file_path: Option<Seq<char>>,
    lines: Seq<Seq<char>>,
) -> Option<Seq<char>> {
    let by_path: Option<Seq<char>> = match file_path {
        Some(path) => {
            let by_name: Option<Seq<char>> = match spec_file_name(path) {
                Some(name) => {
                    let lower = spec_ascii_lower(name);
                    let by_dotenv: Option<Seq<char>> = if spec_is_dotenv_file_name(lower) {
                        if syntax_name_exact(set, "Dotenv (deff)"@) is Some {
                            syntax_name_exact(set, "Dotenv (deff)"@)
                        } else if syntax_name_for_token(set, "dotenv"@) is Some {
                            syntax_name_for_token(set, "dotenv"@)
                        } else {
                            syntax_name_for_extension(set, "env"@)
                        }
                    } else {
                        None
                    };
                    if by_dotenv is Some {
                        by_dotenv
                    } else if syntax_name_for_token(set, name) is Some {
                        syntax_name_for_token(set, name)
                    } else if syntax_name_for_token(set, lower) is Some {
                        syntax_name_for_token(set, lower)
                    } else if spec_extension(name) is None {
                        if syntax_name_for_extension(set, name) is Some {
                            syntax_name_for_extension(set, name)
                        } else {
                            syntax_name_for_extension(set, lower)
                        }
                    } else {
                        None
                    }
                },
                None => None,
            };
            if by_name is Some {
                by_name
            } else {
                match spec_path_extension(path) {
                    Some(extension) => if syntax_name_for_extension(set, extension) is Some {
                        syntax_name_for_extension(set, extension)
                    } else {
                        syntax_name_for_extension(set, spec_ascii_lower(extension))
                    },
                    None => None,
                }
            }
        },
        None => None,
    };
    if by_path is Some {
        by_path
    } else {
        match spec_probe_line(lines) {
            Some(line) => syntax_name_for_first_line(set, line),
            None => None,
        }
    }
}

/// Index of the first line that is not blank after trimming.
fn first_nonblank_index(lines: &Vec<String>) -> (r: Option<usize>)
    ensures
        (match r {
            Some(k) => k < lines@.len() && spec_first_nonblank(lines@.map_values(|l: String| l@))
                == Some(lines@[k as int]@),
            None => spec_first_nonblank(lines@.map_values(|l: String| l@)) is None,
        }),
{
    let ghost line_views = lines@.map_values(|l: String| l@);
    assert(line_views.skip(0) =~= line_views);
    let mut i: usize = 0;
    while i < lines.len()
        invariant
            i <= lines@.len(),
            line_views == lines@.map_values(|l: String| l@),
            spec_first_nonblank(line_views) == spec_first_nonblank(line_views.skip(i as int)),
        decreases lines@.len() - i,
    {
        let trimmed = crate::text::trim_spaces(lines[i].as_str());
        assert(line_views.skip(i as int)[0] == line_views[i as int]);
        if trimmed.as_str().unicode_len() > 0 {
            return Some(i);
        }
        assert(line_views.skip(i as int).drop_first() =~= line_views.skip(i + 1));
        i += 1;
    }
    assert(line_views.skip(line_views.len() as int) =~= Seq::<Seq<char>>::empty());
    None
}

/// Detects the syntax name for one pane: dotenv file names get the dotenv
/// grammar, then the file name is tried as a token (exactly and
/// lowercased), an extensionless name as an extension, then the path's
/// extension (exactly and lowercased), and finally the first non-blank
/// line is matched against first-line rules.
pub fn detect_syntax_name(syntaxes: &SyntaxSet, file_path: Option<&str>, lines: &Vec<String>) -> (r:
    Option<String>)
    requires
        first_line_rules_ok(*syntaxes),
    ensures
        (match r {
            Some(name) => spec_detect_syntax_name(
                *syntaxes,
                (match file_path {
                    Some(p) => Some(p@),
                    None => None,
                }),
                lines@.map_values(|l: String| l@),
            ) == Some(name@),
            None => spec_detect_syntax_name(
                *syntaxes,
                (match file_path {
                    Some(p) => Some(p@),
                    None => None,
                }),
                lines@.map_values(|l: String| l@),
            ) is None,
        }),
{
    if let Some(path) = file_path {
        if let Some(file_name) = file_name_of(path) {
            let file_name_lower = ascii_lower(file_name.as_str());
            if is_dotenv_file_name(file_name_lower.as_str()) {
                if let Some(name) = find_syntax_name_exact(syntaxes, "Dotenv (deff)") {
                    return Some(name);
                }
                if let Some(name) = find_syntax_name_by_token(syntaxes, "dotenv") {
                    return Some(name);
                }
                if let Some(name) = find_syntax_name_by_extension(syntaxes, "env") {
                    return Some(name);
                }
            }
            if let Some(name) = find_syntax_name_by_token(syntaxes, file_name.as_str()) {
                return Some(name);
            }
            if let Some(name) = find_syntax_name_by_token(syntaxes, file_name_lower.as_str()) {
                return Some(name);
            }
            let has_extension = match extension_of(file_name.as_str()) {
                Some(_) => true,
                None => false,
            };
            if !has_extension {
                if let Some(name) = find_syntax_name_by_extension(syntaxes, file_name.as_str()) {
                    return Some(name);
                }
                if let Some(name) = find_syntax_name_by_extension(
                    syntaxes,
                    file_name_lower.as_str(),
                ) {
                    return Some(name);
                }
            }
        }
        let path_extension = match file_name_of(path) {
            Some(name) => extension_of(name.as_str()),
            None => None,
        };
        if let Some(extension) = path_extension {
            if let Some(name) = find_syntax_name_by_extension(syntaxes, extension.as_str()) {
                return Some(name);
            }
            let extension_lower = ascii_lower(extension.as_str());
            if let Some(name) = find_syntax_name_by_extension(syntaxes, extension_lower.as_str()) {
                return Some(name);
            }
        }
    }
    let probe_index = match first_nonblank_index(lines) {
        Some(k) => k,
        None => {
            if lines.len() > 0 {
                0
            } else {
                return None;
            }
        },
    };
    find_syntax_name_by_first_line(syntaxes, lines[probe_index].as_str())
}


/// The language token for a known file extension.
pub open spec fn spec_extension_to_language(extension: Seq<char>) -> Option<Seq<char>> {
    if extension == "c"@ {
        Some("c"@)
    } else if extension == "cc"@ {
        Some("cpp"@)
    } else if extension == "cjs"@ {
        Some("javascript"@)
    } else if extension == "cpp"@ {
        Some("cpp"@)
    } else if extension == "css"@ {
        Some("css"@)
    } else if extension == "go"@ {
        Some("go"@)
    } else if extension == "h"@ {
        Some("c"@)
    } else if extension == "hpp"@ {
        Some("cpp"@)
    } else if extension == "htm"@ {
        Some("html"@)
    } else if extension == "html"@ {
        Some("html"@)
    } else if extension == "java"@ {
        Some("java"@)
    } else if extension == "js"@ {
        Some("javascript"@)
    } else if extension == "json"@ {
        Some("json"@)
    } else if extension == "jsx"@ {
        Some("jsx"@)
    } else if extension == "md"@ {
        Some("markdown"@)
    } else if extension == "mjs"@ {
        Some("javascript"@)
    } else if extension == "py"@ {
        Some("python"@)
    } else if extension == "rb"@ {
        Some("ruby"@)
    } else if extension == "rs"@ {
        Some("rust"@)
    } else if extension == "scss"@ {
        Some("scss"@)
    } else if extension == "sh"@ {
        Some("bash"@)
    } else if extension == "sql"@ {
        Some("sql"@)
    } else if extension == "ts"@ {
        Some("typescript"@)
    } else if extension == "tsx"@ {
        Some("tsx"@)
    } else if extension == "xml"@ {
        Some("xml"@)
    } else if extension == "yaml"@ {
        Some("yaml"@)
    } else if extension == "yml"@ {
        Some("yaml"@)
    } else if extension == "zsh"@ {
        Some("bash"@)
    } else {
        None
    }
}

/// Maps a lowercased file extension to a language token.
pub fn extension_to_language(extension: &str) -> (r: Option<&'static str>)
    ensures
        (match r {
            Some(language) => spec_extension_to_language(extension@) == Some(language@),
            None => spec_extension_to_language(extension@) is None,
        }),
{
    if str_eq_text(extension, "c") {
        Some("c")
    } else if str_eq_text(extension, "cc") {
        Some("cpp")
    } else if str_eq_text(extension, "cjs") {
        Some("javascript")
    } else if str_eq_text(extension, "cpp") {
        Some("cpp")
    } else if str_eq_text(extension, "css") {
        Some("css")
    } else if str_eq_text(extension, "go") {
        Some("go")
    } else if str_eq_text(extension, "h") {
        Some("c")
    } else if str_eq_text(extension, "hpp") {
        Some("cpp")
    } else if str_eq_text(extension, "htm") {
        Some("html")
    } else if str_eq_text(extension, "html") {
        Some("html")
    } else if str_eq_text(extension, "java") {
        Some("java")
    } else if str_eq_text(extension, "js") {
        Some("javascript")
    } else if str_eq_text(extension, "json") {
        Some("json")
    } else if str_eq_text(extension, "jsx") {
        Some("jsx")
    } else if str_eq_text(extension, "md") {
        Some("markdown")
    } else if str_eq_text(extension, "mjs") {
        Some("javascript")
    } else if str_eq_text(extension, "py") {
        Some("python")
    } else if str_eq_text(extension, "rb") {
        Some("ruby")
    } else if str_eq_text(extension, "rs") {
        Some("rust")
    } else if str_eq_text(extension, "scss") {
        Some("scss")
    } else if str_eq_text(extension, "sh") {
        Some("bash")
    } else if str_eq_text(extension, "sql") {
        Some("sql")
    } else if str_eq_text(extension, "ts") {
        Some("typescript")
    } else if str_eq_text(extension, "tsx") {
        Some("tsx")
    } else if str_eq_text(extension, "xml") {
        Some("xml")
    } else if str_eq_text(extension, "yaml") {
        Some("yaml")
    } else if str_eq_text(extension, "yml") {
        Some("yaml")
    } else if str_eq_text(extension, "zsh") {
        Some("bash")
    } else {
        None
    }
}

/// The language token for a path: `dockerfile` for any Dockerfile, else
/// the extension's language.
pub open spec fn spec_get_language_for_path(path: Option<Seq<char>>) -> Option<Seq<char>> {
    match path {
        None => None,
        Some(p) => match spec_file_name(p) {
            None => None,
            Some(name) => if spec_ascii_lower(name) == "dockerfile"@ {
                Some("dockerfile"@)
            } else {
                match spec_extension(name) {
                    None => None,
                    Some(extension) => spec_extension_to_language(spec_ascii_lower(extension)),
                }
            },
        },
    }
}

/// Maps a path to a language token by its file name or lowercased
/// extension.
pub fn get_language_for_path(file_path: Option<&str>) -> (r: Option<String>)
    ensures
        (match r {
            Some(language) => spec_get_language_for_path(
                (match file_path {
                    Some(p) => Some(p@),
                    None => None,
                }),
            ) == Some(language@),
            None => spec_get_language_for_path(
                (match file_path {
                    Some(p) => Some(p@),
                    None => None,
                }),
            ) is None,
        }),
{
    let path = match file_path {
        Some(p) => p,
        None => {
            return None;
        },
    };
    let file_name = match file_name_of(path) {
        Some(name) => name,
        None => {
            return None;
        },
    };
    let file_name_lower = ascii_lower(file_name.as_str());
    if str_eq_text(file_name_lower.as_str(), "dockerfile") {
        return Some("dockerfile".to_owned());
    }
    let extension = match extension_of(file_name.as_str()) {
        Some(extension) => extension,
        None => {
            return None;
        },
    };
    let extension_lower = ascii_lower(extension.as_str());
    match extension_to_language(extension_lower.as_str()) {
        Some(language) => Some(language.to_owned()),
        None => None,
    }
}

} // verus!
