//! Content-addressed review tracking: a stable fingerprint over a file's
//! identity and exact line content, a scope key isolating one comparison's
//! reviewed set from every other, and the reviewed-set store itself.

use vstd::prelude::*;
use vstd::string::*;
use crate::model::{DiffFileDescriptor, DiffFileView, ResolvedComparison, StrategyId};
use crate::text::{spec_str_lt, spec_trim, spec_split_text_lines, str_lt, trim_spaces,
    split_text_lines, lemma_str_lt_irrefl, lemma_str_lt_connected, lemma_str_lt_trans};

verus! {

pub const FNV_OFFSET_BASIS: u64 = 0xcbf29ce484222325;

pub const FNV_PRIME: u64 = 0x100000001b3;

/// One step of the 64-bit FNV-1a round: fold a byte in, multiply by the
/// prime with wrap-around.
pub open spec fn spec_fnv_step(state: u64, byte: u8) -> u64 {
    (state ^ (byte as u64)).wrapping_mul(FNV_PRIME)
}

/// The hasher state after absorbing `bytes`.
pub open spec fn spec_fnv_bytes(state: u64, bytes: Seq<u8>) -> u64
    decreases bytes.len(),
{
    if bytes.len() == 0 {
        state
    } else {
        spec_fnv_step(spec_fnv_bytes(state, bytes.drop_last()), bytes.last())
    }
}

/// The hasher state after absorbing a string: its UTF-8 bytes followed by
/// a zero terminator, so distinct field sequences never run together.
pub open spec fn spec_fnv_write_str(state: u64, s: Seq<char>) -> u64 {
    spec_fnv_step(spec_fnv_bytes(state, vstd::utf8::encode_utf8(s)), 0u8)
}

/// The character for one hexadecimal digit.
pub open spec fn spec_hex_char(d: int) -> char {
    if d < 10 {
        crate::render::spec_digit_char(d)
    } else if d == 10 {
        'a'
    } else if d == 11 {
        'b'
    } else if d == 12 {
        'c'
    } else if d == 13 {
        'd'
    } else if d == 14 {
        'e'
    } else {
        'f'
    }
}

/// `v` as sixteen hexadecimal digits, most significant first.
pub open spec fn spec_u64_hex(v: u64) -> Seq<char> {
    seq![
        spec_hex_char(((v / 0x1000000000000000) % 16) as int),
        spec_hex_char(((v / 0x100000000000000) % 16) as int),
        spec_hex_char(((v / 0x10000000000000) % 16) as int),
        spec_hex_char(((v / 0x1000000000000) % 16) as int),
        spec_hex_char(((v / 0x100000000000) % 16) as int),
        spec_hex_char(((v / 0x10000000000) % 16) as int),
        spec_hex_char(((v / 0x1000000000) % 16) as int),
        spec_hex_char(((v / 0x100000000) % 16) as int),
        spec_hex_char(((v / 0x10000000) % 16) as int),
        spec_hex_char(((v / 0x1000000) % 16) as int),
        spec_hex_char(((v / 0x100000) % 16) as int),
        spec_hex_char(((v / 0x10000) % 16) as int),
        spec_hex_char(((v / 0x1000) % 16) as int),
        spec_hex_char(((v / 0x100) % 16) as int),
        spec_hex_char(((v / 0x10) % 16) as int),
        spec_hex_char((v % 16) as int),
    ]
}

/// One hexadecimal digit as text.
fn hex_str(d: u64) -> (r: &'static str)
    requires
        d < 16,
    ensures
        r@ == seq![spec_hex_char(d as int)],
{
    if d == 0 {
        proof {
            reveal_strlit("0");
        }
        "0"
    } else if d == 1 {
        proof {
            reveal_strlit("1");
        }
        "1"
    } else if d == 2 {
        proof {
            reveal_strlit("2");
        }
        "2"
    } else if d == 3 {
        proof {
            reveal_strlit("3");
        }
        "3"
    } else if d == 4 {
        proof {
            reveal_strlit("4");
        }
        "4"
    } else if d == 5 {
        proof {
            reveal_strlit("5");
        }
        "5"
    } else if d == 6 {
        proof {
            reveal_strlit("6");
        }
        "6"
    } else if d == 7 {
        proof {
            reveal_strlit("7");
        }
        "7"
    } else if d == 8 {
        proof {
            reveal_strlit("8");
        }
        "8"
    } else if d == 9 {
        proof {
            reveal_strlit("9");
        }
        "9"
    } else if d == 10 {
        proof {
            reveal_strlit("a");
        }
        "a"
    } else if d == 11 {
        proof {
            reveal_strlit("b");
        }
        "b"
    } else if d == 12 {
        proof {
            reveal_strlit("c");
        }
        "c"
    } else if d == 13 {
        proof {
            reveal_strlit("d");
        }
        "d"
    } else if d == 14 {
        proof {
            reveal_strlit("e");
        }
        "e"
    } else {
        proof {
            reveal_strlit("f");
        }
        "f"
    }
}

/// A deterministic 64-bit FNV-1a hasher: the same byte sequence always
/// yields the same state, in every process and on every run, which is what
/// lets persisted review marks survive across sessions.
pub struct StableHasher {
    pub state: u64,
}

impl StableHasher {
    pub fn new() -> (r: Self)
        ensures
            r.state == FNV_OFFSET_BASIS,
    {
        StableHasher { state: FNV_OFFSET_BASIS }
    }

    /// Absorbs one byte.
    pub fn write_byte(&mut self, byte: u8)
        ensures
            final(self).state == spec_fnv_step(old(self).state, byte),
    {
        self.state = (self.state ^ (byte as u64)).wrapping_mul(FNV_PRIME);
    }

    /// Absorbs a byte slice.
    pub fn write_bytes(&mut self, bytes: &[u8])
        ensures
            final(self).state == spec_fnv_bytes(old(self).state, bytes@),
    {
        let ghost orig = self.state;
        let mut i: usize = 0;
        while i < bytes.len()
            invariant
                i <= bytes@.len(),
                self.state == spec_fnv_bytes(orig, bytes@.take(i as int)),
            decreases bytes@.len() - i,
        {
            assert(bytes@.take(i + 1).drop_last() =~= bytes@.take(i as int));
            self.write_byte(bytes[i]);
            i += 1;
        }
        assert(bytes@.take(bytes@.len() as int) =~= bytes@);
    }

    /// Absorbs a string: its UTF-8 bytes and a zero terminator.
    pub fn write_str(&mut self, value: &str)
        ensures
            final(self).state == spec_fnv_write_str(old(self).state, value@),
    {
        self.write_bytes(value.as_bytes());
        self.write_byte(0);
    }

    /// The state as sixteen lowercase hexadecimal digits.
    pub fn finish_hex(&self) -> (r: String)
        ensures
            r@ == spec_u64_hex(self.state),
    {
        let v = self.state;
        let mut r = String::new();
        r.append(hex_str((v / 0x1000000000000000) % 16));
        r.append(hex_str((v / 0x100000000000000) % 16));
        r.append(hex_str((v / 0x10000000000000) % 16));
        r.append(hex_str((v / 0x1000000000000) % 16));
        r.append(hex_str((v / 0x100000000000) % 16));
        r.append(hex_str((v / 0x10000000000) % 16));
        r.append(hex_str((v / 0x1000000000) % 16));
        r.append(hex_str((v / 0x100000000) % 16));
        r.append(hex_str((v / 0x10000000) % 16));
        r.append(hex_str((v / 0x1000000) % 16));
        r.append(hex_str((v / 0x100000) % 16));
        r.append(hex_str((v / 0x10000) % 16));
        r.append(hex_str((v / 0x1000) % 16));
        r.append(hex_str((v / 0x100) % 16));
        r.append(hex_str((v / 0x10) % 16));
        r.append(hex_str(v % 16));
        assert(r@ =~= spec_u64_hex(v));
        r
    }
}

/// The hasher state after absorbing every line of `lines`, each preceded
/// by the side tag.
pub open spec fn spec_fnv_tagged_lines(state: u64, tag: Seq<char>, lines: Seq<Seq<char>>) -> u64
    decreases lines.len(),
{
    if lines.len() == 0 {
        state
    } else {
        spec_fnv_write_str(
            spec_fnv_write_str(spec_fnv_tagged_lines(state, tag, lines.drop_last()), tag),
            lines.last(),
        )
    }
}

/// The review fingerprint of one file: a digest over, in fixed order, the
/// status code, display path, base and head paths (empty when absent), and
/// every line of both panes, left lines tagged `L` and right lines `R`.
pub open spec fn spec_review_key(
    d: crate::model::DescriptorModel,
    left_lines: Seq<Seq<char>>,
    right_lines: Seq<Seq<char>>,
) -> Seq<char> {
    let s0 = spec_fnv_write_str(FNV_OFFSET_BASIS as u64, d.raw_status);
    let s1 = spec_fnv_write_str(s0, d.display_path);
    let s2 = spec_fnv_write_str(
        s1,
        match d.base_path {
            Some(p) => p,
            None => Seq::empty(),
        },
    );
    let s3 = spec_fnv_write_str(
        s2,
        match d.head_path {
            Some(p) => p,
            None => Seq::empty(),
        },
    );
    let s4 = spec_fnv_tagged_lines(s3, "L"@, left_lines);
    let s5 = spec_fnv_tagged_lines(s4, "R"@, right_lines);
    spec_u64_hex(s5)
}

/// The views of a sequence of owned lines.
pub open spec fn spec_line_views(lines: Seq<String>) -> Seq<Seq<char>> {
    lines.map_values(|l: String| l@)
}

/// Computes the review fingerprint of one file. The key is a pure digest
/// of the descriptor fields and the exact line content, so identical
/// inputs always reproduce the identical key, across processes and runs,
/// and any content change yields a key computed from the new content.
pub fn compute_review_key(
    descriptor: &DiffFileDescriptor,
    left_lines: &Vec<String>,
    right_lines: &Vec<String>,
) -> (r: String)
    ensures
        r@ == spec_review_key(
            descriptor.model(),
            spec_line_views(left_lines@),
            spec_line_views(right_lines@),
        ),
{
    let mut hasher = StableHasher::new();
    hasher.write_str(descriptor.raw_status.as_str());
    hasher.write_str(descriptor.display_path.as_str());
    match &descriptor.base_path {
        Some(path) => hasher.write_str(path.as_str()),
        None => hasher.write_str(""),
    }
    match &descriptor.head_path {
        Some(path) => hasher.write_str(path.as_str()),
        None => hasher.write_str(""),
    }
    proof {
        reveal_strlit("");
        assert(""@ =~= Seq::<char>::empty());
    }
    let ghost s3 = hasher.state;
    let mut i: usize = 0;
    while i < left_lines.len()
        invariant
            i <= left_lines@.len(),
            hasher.state == spec_fnv_tagged_lines(
                s3,
                "L"@,
                spec_line_views(left_lines@.take(i as int)),
            ),
        decreases left_lines@.len() - i,
    {
        hasher.write_str("L");
        hasher.write_str(left_lines[i].as_str());
        proof {
            assert(spec_line_views(left_lines@.take(i + 1)).drop_last() =~= spec_line_views(
                left_lines@.take(i as int),
            ));
        }
        i += 1;
    }
    assert(left_lines@.take(left_lines@.len() as int) =~= left_lines@);
    let ghost s4 = hasher.state;
    let mut j: usize = 0;
    while j < right_lines.len()
        invariant
            j <= right_lines@.len(),
            hasher.state == spec_fnv_tagged_lines(
                s4,
                "R"@,
                spec_line_views(right_lines@.take(j as int)),
            ),
        decreases right_lines@.len() - j,
    {
        hasher.write_str("R");
        hasher.write_str(right_lines[j].as_str());
        proof {
            assert(spec_line_views(right_lines@.take(j + 1)).drop_last() =~= spec_line_views(
                right_lines@.take(j as int),
            ));
        }
        j += 1;
    }
    assert(right_lines@.take(right_lines@.len() as int) =~= right_lines@);
    hasher.finish_hex()
}

/// The fingerprint is a pure function of descriptor fields and line
/// content: two files that agree on those, character for character, get
/// the identical key.
pub proof fn lemma_review_key_deterministic(
    d1: DiffFileDescriptor,
    d2: DiffFileDescriptor,
    left1: Seq<String>,
    left2: Seq<String>,
    right1: Seq<String>,
    right2: Seq<String>,
)
    requires
        d1.model() == d2.model(),
        left1.len() == left2.len(),
        forall|k: int| 0 <= k < left1.len() ==> (#[trigger] left1[k])@ == left2[k]@,
        right1.len() == right2.len(),
        forall|k: int| 0 <= k < right1.len() ==> (#[trigger] right1[k])@ == right2[k]@,
    ensures
        spec_review_key(d1.model(), spec_line_views(left1), spec_line_views(right1))
            == spec_review_key(d2.model(), spec_line_views(left2), spec_line_views(right2)),
{
    assert(spec_line_views(left1) =~= spec_line_views(left2));
    assert(spec_line_views(right1) =~= spec_line_views(right2));
}

/// The scope key of one comparison: a digest over the strategy, the two
/// references, and whether uncommitted changes are folded in, so reviewed
/// sets of different comparisons never collide.
pub open spec fn spec_scope_key(c: ResolvedComparison) -> Seq<char> {
    let s0 = spec_fnv_write_str(
        FNV_OFFSET_BASIS as u64,
        crate::model::spec_strategy_label(c.strategy_id),
    );
    let s1 = spec_fnv_write_str(s0, c.base_ref@);
    let s2 = spec_fnv_write_str(s1, c.head_ref@);
    let s3 = spec_fnv_write_str(
        s2,
        if c.includes_uncommitted {
            "uncommitted"@
        } else {
            "committed"@
        },
    );
    spec_u64_hex(s3)
}

/// Computes the digest that names one comparison's review-state file.
pub fn comparison_scope_key(comparison: &ResolvedComparison) -> (r: String)
    ensures
        r@ == spec_scope_key(*comparison),
{
    let mut hasher = StableHasher::new();
    hasher.write_str(crate::model::strategy_label(comparison.strategy_id));
    hasher.write_str(comparison.base_ref.as_str());
    hasher.write_str(comparison.head_ref.as_str());
    hasher.write_str(
        if comparison.includes_uncommitted {
            "uncommitted"
        } else {
            "committed"
        },
    );
    hasher.finish_hex()
}

/// `x` occurs among the views of `lines`.
pub open spec fn contains_line(lines: Seq<String>, x: Seq<char>) -> bool {
    exists|k: int| 0 <= k < lines.len() && (#[trigger] lines[k])@ == x
}

/// The set of fingerprints a store holds.
pub open spec fn spec_key_set(lines: Seq<String>) -> Set<Seq<char>> {
    Set::new(|x: Seq<char>| contains_line(lines, x))
}

/// Strictly sorted in lexicographic order, hence duplicate-free.
pub open spec fn sorted_lines(lines: Seq<String>) -> bool {
    forall|i: int, j: int|
        0 <= i < j < lines.len() ==> spec_str_lt((#[trigger] lines[i])@, (#[trigger] lines[j])@)
}

/// Whether `key` occurs among the views of `lines`.
fn contains_key(lines: &Vec<String>, key: &str) -> (r: bool)
    ensures
        r == contains_line(lines@, key@),
{
    let mut i: usize = 0;
    while i < lines.len()
        invariant
            i <= lines@.len(),
            forall|k: int| 0 <= k < i ==> (#[trigger] lines@[k])@ != key@,
        decreases lines@.len() - i,
    {
        if lines[i].as_str().unicode_len() == key.unicode_len() && !str_lt(
            lines[i].as_str(),
            key,
        ) && !str_lt(key, lines[i].as_str()) {
            proof {
                lemma_str_lt_connected(lines@[i as int]@, key@);
            }
            return true;
        }
        proof {
            if lines@[i as int]@ == key@ {
                lemma_str_lt_irrefl(key@);
            }
        }
        i += 1;
    }
    false
}

/// Inserts `value` into a sorted, duplicate-free line set; inserting a
/// present value changes nothing.
fn insert_sorted_line(lines: &mut Vec<String>, value: String)
    requires
        sorted_lines(old(lines)@),
    ensures
        sorted_lines(final(lines)@),
        spec_key_set(final(lines)@) == spec_key_set(old(lines)@).insert(value@),
{
    let ghost orig = lines@;
    let mut i: usize = 0;
    while i < lines.len() && str_lt(lines[i].as_str(), value.as_str())
        invariant
            i <= lines@.len(),
            lines@ == orig,
            forall|k: int| 0 <= k < i ==> spec_str_lt((#[trigger] orig[k])@, value@),
        decreases lines@.len() - i,
    {
        i += 1;
    }
    if i < lines.len() {
        let same = !str_lt(value.as_str(), lines[i].as_str());
        if same {
            proof {
                lemma_str_lt_connected(orig[i as int]@, value@);
                assert(orig[i as int]@ == value@);
                assert(contains_line(orig, value@));
                assert forall|x: Seq<char>|
                    spec_key_set(lines@).contains(x) == spec_key_set(orig).insert(
                        value@,
                    ).contains(x) by {
                    assert(spec_key_set(lines@).contains(x) == contains_line(lines@, x));
                    assert(spec_key_set(orig).contains(x) == contains_line(orig, x));
                }
                assert(spec_key_set(lines@) =~= spec_key_set(orig).insert(value@));
            }
            return;
        }
    }
    assert(i == lines@.len() || spec_str_lt(value@, orig[i as int]@));
    lines.insert(i, value);
    assert forall|a: int, b: int|
        0 <= a < b < lines@.len() implies spec_str_lt(
        (#[trigger] lines@[a])@,
        (#[trigger] lines@[b])@,
    ) by {
        if a < i && b == i {
            assert(lines@[a]@ == orig[a]@);
            assert(lines@[b]@ == value@);
        } else if a == i && b > i {
            assert(lines@[b]@ == orig[b - 1]@);
            assert(spec_str_lt(value@, orig[i as int]@));
            if b - 1 > i {
                lemma_str_lt_trans(value@, orig[i as int]@, orig[b - 1]@);
            }
        } else if a < i && b > i {
            assert(lines@[a]@ == orig[a]@);
            assert(lines@[b]@ == orig[b - 1]@);
            if b - 1 == a {
                assert(false);
            }
        } else if b < i {
            assert(lines@[a]@ == orig[a]@ && lines@[b]@ == orig[b]@);
        } else if a > i {
            assert(lines@[a]@ == orig[a - 1]@ && lines@[b]@ == orig[b - 1]@);
        }
    }
    assert forall|x: Seq<char>|
        spec_key_set(lines@).contains(x) == spec_key_set(orig).insert(value@).contains(x) by {
        if contains_line(lines@, x) {
            let k = choose|k: int| 0 <= k < lines@.len() && (#[trigger] lines@[k])@ == x;
            if k < i {
                assert(orig[k]@ == x);
            } else if k > i {
                assert(orig[k - 1]@ == x);
            } else {
                assert(lines@[i as int]@ == value@);
            }
        }
        if contains_line(orig, x) {
            let k = choose|k: int| 0 <= k < orig.len() && orig[k]@ == x;
            if k < i {
                assert(lines@[k]@ == x);
            } else {
                assert(lines@[k + 1]@ == x);
            }
        }
        if x == value@ {
            assert(lines@[i as int]@ == x);
        }
        assert(contains_line(lines@, x) ==> (contains_line(orig, x) || x == value@));
        assert((contains_line(orig, x) || x == value@) ==> contains_line(lines@, x));
        assert(spec_key_set(lines@).contains(x) == contains_line(lines@, x));
        assert(spec_key_set(orig).contains(x) == contains_line(orig, x));
        assert(spec_key_set(lines@).contains(x) == spec_key_set(orig).insert(value@).contains(x));
    }
    assert(spec_key_set(lines@) =~= spec_key_set(orig).insert(value@));
}

/// Removes `value` from a sorted, duplicate-free line set; removing an
/// absent value changes nothing.
fn remove_sorted_line(lines: &mut Vec<String>, value: &str)
    requires
        sorted_lines(old(lines)@),
    ensures
        sorted_lines(final(lines)@),
        spec_key_set(final(lines)@) == spec_key_set(old(lines)@).remove(value@),
{
    let ghost orig = lines@;
    let mut i: usize = 0;
    while i < lines.len()
        invariant
            i <= lines@.len(),
            lines@ == orig,
            orig == old(lines)@,
            sorted_lines(orig),
            forall|k: int| 0 <= k < i ==> (#[trigger] orig[k])@ != value@,
        decreases lines@.len() - i,
    {
        let same = lines[i].as_str().unicode_len() == value.unicode_len() && !str_lt(
            lines[i].as_str(),
            value,
        ) && !str_lt(value, lines[i].as_str());
        if same {
            proof {
                lemma_str_lt_connected(orig[i as int]@, value@);
            }
            lines.remove(i);
            assert forall|a: int, b: int|
                0 <= a < b < lines@.len() implies spec_str_lt(
                (#[trigger] lines@[a])@,
                (#[trigger] lines@[b])@,
            ) by {
                let a0 = if a < i {
                    a
                } else {
                    a + 1
                };
                let b0 = if b < i {
                    b
                } else {
                    b + 1
                };
                assert(lines@[a]@ == orig[a0]@ && lines@[b]@ == orig[b0]@);
            }
            assert forall|x: Seq<char>|
                spec_key_set(lines@).contains(x) == spec_key_set(orig).remove(value@).contains(
                x,
            ) by {
                if contains_line(lines@, x) {
                    let k = choose|k: int| 0 <= k < lines@.len() && (#[trigger] lines@[k])@ == x;
                    let k0 = if k < i {
                        k
                    } else {
                        k + 1
                    };
                    assert(orig[k0]@ == x);
                    assert(contains_line(orig, x));
                    if x == value@ {
                        if k0 < i {
                            assert(orig[k0]@ != value@);
                        } else {
                            assert(k0 > i);
                            assert(spec_str_lt(orig[i as int]@, orig[k0]@));
                            lemma_str_lt_irrefl(value@);
                        }
                        assert(false);
                    }
                    assert(x != value@);
                }
                if contains_line(orig, x) && x != value@ {
                    let k = choose|k: int| 0 <= k < orig.len() && (#[trigger] orig[k])@ == x;
                    if k < i {
                        assert(lines@[k]@ == x);
                    } else {
                        assert(k != i);
                        assert(lines@[k - 1]@ == x);
                    }
                    assert(contains_line(lines@, x));
                }
                assert(spec_key_set(lines@).contains(x) == contains_line(lines@, x));
                assert(spec_key_set(orig).contains(x) == contains_line(orig, x));
                assert(spec_key_set(lines@).contains(x) == spec_key_set(orig).remove(
                    value@,
                ).contains(x));
            }
            assert(spec_key_set(lines@) =~= spec_key_set(orig).remove(value@));
            return;
        }
        proof {
            if orig[i as int]@ == value@ {
                lemma_str_lt_irrefl(value@);
            }
        }
        i += 1;
    }
    assert forall|x: Seq<char>|
        spec_key_set(lines@).contains(x) == spec_key_set(orig).remove(value@).contains(x) by {
        if contains_line(orig, x) && x == value@ {
            let k = choose|k: int| 0 <= k < orig.len() && (#[trigger] orig[k])@ == x;
            assert(orig[k]@ != value@);
        }
        assert(spec_key_set(lines@).contains(x) == contains_line(lines@, x));
        assert(spec_key_set(orig).contains(x) == contains_line(orig, x));
        assert(spec_key_set(lines@).contains(x) == spec_key_set(orig).remove(value@).contains(x));
    }
    assert(spec_key_set(lines@) =~= spec_key_set(orig).remove(value@));
}

/// Parses a persisted review file: one fingerprint per line, blank lines
/// and surrounding whitespace ignored. The result is the sorted,
/// duplicate-free set of trimmed non-empty lines.
pub fn parse_reviewed_hashes(raw: &str) -> (r: Vec<String>)
    ensures
        sorted_lines(r@),
        forall|x: Seq<char>|
            contains_line(r@, x) <==> (exists|k: int|
                0 <= k < spec_split_text_lines(raw@).len() && spec_trim(
                    #[trigger] spec_split_text_lines(raw@)[k],
                ) == x && x.len() > 0),
{
    let lines = split_text_lines(raw);
    let mut r: Vec<String> = Vec::new();
    let mut i: usize = 0;
    while i < lines.len()
        invariant
            i <= lines@.len(),
            lines@.map_values(|l: String| l@) == spec_split_text_lines(raw@),
            sorted_lines(r@),
            forall|x: Seq<char>|
                contains_line(r@, x) <==> (exists|k: int|
                    0 <= k < i && spec_trim(#[trigger] spec_split_text_lines(raw@)[k]) == x
                        && x.len() > 0),
        decreases lines@.len() - i,
    {
        let trimmed = trim_spaces(lines[i].as_str());
        assert(lines@[i as int]@ == spec_split_text_lines(raw@)[i as int]);
        if trimmed.as_str().unicode_len() > 0 {
            let ghost before = r@;
            let ghost t = trimmed@;
            insert_sorted_line(&mut r, trimmed);
            assert forall|x: Seq<char>|
                contains_line(r@, x) <==> (exists|k: int|
                    0 <= k < i + 1 && spec_trim(#[trigger] spec_split_text_lines(raw@)[k]) == x
                        && x.len() > 0) by {
                assert(spec_key_set(r@).contains(x) == contains_line(r@, x));
                assert(spec_key_set(before).contains(x) == contains_line(before, x));
                assert(contains_line(r@, x) == (contains_line(before, x) || x == t));
                if contains_line(r@, x) {
                    if x == t {
                        assert(spec_trim(spec_split_text_lines(raw@)[i as int]) == x);
                    }
                }
                if exists|k: int|
                    0 <= k < i + 1 && spec_trim(#[trigger] spec_split_text_lines(raw@)[k]) == x
                        && x.len() > 0 {
                    let k = choose|k: int|
                        0 <= k < i + 1 && spec_trim(
                            #[trigger] spec_split_text_lines(raw@)[k],
                        ) == x && x.len() > 0;
                    if k < i {
                        assert(contains_line(before, x));
                    }
                }
            }
        } else {
            assert forall|x: Seq<char>|
                contains_line(r@, x) <==> (exists|k: int|
                    0 <= k < i + 1 && spec_trim(#[trigger] spec_split_text_lines(raw@)[k]) == x
                        && x.len() > 0) by {
                if exists|k: int|
                    0 <= k < i + 1 && spec_trim(#[trigger] spec_split_text_lines(raw@)[k]) == x
                        && x.len() > 0 {
                    let k = choose|k: int|
                        0 <= k < i + 1 && spec_trim(
                            #[trigger] spec_split_text_lines(raw@)[k],
                        ) == x && x.len() > 0;
                    assert(k < i);
                }
            }
        }
        i += 1;
    }
    r
}

/// The persisted form: every fingerprint followed by a newline.
pub open spec fn spec_joined_lines(lines: Seq<Seq<char>>) -> Seq<char>
    decreases lines.len(),
{
    if lines.len() == 0 {
        Seq::empty()
    } else {
        spec_joined_lines(lines.drop_last()) + lines.last() + seq!['\n']
    }
}

/// The reviewed-fingerprint set of one comparison scope, kept sorted and
/// duplicate-free; persistence is write-through, so the rendered text is
/// recomputed after every toggle.
pub struct ReviewStore {
    pub reviewed_hashes: Vec<String>,
}

impl ReviewStore {
    /// The store's invariant: the fingerprints are strictly sorted.
    pub open spec fn wf(self) -> bool {
        sorted_lines(self.reviewed_hashes@)
    }

    /// The fingerprints as a set.
    pub open spec fn key_set(self) -> Set<Seq<char>> {
        spec_key_set(self.reviewed_hashes@)
    }

    /// Loads a store from the text of a persisted review file; a missing
    /// file is handed in as the empty string and yields the empty set.
    pub fn load_from_text(raw: &str) -> (r: Self)
        ensures
            r.wf(),
            forall|x: Seq<char>|
                r.key_set().contains(x) <==> (exists|k: int|
                    0 <= k < spec_split_text_lines(raw@).len() && spec_trim(
                        #[trigger] spec_split_text_lines(raw@)[k],
                    ) == x && x.len() > 0),
    {
        ReviewStore { reviewed_hashes: parse_reviewed_hashes(raw) }
    }

    /// Which of `files` are reviewed, by fingerprint membership.
    pub fn reviewed_flags_for_files(&self, files: &Vec<DiffFileView>) -> (r: Vec<bool>)
        ensures
            r@.len() == files@.len(),
            forall|k: int|
                0 <= k < files@.len() ==> r@[k] == self.key_set().contains(
                    (#[trigger] files@[k]).review_key@,
                ),
    {
        let mut r: Vec<bool> = Vec::new();
        let mut i: usize = 0;
        while i < files.len()
            invariant
                i <= files@.len(),
                r@.len() == i,
                forall|k: int|
                    0 <= k < i ==> r@[k] == self.key_set().contains(
                        (#[trigger] files@[k]).review_key@,
                    ),
            decreases files@.len() - i,
        {
            let reviewed = contains_key(&self.reviewed_hashes, files[i].review_key.as_str());
            r.push(reviewed);
            i += 1;
        }
        r
    }

    /// Sets the membership of one fingerprint: inserted when `reviewed`,
    /// removed otherwise; every other fingerprint is untouched.
    pub fn set_reviewed(&mut self, review_key: &str, reviewed: bool)
        requires
            old(self).wf(),
        ensures
            final(self).wf(),
            final(self).key_set() == (if reviewed {
                old(self).key_set().insert(review_key@)
            } else {
                old(self).key_set().remove(review_key@)
            }),
    {
        if reviewed {
            insert_sorted_line(&mut self.reviewed_hashes, review_key.to_owned());
        } else {
            remove_sorted_line(&mut self.reviewed_hashes, review_key);
        }
    }

    /// The text to persist: the sorted fingerprints, one per line, each
    /// newline-terminated; empty for the empty set.
    pub fn persist_text(&self) -> (r: String)
        ensures
            r@ == spec_joined_lines(self.reviewed_hashes@.map_values(|l: String| l@)),
    {
        let mut r = String::new();
        let mut i: usize = 0;
        while i < self.reviewed_hashes.len()
            invariant
                i <= self.reviewed_hashes@.len(),
                r@ == spec_joined_lines(
                    self.reviewed_hashes@.take(i as int).map_values(|l: String| l@),
                ),
            decreases self.reviewed_hashes@.len() - i,
        {
            r.append(self.reviewed_hashes[i].as_str());
            r.append("\n");
            proof {
                reveal_strlit("\n");
                let taken = self.reviewed_hashes@.take(i + 1).map_values(|l: String| l@);
                assert(taken.drop_last() =~= self.reviewed_hashes@.take(i as int).map_values(
                    |l: String| l@,
                ));
                assert(taken.last() == self.reviewed_hashes@[i as int]@);
                assert(r@ =~= spec_joined_lines(taken));
            }
            i += 1;
        }
        assert(self.reviewed_hashes@.take(self.reviewed_hashes@.len() as int)
            =~= self.reviewed_hashes@);
        r
    }
}

/// Toggling one fingerprint's membership twice restores the reviewed set
/// exactly.
pub proof fn lemma_set_reviewed_twice_restores(keys: Set<Seq<char>>, key: Seq<char>)
    ensures
        keys.contains(key) ==> keys.remove(key).insert(key) == keys,
        !keys.contains(key) ==> keys.insert(key).remove(key) == keys,
{
    if keys.contains(key) {
        assert(keys.remove(key).insert(key) =~= keys);
    } else {
        assert(keys.insert(key).remove(key) =~= keys);
    }
}

} // verus!
