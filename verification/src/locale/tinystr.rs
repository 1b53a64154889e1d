//! A small ASCII-only bounded length string representation.
//!
//! A tiny string packs one to four (`TinyStr4`) or one to eight (`TinyStr8`)
//! ASCII bytes into one unsigned integer. The byte at index `k` of the text
//! occupies bits `8k .. 8k + 7` of the word, whatever the byte order of the
//! machine; the lanes above the text are zero. Because no byte of the text
//! is NUL, the word is never zero and the length of the text can be read off
//! the magnitude of the word.

use vstd::prelude::*;
use vstd::string::StringSliceAdditionalSpecFns;
use crate::ascii::{
    all_alpha, is_alpha, lower, lowercase, string_of_ascii, titlecase, to_chars, upper, uppercase,
};

verus! {

/// Why a text cannot be held in a tiny string.
#[derive(PartialEq, Eq, Debug, Structural, Clone, Copy)]
pub enum Error {
    /// The text is empty or longer than the capacity.
    InvalidSize,
    /// The text holds a NUL byte.
    InvalidNull,
    /// The text holds a byte outside ASCII.
    NonAscii,
}

/// The number that packs the bytes `s`, the first byte lowest.
pub open spec fn pack(s: Seq<u8>) -> nat
    decreases s.len(),
{
    if s.len() == 0 {
        0
    } else {
        s[0] as nat + 256 * pack(s.skip(1))
    }
}

/// The lane of `w` at index `k`: the byte held in bits `8k .. 8k + 7`.
pub open spec fn lane(w: u64, k: int) -> u8 {
    if k == 0 {
        (w % 0x100) as u8
    } else if k == 1 {
        ((w / 0x100) % 0x100) as u8
    } else if k == 2 {
        ((w / 0x1_0000) % 0x100) as u8
    } else if k == 3 {
        ((w / 0x100_0000) % 0x100) as u8
    } else if k == 4 {
        ((w / 0x1_0000_0000) % 0x100) as u8
    } else if k == 5 {
        ((w / 0x100_0000_0000) % 0x100) as u8
    } else if k == 6 {
        ((w / 0x1_0000_0000_0000) % 0x100) as u8
    } else if k == 7 {
        ((w / 0x100_0000_0000_0000) % 0x100) as u8
    } else {
        0
    }
}

/// The number of lanes of `w` up to and including its highest non-zero one.
pub open spec fn packed_len(w: u64) -> nat {
    if w == 0 {
        0
    } else if w < 0x100 {
        1
    } else if w < 0x1_0000 {
        2
    } else if w < 0x100_0000 {
        3
    } else if w < 0x1_0000_0000 {
        4
    } else if w < 0x100_0000_0000 {
        5
    } else if w < 0x1_0000_0000_0000 {
        6
    } else if w < 0x100_0000_0000_0000 {
        7
    } else {
        8
    }
}

/// The text that the word `w` packs.
pub open spec fn packed_bytes(w: u64) -> Seq<u8> {
    Seq::new(packed_len(w), |k: int| lane(w, k))
}

/// `w` packs a tiny string: it is not zero, and each lane of its text is a
/// non-NUL ASCII byte.
pub open spec fn packed_valid(w: u64) -> bool {
    &&& w != 0
    &&& forall|k: int| 0 <= k < packed_len(w) ==> 0 < #[trigger] lane(w, k) < 0x80
}

/// Putting a byte below a word moves each lane of the word up by one.
pub proof fn lemma_lane_shift(b: u8, r: u64)
    requires
        r < 0x100_0000_0000_0000,
    ensures
        lane((b + 256 * r) as u64, 0) == b,
        forall|k: int| 0 <= k < 7 ==> lane((b + 256 * r) as u64, k + 1) == #[trigger] lane(r, k),
        r != 0 ==> packed_len((b + 256 * r) as u64) == packed_len(r) + 1,
        r == 0 && b != 0 ==> packed_len((b + 256 * r) as u64) == 1,
{
    let w = (b + 256 * r) as u64;
    assert(w / 0x100 == r);
    assert(w / 0x1_0000 == r / 0x100);
    assert(w / 0x100_0000 == r / 0x1_0000);
    assert(w / 0x1_0000_0000 == r / 0x100_0000);
    assert(w / 0x100_0000_0000 == r / 0x1_0000_0000);
    assert(w / 0x1_0000_0000_0000 == r / 0x100_0000_0000);
    assert(w / 0x100_0000_0000_0000 == r / 0x1_0000_0000_0000);
}

/// The lanes of a packed text are its bytes, and the lanes above it are
/// zero.
pub proof fn lemma_pack_lanes(s: Seq<u8>)
    requires
        s.len() <= 8,
    ensures
        pack(s) <= u64::MAX,
        forall|k: int| 0 <= k < s.len() ==> #[trigger] lane(pack(s) as u64, k) == s[k],
        forall|k: int| s.len() <= k < 8 ==> #[trigger] lane(pack(s) as u64, k) == 0,
    decreases s.len(),
{
    lemma_pack_bound(s);
    if s.len() > 0 {
        let t = s.skip(1);
        lemma_pack_lanes(t);
        lemma_pack_bound(t);
        let r = pack(t) as u64;
        lemma_lane_shift(s[0], r);
        let w = pack(s) as u64;
        assert forall|k: int| 0 <= k < 8 implies #[trigger] lane(w, k) == (if k < s.len() {
            s[k]
        } else {
            0u8
        }) by {
            if k > 0 {
                assert(lane(w, (k - 1) + 1) == lane(r, k - 1));
                if k < s.len() {
                    assert(t[k - 1] == s[k]);
                }
            }
        }
    }
}

/// Packing a text of at most eight non-NUL bytes loses nothing: the word's
/// text is the text that was packed.
pub proof fn lemma_pack_bytes(s: Seq<u8>)
    requires
        1 <= s.len() <= 8,
        forall|i: int| 0 <= i < s.len() ==> s[i] != 0,
    ensures
        0 < pack(s) <= u64::MAX,
        packed_len(pack(s) as u64) == s.len(),
        packed_bytes(pack(s) as u64) == s,
    decreases s.len(),
{
    lemma_pack_lanes(s);
    lemma_pack_bound(s);
    if s.len() == 1 {
        assert(pack(s.skip(1)) == 0);
    } else {
        let t = s.skip(1);
        lemma_pack_bytes(t);
        lemma_pack_bound(t);
        lemma_lane_shift(s[0], pack(t) as u64);
    }
    assert(packed_bytes(pack(s) as u64) =~= s);
}

/// A text of `n` bytes packs into a number below `256^n`.
pub proof fn lemma_pack_bound(s: Seq<u8>)
    requires
        s.len() <= 8,
    ensures
        s.len() <= 0 ==> pack(s) == 0,
        s.len() <= 1 ==> pack(s) < 0x100,
        s.len() <= 2 ==> pack(s) < 0x1_0000,
        s.len() <= 3 ==> pack(s) < 0x100_0000,
        s.len() <= 4 ==> pack(s) < 0x1_0000_0000,
        s.len() <= 5 ==> pack(s) < 0x100_0000_0000,
        s.len() <= 6 ==> pack(s) < 0x1_0000_0000_0000,
        s.len() <= 7 ==> pack(s) < 0x100_0000_0000_0000,
        pack(s) <= u64::MAX,
    decreases s.len(),
{
    if s.len() > 0 {
        lemma_pack_bound(s.skip(1));
    }
}

/// The word that packs the bytes `s[from..]`, the byte at `from` lowest.
pub fn pack_bytes(s: &[u8]) -> (w: u64)
    requires
        s.len() <= 8,
    ensures
        w == pack(s@),
{
    let mut w: u64 = 0;
    let mut i: usize = s.len();
    proof {
        assert(s@.subrange(i as int, s.len() as int) =~= Seq::<u8>::empty());
    }
    while i > 0
        invariant
            i <= s.len() <= 8,
            w == pack(s@.subrange(i as int, s.len() as int)),
        decreases i,
    {
        proof {
            let t = s@.subrange(i as int, s.len() as int);
            let u = s@.subrange(i - 1, s.len() as int);
            lemma_pack_bound(t);
            assert(u.skip(1) =~= t);
            assert(u[0] == s@[i - 1]);
            lemma_pack_bound(u);
        }
        i -= 1;
        w = w * 256 + s[i] as u64;
    }
    assert(s@.subrange(0, s.len() as int) =~= s@);
    w
}

/// The byte of `w` that starts at bit `s`.
pub open spec fn bits(w: u64, s: u64) -> u8 {
    ((w >> s) & 0xff) as u8
}

/// Lanes read by division are the lanes read by shifting.
proof fn lemma_lane_bits(w: u64)
    ensures
        lane(w, 0) == bits(w, 0),
        lane(w, 1) == bits(w, 8),
        lane(w, 2) == bits(w, 16),
        lane(w, 3) == bits(w, 24),
        lane(w, 4) == bits(w, 32),
        lane(w, 5) == bits(w, 40),
        lane(w, 6) == bits(w, 48),
        lane(w, 7) == bits(w, 56),
{
    assert((w % 0x100) as u8 == bits(w, 0) && ((w / 0x100) % 0x100) as u8 == bits(w, 8) && ((w
        / 0x1_0000) % 0x100) as u8 == bits(w, 16) && ((w / 0x100_0000) % 0x100) as u8 == bits(
        w,
        24,
    ) && ((w / 0x1_0000_0000) % 0x100) as u8 == bits(w, 32) && ((w / 0x100_0000_0000) % 0x100) as u8
        == bits(w, 40) && ((w / 0x1_0000_0000_0000) % 0x100) as u8 == bits(w, 48) && ((w
        / 0x100_0000_0000_0000) % 0x100) as u8 == bits(w, 56)) by (bit_vector);
}

/// The high bit of every lane.
pub const HIGH_BITS: u64 = 0x8080_8080_8080_8080;

/// No lane of `w` has its high bit set exactly when every lane is ASCII.
proof fn lemma_ascii_bits(w: u64)
    by (bit_vector)
    ensures
        (w & 0x8080_8080_8080_8080 == 0) <==> (bits(w, 0) < 0x80 && bits(w, 8) < 0x80 && bits(w, 16)
            < 0x80 && bits(w, 24) < 0x80 && bits(w, 32) < 0x80 && bits(w, 40) < 0x80 && bits(w, 48)
            < 0x80 && bits(w, 56) < 0x80),
        (w & 0x8080_8080_8080_8080 == 0) ==> w <= 0x7f7f_7f7f_7f7f_7f7f,
{
}

/// A valid word has no high bit set in any lane.
pub proof fn lemma_valid_ascii(w: u64)
    requires
        packed_valid(w),
    ensures
        w & HIGH_BITS == 0,
        w <= 0x7f7f_7f7f_7f7f_7f7f,
{
    lemma_lane_bits(w);
    lemma_ascii_bits(w);
    assert forall|k: int| 0 <= k < 8 implies lane(w, k) < 0x80 by {
        if k < packed_len(w) {
            assert(0 < lane(w, k) < 0x80);
        }
    }
    assert(lane(w, 0) < 0x80);
    assert(lane(w, 1) < 0x80);
    assert(lane(w, 2) < 0x80);
    assert(lane(w, 3) < 0x80);
    assert(lane(w, 4) < 0x80);
    assert(lane(w, 5) < 0x80);
    assert(lane(w, 6) < 0x80);
    assert(lane(w, 7) < 0x80);
}

/// Why the bytes `s` cannot be a tiny string of capacity `cap`, if they
/// cannot: the size is judged first, then ASCII, then NUL bytes.
pub open spec fn text_error(s: Seq<u8>, cap: nat) -> Option<Error> {
    if s.len() < 1 || s.len() > cap {
        Some(Error::InvalidSize)
    } else if exists|i: int| 0 <= i < s.len() && s[i] >= 0x80 {
        Some(Error::NonAscii)
    } else if exists|i: int| 0 <= i < s.len() && s[i] == 0 {
        Some(Error::InvalidNull)
    } else {
        None
    }
}

/// Whether the lowest `n` lanes of `w` are all non-zero.
pub open spec fn low_lanes_nonzero(w: u64, n: u64) -> bool {
    bits(w, 0) != 0 && (n > 1 ==> bits(w, 8) != 0) && (n > 2 ==> bits(w, 16) != 0) && (n > 3
        ==> bits(w, 24) != 0) && (n > 4 ==> bits(w, 32) != 0) && (n > 5 ==> bits(w, 40) != 0) && (n
        > 6 ==> bits(w, 48) != 0) && (n > 7 ==> bits(w, 56) != 0)
}

/// The mask of the high bits of the lowest `n` lanes, and what it tells of a
/// word whose text has `n` bytes.
proof fn lemma_text_masks(w: u64, n: u64)
    by (bit_vector)
    requires
        1 <= n <= 8,
        n == 1 ==> w < 0x100,
        n == 2 ==> w < 0x1_0000,
        n == 3 ==> w < 0x100_0000,
        n == 4 ==> w < 0x1_0000_0000,
        n == 5 ==> w < 0x100_0000_0000,
        n == 6 ==> w < 0x1_0000_0000_0000,
        n == 7 ==> w < 0x100_0000_0000_0000,
    ensures
        ({
            let mask = 0x8080_8080_8080_8080u64 >> (8 * (8 - n)) as u64;
            &&& (w & mask == 0) <==> (w & 0x8080_8080_8080_8080 == 0)
            &&& (w & mask == 0) ==> w <= mask
            &&& (w & mask == 0) ==> ((((mask - w) as u64) & mask == 0) <==> low_lanes_nonzero(w, n))
        }),
{
}

/// A packed text is ASCII exactly when no lane of its word has the high bit.
proof fn lemma_pack_ascii(s: Seq<u8>)
    requires
        s.len() <= 8,
    ensures
        pack(s) <= u64::MAX,
        ((pack(s) as u64) & HIGH_BITS == 0) <==> (forall|i: int| 0 <= i < s.len() ==> s[i] < 0x80),
{
    lemma_pack_lanes(s);
    let w = pack(s) as u64;
    lemma_lane_bits(w);
    lemma_ascii_bits(w);
    if forall|i: int| 0 <= i < s.len() ==> s[i] < 0x80 {
        assert forall|k: int| 0 <= k < 8 implies lane(w, k) < 0x80 by {
            if k < s.len() {
                assert(lane(w, k) == s[k]);
            }
        }
        assert(lane(w, 0) < 0x80 && lane(w, 1) < 0x80 && lane(w, 2) < 0x80 && lane(w, 3) < 0x80);
        assert(lane(w, 4) < 0x80 && lane(w, 5) < 0x80 && lane(w, 6) < 0x80 && lane(w, 7) < 0x80);
    }
    if w & HIGH_BITS == 0 {
        assert forall|i: int| 0 <= i < s.len() implies s[i] < 0x80 by {
            assert(lane(w, i) == s[i]);
        }
    }
}

/// A packed text is free of NUL exactly when the lanes of its word, as far
/// as the text reaches, are not zero.
proof fn lemma_pack_nonnull(s: Seq<u8>, n: u64)
    requires
        1 <= s.len() <= 8,
        n == s.len(),
    ensures
        pack(s) <= u64::MAX,
        low_lanes_nonzero(pack(s) as u64, n) <==> (forall|i: int| 0 <= i < s.len() ==> s[i] != 0),
{
    lemma_pack_lanes(s);
    let w = pack(s) as u64;
    lemma_lane_bits(w);
    if forall|i: int| 0 <= i < s.len() ==> s[i] != 0 {
        assert forall|k: int| 0 <= k < n implies lane(w, k) != 0 by {
            assert(lane(w, k) == s[k]);
        }
        assert(n > 0 ==> lane(w, 0) != 0);
        assert(n > 1 ==> lane(w, 1) != 0);
        assert(n > 2 ==> lane(w, 2) != 0);
        assert(n > 3 ==> lane(w, 3) != 0);
        assert(n > 4 ==> lane(w, 4) != 0);
        assert(n > 5 ==> lane(w, 5) != 0);
        assert(n > 6 ==> lane(w, 6) != 0);
        assert(n > 7 ==> lane(w, 7) != 0);
    }
    if low_lanes_nonzero(w, n) {
        assert forall|i: int| 0 <= i < s.len() implies s[i] != 0 by {
            assert(lane(w, i) == s[i]);
        }
    }
}

/// The word that packs the text `b`, or why `b` is no tiny string of
/// capacity `cap`.
fn pack_text(b: &[u8], cap: usize) -> (r: Result<u64, Error>)
    requires
        1 <= cap <= 8,
    ensures
        match text_error(b@, cap as nat) {
            Some(e) => r == Err::<u64, Error>(e),
            None => r == Ok::<u64, Error>(pack(b@) as u64) && packed_valid(pack(b@) as u64)
                && packed_bytes(pack(b@) as u64) == b@,
        },
{
    let len = b.len();
    if len < 1 || len > cap {
        return Err(Error::InvalidSize);
    }
    let word = pack_bytes(b);
    let n = len as u64;
    let mask = 0x8080_8080_8080_8080u64 >> (8 * (8 - n));
    proof {
        lemma_pack_bound(b@);
        lemma_text_masks(word, n);
        lemma_pack_ascii(b@);
        lemma_pack_nonnull(b@, n);
    }
    if (word & mask) != 0 {
        return Err(Error::NonAscii);
    }
    if ((mask - word) & mask) != 0 {
        return Err(Error::InvalidNull);
    }
    proof {
        lemma_pack_bytes(b@);
        assert(packed_valid(word)) by {
            assert forall|k: int| 0 <= k < packed_len(word) implies 0 < #[trigger] lane(word, k)
                < 0x80 by {
                assert(packed_bytes(word)[k] == b@[k]);
            }
        }
    }
    Ok(word)
}

/// Two words whose texts have the same length.
pub open spec fn same_len(r: u64, w: u64) -> bool {
    &&& (r == 0 <==> w == 0)
        &&& (r < 0x100 <==> w < 0x100)
        &&& (r < 0x1_0000 <==> w < 0x1_0000)
        &&& (r < 0x100_0000 <==> w < 0x100_0000)
        &&& (r < 0x1_0000_0000 <==> w < 0x1_0000_0000)
        &&& (r < 0x100_0000_0000 <==> w < 0x100_0000_0000)
        &&& (r < 0x1_0000_0000_0000 <==> w < 0x1_0000_0000_0000)
        &&& (r < 0x100_0000_0000_0000 <==> w < 0x100_0000_0000_0000)
}

/// The word `w` with every lane in upper case.
pub open spec fn upper_word(w: u64) -> u64 {
    w & !((((w + 0x1f1f_1f1f_1f1f_1f1f) as u64) & !((w + 0x0505_0505_0505_0505) as u64)
        & 0x8080_8080_8080_8080) >> 2)
}

/// The word `w` with every lane in lower case.
pub open spec fn lower_word(w: u64) -> u64 {
    w | ((((w + 0x3f3f_3f3f_3f3f_3f3f) as u64) & !((w + 0x2525_2525_2525_2525) as u64)
        & 0x8080_8080_8080_8080) >> 2)
}

/// The word `w` with its lowest lane in upper case and the others in lower
/// case.
pub open spec fn title_word(w: u64) -> u64 {
    let mask = (((w + 0x3f3f_3f3f_3f3f_3f1f) as u64) & !((w + 0x2525_2525_2525_2505) as u64)
        & 0x8080_8080_8080_8080) >> 2;
    (w | mask) & !(0x20 & mask)
}

/// Whether every non-zero lane of `w` is an ASCII letter.
pub open spec fn alpha_word(w: u64) -> bool {
    let mask = ((w + 0x7f7f_7f7f_7f7f_7f7f) as u64) & 0x8080_8080_8080_8080;
    let lower = w | 0x2020_2020_2020_2020;
    ((!((lower + 0x1f1f_1f1f_1f1f_1f1f) as u64) | ((lower + 0x0505_0505_0505_0505) as u64)) & mask)
        == 0
}

/// Lane by lane, `upper_word` puts an ASCII word in upper case.
proof fn lemma_upper_word(w: u64)
    by (bit_vector)
    requires
        w & 0x8080_8080_8080_8080 == 0,
    ensures
        upper_word(w) & 0x8080_8080_8080_8080 == 0,
        same_len(upper_word(w), w),
        bits(upper_word(w), 0) == upper(bits(w, 0)),
        bits(upper_word(w), 8) == upper(bits(w, 8)),
        bits(upper_word(w), 16) == upper(bits(w, 16)),
        bits(upper_word(w), 24) == upper(bits(w, 24)),
        bits(upper_word(w), 32) == upper(bits(w, 32)),
        bits(upper_word(w), 40) == upper(bits(w, 40)),
        bits(upper_word(w), 48) == upper(bits(w, 48)),
        bits(upper_word(w), 56) == upper(bits(w, 56)),
{
}

/// Lane by lane, `lower_word` puts an ASCII word in lower case.
proof fn lemma_lower_word(w: u64)
    by (bit_vector)
    requires
        w & 0x8080_8080_8080_8080 == 0,
    ensures
        lower_word(w) & 0x8080_8080_8080_8080 == 0,
        same_len(lower_word(w), w),
        bits(lower_word(w), 0) == lower(bits(w, 0)),
        bits(lower_word(w), 8) == lower(bits(w, 8)),
        bits(lower_word(w), 16) == lower(bits(w, 16)),
        bits(lower_word(w), 24) == lower(bits(w, 24)),
        bits(lower_word(w), 32) == lower(bits(w, 32)),
        bits(lower_word(w), 40) == lower(bits(w, 40)),
        bits(lower_word(w), 48) == lower(bits(w, 48)),
        bits(lower_word(w), 56) == lower(bits(w, 56)),
{
}

/// Lane by lane, `title_word` puts the lowest lane of an ASCII word in
/// upper case and the others in lower case.
proof fn lemma_title_word(w: u64)
    by (bit_vector)
    requires
        w & 0x8080_8080_8080_8080 == 0,
    ensures
        title_word(w) & 0x8080_8080_8080_8080 == 0,
        same_len(title_word(w), w),
        bits(title_word(w), 0) == upper(bits(w, 0)),
        bits(title_word(w), 8) == lower(bits(w, 8)),
        bits(title_word(w), 16) == lower(bits(w, 16)),
        bits(title_word(w), 24) == lower(bits(w, 24)),
        bits(title_word(w), 32) == lower(bits(w, 32)),
        bits(title_word(w), 40) == lower(bits(w, 40)),
        bits(title_word(w), 48) == lower(bits(w, 48)),
        bits(title_word(w), 56) == lower(bits(w, 56)),
{
}

/// A lane that is zero or a letter.
pub open spec fn zero_or_alpha(b: u8) -> bool {
    b == 0 || is_alpha(b)
}

/// Lane by lane, `alpha_word` tests an ASCII word for letters.
proof fn lemma_alpha_word(w: u64)
    by (bit_vector)
    requires
        w & 0x8080_8080_8080_8080 == 0,
    ensures
        alpha_word(w) <==> (zero_or_alpha(bits(w, 0)) && zero_or_alpha(bits(w, 8)) && zero_or_alpha(
            bits(w, 16),
        ) && zero_or_alpha(bits(w, 24)) && zero_or_alpha(bits(w, 32)) && zero_or_alpha(bits(w, 40))
            && zero_or_alpha(bits(w, 48)) && zero_or_alpha(bits(w, 56))),
{
}

/// The four-lane transforms agree with the eight-lane ones.
proof fn lemma_words_u32(w: u32)
    by (bit_vector)
    requires
        w & 0x8080_8080 == 0,
    ensures
        (w as u64) & 0x8080_8080_8080_8080 == 0,
        (w & !((((w + 0x1f1f_1f1f) as u32) & !((w + 0x0505_0505) as u32) & 0x8080_8080) >> 2)) as u64
            == upper_word(w as u64),
        (w | ((((w + 0x3f3f_3f3f) as u32) & !((w + 0x2525_2525) as u32) & 0x8080_8080) >> 2)) as u64
            == lower_word(w as u64),
        ({
            let mask = (((w + 0x3f3f_3f1f) as u32) & !((w + 0x2525_2505) as u32) & 0x8080_8080) >> 2;
            ((w | mask) & !(0x20 & mask)) as u64 == title_word(w as u64)
        }),
        ({
            let mask = ((w + 0x7f7f_7f7f) as u32) & 0x8080_8080;
            let lower = w | 0x2020_2020;
            (((!((lower + 0x1f1f_1f1f) as u32) | ((lower + 0x0505_0505) as u32)) & mask) == 0)
                == alpha_word(w as u64)
        }),
        w <= 0x7f7f_7f7f,
        (w | 0x2020_2020) <= 0x7f7f_7f7f,
{
}

/// Bounds that keep the sums of the eight-lane transforms within the word.
proof fn lemma_word_bounds(w: u64)
    by (bit_vector)
    requires
        w & 0x8080_8080_8080_8080 == 0,
    ensures
        w <= 0x7f7f_7f7f_7f7f_7f7f,
        (w | 0x2020_2020_2020_2020) <= 0x7f7f_7f7f_7f7f_7f7f,
{
}

/// The text of a word of which every lane is known.
proof fn lemma_text_of(w: u64, r: u64, t: Seq<u8>)
    requires
        same_len(r, w),
        t.len() == packed_len(w),
        forall|k: int| 0 <= k < t.len() ==> #[trigger] lane(r, k) == t[k] && 0 < t[k] < 0x80,
        w != 0,
    ensures
        packed_valid(r),
        packed_bytes(r) == t,
{
    assert(packed_len(r) == packed_len(w));
    assert(packed_bytes(r) =~= t);
}

/// What the case transforms and the letter test do to the text of a word.
pub proof fn lemma_transforms(w: u64)
    requires
        packed_valid(w),
    ensures
        packed_valid(upper_word(w)),
        packed_bytes(upper_word(w)) == uppercase(packed_bytes(w)),
        packed_valid(lower_word(w)),
        packed_bytes(lower_word(w)) == lowercase(packed_bytes(w)),
        packed_valid(title_word(w)),
        packed_bytes(title_word(w)) == titlecase(packed_bytes(w)),
        alpha_word(w) == all_alpha(packed_bytes(w)),
{
    lemma_valid_ascii(w);
    lemma_lane_bits(w);
    let t = packed_bytes(w);
    assert forall|k: int| 0 <= k < t.len() implies 0 < #[trigger] t[k] < 0x80 by {
        assert(0 < lane(w, k) < 0x80);
    }
    assert(upper_lower_keep(t));
    {
        let r = upper_word(w);
        lemma_upper_word(w);
        lemma_lane_bits(r);
        lemma_text_of(w, r, uppercase(t));
    }
    {
        let r = lower_word(w);
        lemma_lower_word(w);
        lemma_lane_bits(r);
        lemma_text_of(w, r, lowercase(t));
    }
    {
        let r = title_word(w);
        lemma_title_word(w);
        lemma_lane_bits(r);
        lemma_text_of(w, r, titlecase(t));
    }
    lemma_alpha_word(w);
    if alpha_word(w) {
        assert forall|k: int| 0 <= k < t.len() implies is_alpha(#[trigger] t[k]) by {
            assert(zero_or_alpha(lane(w, k)));
        }
    }
    if all_alpha(t) {
        assert forall|k: int| 0 <= k < 8 implies zero_or_alpha(#[trigger] lane(w, k)) by {
            if k < t.len() {
                assert(is_alpha(t[k]));
            }
        }
        assert(zero_or_alpha(lane(w, 0)) && zero_or_alpha(lane(w, 1)) && zero_or_alpha(lane(w, 2))
            && zero_or_alpha(lane(w, 3)));
        assert(zero_or_alpha(lane(w, 4)) && zero_or_alpha(lane(w, 5)) && zero_or_alpha(lane(w, 6))
            && zero_or_alpha(lane(w, 7)));
    }
}

/// A non-NUL ASCII byte stays one under the case mappings.
pub open spec fn upper_lower_keep(t: Seq<u8>) -> bool {
    forall|k: int|
        0 <= k < t.len() ==> 0 < upper(#[trigger] t[k]) < 0x80 && 0 < lower(t[k]) < 0x80
}

/// A word is the packing of its own text.
pub proof fn lemma_bytes_pack(w: u64)
    ensures
        pack(packed_bytes(w)) == w,
    decreases w,
{
    if w == 0 {
        assert(packed_bytes(w) =~= Seq::<u8>::empty());
    } else {
        let b = (w % 0x100) as u8;
        let r = w / 0x100;
        lemma_bytes_pack(r);
        lemma_lane_shift(b, r);
        assert(w == b + 256 * r);
        let t = packed_bytes(w);
        assert(t.skip(1) =~= packed_bytes(r)) by {
            assert forall|k: int| 0 <= k < packed_len(r) implies lane(w, k + 1) == lane(r, k) by {}
        }
        assert(t[0] == b);
    }
}

/// A tiny string that is from 1 to 8 non-NUL ASCII characters.
///
/// Two tiny strings are compared as their words are: the comparison is
/// exact in case, and the order is that of the integers.
#[derive(Copy, Clone, PartialEq, Eq, PartialOrd, Ord, Structural, Hash, Debug)]
pub struct TinyStr8 {
    word: u64,
}

/// A tiny string that is from 1 to 4 non-NUL ASCII characters.
///
/// Two tiny strings are compared as their words are: the comparison is
/// exact in case, and the order is that of the integers.
#[derive(Copy, Clone, PartialEq, Eq, PartialOrd, Ord, Structural, Hash, Debug)]
pub struct TinyStr4 {
    word: u32,
}

impl View for TinyStr8 {
    type V = Seq<u8>;

    /// The text, as bytes.
    closed spec fn view(&self) -> Seq<u8> {
        packed_bytes(self.word)
    }
}

impl View for TinyStr4 {
    type V = Seq<u8>;

    /// The text, as bytes.
    closed spec fn view(&self) -> Seq<u8> {
        packed_bytes(self.word as u64)
    }
}

impl TinyStr8 {
    /// The word packs a text of one to eight non-NUL ASCII bytes.
    #[verifier::type_invariant]
    pub closed spec fn wf(&self) -> bool {
        packed_valid(self.word)
    }

    /// The packed word.
    pub closed spec fn spec_word(&self) -> u64 {
        self.word
    }

    /// What holds of the text of every tiny string, and how the text and the
    /// word determine each other.
    pub proof fn lemma_text(self)
        requires
            self.wf(),
        ensures
            1 <= self@.len() <= 8,
            forall|i: int| 0 <= i < self@.len() ==> 0 < #[trigger] self@[i] < 0x80,
            self.spec_word() == pack(self@),
            self@ == packed_bytes(self.spec_word()),
            packed_valid(self.spec_word()),
    {
        lemma_bytes_pack(self.word);
        assert forall|i: int| 0 <= i < self@.len() implies 0 < #[trigger] self@[i] < 0x80 by {
            assert(0 < lane(self.word, i) < 0x80);
        }
    }

    /// Create a new tiny string.
    ///
    /// Returns an error result if the string is not 1 to 8 characters in length,
    /// contains non-ASCII, or contains an embedded NUL byte.
    pub fn new(text: &str) -> (r: Result<TinyStr8, Error>)
        ensures
            match text_error(text.spec_bytes(), 8) {
                Some(e) => r == Err::<TinyStr8, Error>(e),
                None => r is Ok && r->Ok_0@ == text.spec_bytes() && r->Ok_0.wf(),
            },
    {
        TinyStr8::from_bytes(text.as_bytes())
    }

    /// The tiny string whose text is `b`, or why there is none.
    pub fn from_bytes(b: &[u8]) -> (r: Result<TinyStr8, Error>)
        ensures
            match text_error(b@, 8) {
                Some(e) => r == Err::<TinyStr8, Error>(e),
                None => r is Ok && r->Ok_0@ == b@ && r->Ok_0.wf(),
            },
    {
        match pack_text(b, 8) {
            Ok(word) => Ok(TinyStr8 { word }),
            Err(e) => Err(e),
        }
    }

    /// The tiny string that the word `w` packs, if it packs one.
    pub fn from_word(w: u64) -> (r: Option<TinyStr8>)
        ensures
            r is Some <==> packed_valid(w),
            r matches Some(t) ==> t.spec_word() == w && t.wf() && t@ == packed_bytes(w),
    {
        if word_is_valid(w) {
            Some(TinyStr8 { word: w })
        } else {
            None
        }
    }

    /// The packed word: the text's bytes, the first byte lowest.
    pub fn word(&self) -> (w: u64)
        ensures
            w == self.spec_word(),
            w == pack(self@),
    {
        proof {
            use_type_invariant(self);
            self.lemma_text();
        }
        self.word
    }

    /// The number of bytes of the text.
    pub fn len(&self) -> (n: usize)
        ensures
            n == self@.len(),
            1 <= n <= 8,
    {
        proof {
            use_type_invariant(self);
        }
        word_len(self.word)
    }

    /// The text, as bytes.
    pub fn bytes(&self) -> (b: Vec<u8>)
        ensures
            b@ == self@,
    {
        word_bytes(self.word)
    }

    /// The text, as a string.
    pub fn as_str(&self) -> (s: String)
        ensures
            s@ == to_chars(self@),
    {
        proof {
            use_type_invariant(self);
            self.lemma_text();
        }
        string_of_ascii(self.bytes())
    }

    /// The same text with each letter in upper case.
    pub fn to_ascii_uppercase(self) -> (r: TinyStr8)
        ensures
            r@ == uppercase(self@),
            r.wf(),
    {
        let word = self.word;
        proof {
            use_type_invariant(self);
            lemma_valid_ascii(word);
            lemma_word_bounds(word);
            lemma_transforms(word);
        }
        let result = word & !(((word + 0x1f1f_1f1f_1f1f_1f1f) & !(word + 0x0505_0505_0505_0505)
            & 0x8080_8080_8080_8080) >> 2);
        TinyStr8 { word: result }
    }

    /// The same text with each letter in lower case.
    pub fn to_ascii_lowercase(self) -> (r: TinyStr8)
        ensures
            r@ == lowercase(self@),
            r.wf(),
    {
        let word = self.word;
        proof {
            use_type_invariant(self);
            lemma_valid_ascii(word);
            lemma_word_bounds(word);
            lemma_transforms(word);
        }
        let result = word | (((word + 0x3f3f_3f3f_3f3f_3f3f) & !(word + 0x2525_2525_2525_2525)
            & 0x8080_8080_8080_8080) >> 2);
        TinyStr8 { word: result }
    }

    /// Determine whether string is all ASCII alphabetical characters.
    pub fn is_all_ascii_alpha(self) -> (r: bool)
        ensures
            r == all_alpha(self@),
    {
        let word = self.word;
        proof {
            use_type_invariant(self);
            lemma_valid_ascii(word);
            lemma_word_bounds(word);
            lemma_transforms(word);
        }
        let mask = (word + 0x7f7f_7f7f_7f7f_7f7f) & 0x8080_8080_8080_8080;
        let lower = word | 0x2020_2020_2020_2020;
        ((!(lower + 0x1f1f_1f1f_1f1f_1f1f) | (lower + 0x0505_0505_0505_0505)) & mask) == 0
    }
}

impl TinyStr4 {
    /// The word packs a text of one to four non-NUL ASCII bytes.
    #[verifier::type_invariant]
    pub closed spec fn wf(&self) -> bool {
        packed_valid(self.word as u64)
    }

    /// The packed word.
    pub closed spec fn spec_word(&self) -> u32 {
        self.word
    }

    /// What holds of the text of every tiny string, and how the text and the
    /// word determine each other.
    pub proof fn lemma_text(self)
        requires
            self.wf(),
        ensures
            1 <= self@.len() <= 4,
            forall|i: int| 0 <= i < self@.len() ==> 0 < #[trigger] self@[i] < 0x80,
            self.spec_word() == pack(self@),
            self@ == packed_bytes(self.spec_word() as u64),
            packed_valid(self.spec_word() as u64),
    {
        lemma_bytes_pack(self.word as u64);
        assert forall|i: int| 0 <= i < self@.len() implies 0 < #[trigger] self@[i] < 0x80 by {
            assert(0 < lane(self.word as u64, i) < 0x80);
        }
    }

    /// Create a new tiny string.
    ///
    /// Returns an error result if the string is not 1 to 4 characters in length,
    /// contains non-ASCII, or contains an embedded NUL byte.
    pub fn new(text: &str) -> (r: Result<TinyStr4, Error>)
        ensures
            match text_error(text.spec_bytes(), 4) {
                Some(e) => r == Err::<TinyStr4, Error>(e),
                None => r is Ok && r->Ok_0@ == text.spec_bytes() && r->Ok_0.wf(),
            },
    {
        TinyStr4::from_bytes(text.as_bytes())
    }

    /// The tiny string whose text is `b`, or why there is none.
    pub fn from_bytes(b: &[u8]) -> (r: Result<TinyStr4, Error>)
        ensures
            match text_error(b@, 4) {
                Some(e) => r == Err::<TinyStr4, Error>(e),
                None => r is Ok && r->Ok_0@ == b@ && r->Ok_0.wf(),
            },
    {
        match pack_text(b, 4) {
            Ok(word) => {
                proof {
                    lemma_pack_bound(b@);
                }
                Ok(TinyStr4 { word: word as u32 })
            },
            Err(e) => Err(e),
        }
    }

    /// The tiny string that the word `w` packs, if it packs one.
    pub fn from_word(w: u32) -> (r: Option<TinyStr4>)
        ensures
            r is Some <==> packed_valid(w as u64),
            r matches Some(t) ==> t.spec_word() == w && t.wf() && t@ == packed_bytes(w as u64),
    {
        if word_is_valid(w as u64) {
            Some(TinyStr4 { word: w })
        } else {
            None
        }
    }

    /// The packed word: the text's bytes, the first byte lowest.
    pub fn word(&self) -> (w: u32)
        ensures
            w == self.spec_word(),
            w == pack(self@),
    {
        proof {
            use_type_invariant(self);
            self.lemma_text();
        }
        self.word
    }

    /// The number of bytes of the text.
    pub fn len(&self) -> (n: usize)
        ensures
            n == self@.len(),
            1 <= n <= 4,
    {
        proof {
            use_type_invariant(self);
        }
        word_len(self.word as u64)
    }

    /// The text, as bytes.
    pub fn bytes(&self) -> (b: Vec<u8>)
        ensures
            b@ == self@,
    {
        word_bytes(self.word as u64)
    }

    /// The text, as a string.
    pub fn as_str(&self) -> (s: String)
        ensures
            s@ == to_chars(self@),
    {
        proof {
            use_type_invariant(self);
            self.lemma_text();
        }
        string_of_ascii(self.bytes())
    }

    /// The same text with each letter in upper case.
    pub fn to_ascii_uppercase(self) -> (r: TinyStr4)
        ensures
            r@ == uppercase(self@),
            r.wf(),
    {
        let word = self.word;
        proof {
            use_type_invariant(self);
            lemma_valid_ascii(word as u64);
            lemma_high_bits_u32(word);
            lemma_words_u32(word);
            lemma_transforms(word as u64);
        }
        let result = word & !(((word + 0x1f1f_1f1f) & !(word + 0x0505_0505) & 0x8080_8080) >> 2);
        TinyStr4 { word: result }
    }

    /// The same text with each letter in lower case.
    pub fn to_ascii_lowercase(self) -> (r: TinyStr4)
        ensures
            r@ == lowercase(self@),
            r.wf(),
    {
        let word = self.word;
        proof {
            use_type_invariant(self);
            lemma_valid_ascii(word as u64);
            lemma_high_bits_u32(word);
            lemma_words_u32(word);
            lemma_transforms(word as u64);
        }
        let result = word | (((word + 0x3f3f_3f3f) & !(word + 0x2525_2525) & 0x8080_8080) >> 2);
        TinyStr4 { word: result }
    }

    /// Makes the string all lowercase except for the first character,
    /// which is made uppercase.
    pub fn to_ascii_titlecase(self) -> (r: TinyStr4)
        ensures
            r@ == titlecase(self@),
            r.wf(),
    {
        let word = self.word;
        proof {
            use_type_invariant(self);
            lemma_valid_ascii(word as u64);
            lemma_high_bits_u32(word);
            lemma_words_u32(word);
            lemma_transforms(word as u64);
        }
        let mask = ((word + 0x3f3f_3f1f) & !(word + 0x2525_2505) & 0x8080_8080) >> 2;
        let result = (word | mask) & !(0x20 & mask);
        TinyStr4 { word: result }
    }

    /// Determine whether string is all ASCII alphabetical characters.
    pub fn is_all_ascii_alpha(self) -> (r: bool)
        ensures
            r == all_alpha(self@),
    {
        let word = self.word;
        proof {
            use_type_invariant(self);
            lemma_valid_ascii(word as u64);
            lemma_high_bits_u32(word);
            lemma_words_u32(word);
            lemma_transforms(word as u64);
        }
        let mask = (word + 0x7f7f_7f7f) & 0x8080_8080;
        let lower = word | 0x2020_2020;
        ((!(lower + 0x1f1f_1f1f) | (lower + 0x0505_0505)) & mask) == 0
    }
}

/// A four-lane word without high bits as an eight-lane word has none.
proof fn lemma_high_bits_u32(w: u32)
    by (bit_vector)
    requires
        (w as u64) & 0x8080_8080_8080_8080 == 0,
    ensures
        w & 0x8080_8080 == 0,
{
}

/// Get little-endian numeric representation of string: the word that packs
/// the bytes of `s`, or a word of all ones where `s` has more than four.
pub fn str_to_le(s: &str) -> (w: u32)
    ensures
        s.spec_bytes().len() <= 4 ==> w == pack(s.spec_bytes()),
        s.spec_bytes().len() > 4 ==> w == u32::MAX,
{
    let b = s.as_bytes();
    if b.len() > 4 {
        u32::MAX
    } else {
        proof {
            lemma_pack_bound(b@);
        }
        pack_bytes(b) as u32
    }
}

/// Whether the word `w` packs a tiny string.
pub fn word_is_valid(w: u64) -> (r: bool)
    ensures
        r == packed_valid(w),
{
    if w == 0 {
        return false;
    }
    let n = word_len(w);
    let mut k: usize = 0;
    let mut rest: u64 = w;
    while k < n
        invariant
            k <= n <= 8,
            n == packed_len(w),
            forall|j: int| 0 <= j < k ==> 0 < #[trigger] lane(w, j) < 0x80,
            forall|j: int| 0 <= j < 8 - k ==> #[trigger] lane(rest, j) == lane(w, j + k),
        decreases n - k,
    {
        let b = (rest % 0x100) as u8;
        assert(b == lane(rest, 0));
        assert(lane(rest, 0) == lane(w, 0 + k));
        if b == 0 || b >= 0x80 {
            return false;
        }
        proof {
            let r1 = rest / 0x100;
            assert forall|j: int| 0 <= j < 8 - (k + 1) implies #[trigger] lane(r1, j) == lane(
                w,
                j + (k + 1),
            ) by {
                assert(lane(rest, j + 1) == lane(w, (j + 1) + k));
                lemma_lane_div(rest);
            }
        }
        rest = rest / 0x100;
        k += 1;
    }
    true
}

/// Dropping the lowest lane of a word moves the others down by one.
proof fn lemma_lane_div(w: u64)
    ensures
        forall|j: int| 0 <= j < 7 ==> #[trigger] lane(w / 0x100, j) == lane(w, j + 1),
{
    let b = (w % 0x100) as u8;
    let r = w / 0x100;
    lemma_lane_shift(b, r);
    assert(w == b + 256 * r);
}

/// The number of bytes of the text that the word `w` packs.
pub fn word_len(w: u64) -> (n: usize)
    ensures
        n == packed_len(w),
{
    if w == 0 {
        0
    } else if w < 0x100 {
        1
    } else if w < 0x1_0000 {
        2
    } else if w < 0x100_0000 {
        3
    } else if w < 0x1_0000_0000 {
        4
    } else if w < 0x100_0000_0000 {
        5
    } else if w < 0x1_0000_0000_0000 {
        6
    } else if w < 0x100_0000_0000_0000 {
        7
    } else {
        8
    }
}

/// The text that the word `w` packs.
pub fn word_bytes(w: u64) -> (b: Vec<u8>)
    ensures
        b@ == packed_bytes(w),
{
    let n = word_len(w);
    let mut b: Vec<u8> = Vec::new();
    let mut rest: u64 = w;
    while b.len() < n
        invariant
            b.len() <= n <= 8,
            n == packed_len(w),
            forall|j: int| 0 <= j < b.len() ==> #[trigger] b@[j] == lane(w, j),
            forall|j: int| 0 <= j < 8 - b.len() ==> #[trigger] lane(rest, j) == lane(w, j + b.len()),
        decreases n - b.len(),
    {
        let ghost k = b.len();
        let x = (rest % 0x100) as u8;
        assert(x == lane(rest, 0));
        assert(lane(rest, 0) == lane(w, 0 + k));
        proof {
            let r1 = rest / 0x100;
            assert forall|j: int| 0 <= j < 8 - (k + 1) implies #[trigger] lane(r1, j) == lane(
                w,
                j + (k + 1),
            ) by {
                assert(lane(rest, j + 1) == lane(w, (j + 1) + k));
                lemma_lane_div(rest);
            }
        }
        b.push(x);
        rest = rest / 0x100;
    }
    assert(b@ =~= packed_bytes(w));
    b
}

} // verus!
