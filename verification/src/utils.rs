//! Small verified helpers shared by the path extractor and the sequencer:
//! block counting, little-endian word packing, padding, tree depth, and the
//! conversion of the final chaining state into the canonical digest.

use vstd::prelude::*;
use vstd::string::StringExecFns;

verus! {

/// Number of 64-byte message blocks needed to hold `n_bytes` bytes.
pub open spec fn spec_n_blocks(n_bytes: int) -> int {
    (n_bytes + 63) / 64
}

/// Number of blocks a chunk of `n_bytes` bytes occupies (ceiling division by
/// the block size).
pub fn n_blocks_from_bytes(n_bytes: usize) -> (r: usize)
    requires
        n_bytes + 63 <= usize::MAX,
    ensures
        r == spec_n_blocks(n_bytes as int),
{
    (n_bytes + 63) / 64
}

/// Number of 32-bit words that `n_bytes` bytes split into (ceiling).
pub open spec fn spec_n_words(n_bytes: int) -> int {
    (n_bytes + 3) / 4
}

/// The little-endian 32-bit word held by the 4 bytes starting at `4 * k`,
/// or 0 when fewer than 4 bytes remain there (a trailing partial group
/// yields 0, not a zero-padded word).
pub open spec fn spec_u32_le_at(bytes: Seq<u8>, k: int) -> u32 {
    if 0 <= k && 4 * k + 4 <= bytes.len() {
        (bytes[4 * k] + bytes[4 * k + 1] * 0x100 + bytes[4 * k + 2] * 0x10000 + bytes[4 * k + 3]
            * 0x1000000) as u32
    } else {
        0u32
    }
}

/// Reinterpret a byte slice as little-endian 32-bit words, 4 bytes per word.
/// A trailing group of fewer than 4 bytes becomes the word 0.
pub fn bytes_to_u32_le(bytes: &[u8]) -> (r: Vec<u32>)
    ensures
        r@.len() == spec_n_words(bytes@.len() as int),
        forall|k: int| 0 <= k < r@.len() ==> r@[k] == spec_u32_le_at(bytes@, k),
{
    let n = bytes.len();
    let n_words = (n - n % 4) / 4 + (if n % 4 == 0 {
        0
    } else {
        1
    });
    let mut r: Vec<u32> = Vec::new();
    let mut k: usize = 0;
    while k < n_words
        invariant
            n == bytes@.len(),
            n_words == spec_n_words(n as int),
            r@.len() == k,
            k <= n_words,
            forall|j: int| 0 <= j < k ==> r@[j] == spec_u32_le_at(bytes@, j),
        decreases n_words - k,
    {
        if k < n / 4 {
            let b0 = bytes[4 * k] as u32;
            let b1 = bytes[4 * k + 1] as u32;
            let b2 = bytes[4 * k + 2] as u32;
            let b3 = bytes[4 * k + 3] as u32;
            let word = b0 + b1 * 0x100 + b2 * 0x10000 + b3 * 0x1000000;
            r.push(word);
        } else {
            r.push(0u32);
        }
        k = k + 1;
    }
    r
}

/// Extend `vec` with copies of `pad_value` until it is at least `min_length`
/// long; a vector already that long is left unchanged.
pub fn pad_vector_to_min_length<T: Copy>(vec: &mut Vec<T>, min_length: usize, pad_value: T)
    ensures
        final(vec)@.len() == if old(vec)@.len() >= min_length {
            old(vec)@.len()
        } else {
            min_length as nat
        },
        forall|i: int| 0 <= i < old(vec)@.len() ==> final(vec)@[i] == old(vec)@[i],
        forall|i: int| old(vec)@.len() <= i < final(vec)@.len() ==> final(vec)@[i] == pad_value,
{
    while vec.len() < min_length
        invariant
            old(vec)@.len() <= vec@.len(),
            vec@.len() <= if old(vec)@.len() >= min_length {
                old(vec)@.len()
            } else {
                min_length as nat
            },
            forall|i: int| 0 <= i < old(vec)@.len() ==> vec@[i] == old(vec)@[i],
            forall|i: int| old(vec)@.len() <= i < vec@.len() ==> vec@[i] == pad_value,
        decreases min_length - vec@.len(),
    {
        vec.push(pad_value);
    }
}

/// Floor of the base-2 logarithm (0 for inputs 0 and 1).
pub open spec fn spec_log2(n: nat) -> nat
    decreases n,
{
    if n <= 1 {
        0
    } else {
        1 + spec_log2(n / 2)
    }
}

/// The floor log is strictly below its argument.
pub proof fn lemma_log2_lt(n: nat)
    requires
        1 <= n,
    ensures
        spec_log2(n) < n,
    decreases n,
{
    if n > 1 {
        lemma_log2_lt(n / 2);
    }
}

/// A power-of-two bound on the argument bounds the floor log.
pub proof fn lemma_log2_below_pow2(n: nat, k: nat)
    requires
        1 <= n,
        n < vstd::arithmetic::power2::pow2(k),
    ensures
        spec_log2(n) < k,
    decreases k,
{
    assert(vstd::arithmetic::power2::pow2(0) == 1) by {
        vstd::arithmetic::power2::lemma2_to64();
    }
    assert(k >= 1);
    if n > 1 {
        assert(vstd::arithmetic::power2::pow2(k) == 2 * vstd::arithmetic::power2::pow2(
            (k - 1) as nat,
        )) by {
            vstd::arithmetic::power2::lemma_pow2_unfold(k);
        }
        lemma_log2_below_pow2(n / 2, (k - 1) as nat);
    }
}

/// Depth (number of levels, leaves included) of the hash tree over
/// `n_leaves` leaves: the ceiling of the log plus one, computed as the floor
/// log of `2 * n_leaves - 1` plus one.
pub open spec fn spec_depth_from_n_leaves(n_leaves: int) -> int {
    spec_log2((2 * n_leaves - 1) as nat) + 1int
}

/// Total depth of the tree over `n_leaves` leaves.
pub fn get_depth_from_n_leaves(n_leaves: usize) -> (r: usize)
    requires
        1 <= n_leaves,
        2 * n_leaves - 1 <= usize::MAX,
    ensures
        r == spec_depth_from_n_leaves(n_leaves as int),
{
    let m0 = (n_leaves - 1) + n_leaves;
    let mut m = m0;
    let mut c: usize = 0;
    proof {
        lemma_log2_lt(m0 as nat);
    }
    while m > 1
        invariant
            1 <= m <= m0,
            c + spec_log2(m as nat) == spec_log2(m0 as nat),
            spec_log2(m0 as nat) < m0 <= usize::MAX,
        decreases m,
    {
        m = m / 2;
        c = c + 1;
    }
    c + 1
}

/// Whether `n` is a positive power of two.
pub open spec fn spec_is_pow2(n: int) -> bool
    decreases n,
{
    if n <= 0 {
        false
    } else if n == 1 {
        true
    } else {
        n % 2 == 0 && spec_is_pow2(n / 2)
    }
}

/// For a power of two, the floor log of `2 * n - 1` is the exact log of `n`,
/// so the tree depth over `n` leaves is `log2(n) + 1`.
pub proof fn lemma_depth_of_pow2(n: int)
    requires
        spec_is_pow2(n),
    ensures
        spec_depth_from_n_leaves(n) == spec_log2(n as nat) + 1,
    decreases n,
{
    if n > 1 {
        lemma_depth_of_pow2(n / 2);
        assert((2 * n - 1) / 2 == n - 1);
        assert(spec_log2((2 * n - 1) as nat) == 1 + spec_log2((n - 1) as nat));
        lemma_log2_of_pred_pow2(n);
    }
}

/// For a power of two `n > 1`, the floor log of `n - 1` equals the floor log
/// of `n / 2` (both trees of `n - 1` and of `2 * (n/2) - 1` leaves flatten to
/// the same height).
proof fn lemma_log2_of_pred_pow2(n: int)
    requires
        spec_is_pow2(n),
        n > 1,
    ensures
        spec_log2((n - 1) as nat) == spec_log2((n / 2) as nat),
    decreases n,
{
    if n > 2 {
        assert((n - 1) / 2 == n / 2 - 1) by {
            assert(n % 2 == 0);
        }
        lemma_log2_of_pred_pow2(n / 2);
    }
}

/// Runtime check for `spec_is_pow2`.
pub fn is_power_of_two(n: usize) -> (r: bool)
    ensures
        r == spec_is_pow2(n as int),
{
    if n == 0 {
        return false;
    }
    let mut m = n;
    while m > 1
        invariant
            1 <= m,
            spec_is_pow2(n as int) == spec_is_pow2(m as int),
        decreases m,
    {
        if m % 2 == 1 {
            return false;
        }
        m = m / 2;
    }
    true
}

/// Byte `b` (little-endian position, 0 is least significant) of the low 32
/// bits of `w`.
pub open spec fn spec_le_byte(w: u64, b: int) -> u8 {
    ((w >> ((8 * b) as u64)) & 0xff) as u8
}

/// Convert the final 8-word chaining state into the canonical 32-byte digest.
///
/// Words are visited in reverse order, each word's low 32 bits are split into
/// 4 bytes from the most significant byte down, and the assembled 32-byte
/// buffer is then reversed whole. The net layout is the little-endian bytes
/// of each word's low 32 bits, in word order, which matches the reference
/// hash's native output order.
pub fn format_scalar_blake_hash(integers: [u64; 8]) -> (r: Vec<u8>)
    ensures
        r@.len() == 32,
        forall|k: int| 0 <= k < 32 ==> #[trigger] r@[k] == spec_le_byte(integers@[k / 4], k % 4),
{
    let mut bytes_res: Vec<u8> = Vec::new();
    let mut i: usize = 0;
    while i < 8
        invariant
            i <= 8,
            bytes_res@.len() == 4 * i,
            forall|k: int|
                0 <= k < 4 * i ==> #[trigger] bytes_res@[k] == spec_le_byte(
                    integers@[7 - k / 4],
                    3 - k % 4,
                ),
        decreases 8 - i,
    {
        let e = integers[8 - 1 - i];
        let mut b: usize = 0;
        while b < 4
            invariant
                i < 8,
                b <= 4,
                e == integers@[7 - i as int],
                bytes_res@.len() == 4 * i + b,
                forall|k: int|
                    0 <= k < 4 * i + b ==> #[trigger] bytes_res@[k] == spec_le_byte(
                        integers@[7 - k / 4],
                        3 - k % 4,
                    ),
            decreases 4 - b,
        {
            let shift: u64 = (8 * (3 - b)) as u64;
            let byte = ((e >> shift) & 0xff) as u8;
            bytes_res.push(byte);
            proof {
                let k = 4 * i + b;
                assert(k / 4 == i && k % 4 == b);
                assert(bytes_res@[k as int] == spec_le_byte(integers@[7 - i as int], 3 - b));
            }
            b = b + 1;
        }
        i = i + 1;
    }
    let mut reversed: Vec<u8> = Vec::new();
    let mut k: usize = 0;
    while k < 32
        invariant
            k <= 32,
            bytes_res@.len() == 32,
            reversed@.len() == k,
            forall|j: int|
                0 <= j < 32 ==> #[trigger] bytes_res@[j] == spec_le_byte(
                    integers@[7 - j / 4],
                    3 - j % 4,
                ),
            forall|j: int| 0 <= j < k ==> #[trigger] reversed@[j] == bytes_res@[31 - j],
        decreases 32 - k,
    {
        reversed.push(bytes_res[31 - k]);
        k = k + 1;
    }
    proof {
        assert forall|j: int| 0 <= j < 32 implies #[trigger] reversed@[j] == spec_le_byte(
            integers@[j / 4],
            j % 4,
        ) by {
            assert(reversed@[j] == bytes_res@[31 - j]);
            assert(7 - (31 - j) / 4 == j / 4);
            assert(3 - (31 - j) % 4 == j % 4);
        }
    }
    reversed
}

/// The hexadecimal digit characters, least value first.
pub open spec fn spec_hex_digit(d: int) -> char {
    seq!['0', '1', '2', '3', '4', '5', '6', '7', '8', '9', 'a', 'b', 'c', 'd', 'e', 'f'][d]
}

/// The `0x`-prefixed, zero-padded, lowercase hexadecimal rendering of a
/// 32-bit word.
pub open spec fn spec_hex_u32(w: u32) -> Seq<char> {
    seq![
        '0',
        'x',
        spec_hex_digit((w as int / 0x10000000) % 16),
        spec_hex_digit((w as int / 0x1000000) % 16),
        spec_hex_digit((w as int / 0x100000) % 16),
        spec_hex_digit((w as int / 0x10000) % 16),
        spec_hex_digit((w as int / 0x1000) % 16),
        spec_hex_digit((w as int / 0x100) % 16),
        spec_hex_digit((w as int / 0x10) % 16),
        spec_hex_digit(w as int % 16),
    ]
}

/// One hexadecimal digit as a string slice.
fn hex_digit_str(d: u32) -> (r: &'static str)
    requires
        d < 16,
    ensures
        r@ == seq![spec_hex_digit(d as int)],
{
    match d {
        0 => {
            proof {
                reveal_strlit("0");
                assert("0"@ =~= seq![spec_hex_digit(0)]);
            }
            "0"
        },
        1 => {
            proof {
                reveal_strlit("1");
                assert("1"@ =~= seq![spec_hex_digit(1)]);
            }
            "1"
        },
        2 => {
            proof {
                reveal_strlit("2");
                assert("2"@ =~= seq![spec_hex_digit(2)]);
            }
            "2"
        },
        3 => {
            proof {
                reveal_strlit("3");
                assert("3"@ =~= seq![spec_hex_digit(3)]);
            }
            "3"
        },
        4 => {
            proof {
                reveal_strlit("4");
                assert("4"@ =~= seq![spec_hex_digit(4)]);
            }
            "4"
        },
        5 => {
            proof {
                reveal_strlit("5");
                assert("5"@ =~= seq![spec_hex_digit(5)]);
            }
            "5"
        },
        6 => {
            proof {
                reveal_strlit("6");
                assert("6"@ =~= seq![spec_hex_digit(6)]);
            }
            "6"
        },
        7 => {
            proof {
                reveal_strlit("7");
                assert("7"@ =~= seq![spec_hex_digit(7)]);
            }
            "7"
        },
        8 => {
            proof {
                reveal_strlit("8");
                assert("8"@ =~= seq![spec_hex_digit(8)]);
            }
            "8"
        },
        9 => {
            proof {
                reveal_strlit("9");
                assert("9"@ =~= seq![spec_hex_digit(9)]);
            }
            "9"
        },
        10 => {
            proof {
                reveal_strlit("a");
                assert("a"@ =~= seq![spec_hex_digit(10)]);
            }
            "a"
        },
        11 => {
            proof {
                reveal_strlit("b");
                assert("b"@ =~= seq![spec_hex_digit(11)]);
            }
            "b"
        },
        12 => {
            proof {
                reveal_strlit("c");
                assert("c"@ =~= seq![spec_hex_digit(12)]);
            }
            "c"
        },
        13 => {
            proof {
                reveal_strlit("d");
                assert("d"@ =~= seq![spec_hex_digit(13)]);
            }
            "d"
        },
        14 => {
            proof {
                reveal_strlit("e");
                assert("e"@ =~= seq![spec_hex_digit(14)]);
            }
            "e"
        },
        _ => {
            proof {
                reveal_strlit("f");
                assert("f"@ =~= seq![spec_hex_digit(15)]);
            }
            "f"
        },
    }
}

/// Render one 32-bit word as `0x` followed by its 8 hexadecimal digits.
fn format_u32_hex(w: u32) -> (r: String)
    ensures
        r@ == spec_hex_u32(w),
{
    proof {
        reveal_strlit("0x");
    }
    let mut s: String = "0x".to_owned();
    s.append(hex_digit_str((w / 0x10000000) % 16));
    s.append(hex_digit_str((w / 0x1000000) % 16));
    s.append(hex_digit_str((w / 0x100000) % 16));
    s.append(hex_digit_str((w / 0x10000) % 16));
    s.append(hex_digit_str((w / 0x1000) % 16));
    s.append(hex_digit_str((w / 0x100) % 16));
    s.append(hex_digit_str((w / 0x10) % 16));
    s.append(hex_digit_str(w % 16));
    proof {
        assert(s@ =~= spec_hex_u32(w));
    }
    s
}

/// Render a byte slice as little-endian 32-bit words, each in `0x`-prefixed
/// hexadecimal.
pub fn format_bytes(v: &[u8]) -> (r: Vec<String>)
    ensures
        r@.len() == spec_n_words(v@.len() as int),
        forall|i: int| 0 <= i < r@.len() ==> (#[trigger] r@[i])@ == spec_hex_u32(spec_u32_le_at(v@, i)),
{
    let words = bytes_to_u32_le(v);
    let mut r: Vec<String> = Vec::new();
    let n = words.len();
    let mut i: usize = 0;
    while i < n
        invariant
            n == words@.len(),
            n == spec_n_words(v@.len() as int),
            forall|k: int| 0 <= k < n ==> words@[k] == spec_u32_le_at(v@, k),
            i <= n,
            r@.len() == i,
            forall|j: int| 0 <= j < i ==> (#[trigger] r@[j])@ == spec_hex_u32(spec_u32_le_at(v@, j)),
        decreases n - i,
    {
        r.push(format_u32_hex(words[i]));
        i = i + 1;
    }
    r
}

/// A placeholder verifier key: 32 zero bytes.
pub fn get_verifier_key() -> (r: Vec<u8>)
    ensures
        r@.len() == 32,
        forall|i: int| 0 <= i < 32 ==> r@[i] == 0u8,
{
    let mut key: Vec<u8> = Vec::new();
    let mut i: usize = 0;
    while i < 32
        invariant
            i <= 32,
            key@.len() == i,
            forall|j: int| 0 <= j < i ==> key@[j] == 0u8,
        decreases 32 - i,
    {
        key.push(0u8);
        i = i + 1;
    }
    key
}

} // verus!
