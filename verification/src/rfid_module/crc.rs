//! The 16-bit CRC that frames every message exchanged with the module.
//!
//! The checksum is a shift register of 16 bits, started at `0xFFFF`, into
//! which the data bits are shifted at the low end, most significant bit of each
//! byte first; whenever a set bit leaves the register at the high end the
//! polynomial `0x1021` is added. The executable version processes four bits per
//! step with a table of sixteen entries.

use vstd::prelude::*;

verus! {

/// One step of the register: shift `bit` in at the low end and reduce by the
/// polynomial `0x1021` when the bit shifted out at the high end is set.
pub open spec fn crc_shift(crc: u16, bit: bool) -> u16 {
    let shifted: u16 = (crc << 1u16) | (if bit { 1u16 } else { 0u16 });
    if crc & 0x8000u16 == 0 {
        shifted
    } else {
        shifted ^ 0x1021u16
    }
}

/// Shifts the eight bits of `byte` into the register, most significant first.
pub open spec fn crc_update(crc: u16, byte: u8) -> u16 {
    let c1 = crc_shift(crc, byte & 0x80u8 != 0);
    let c2 = crc_shift(c1, byte & 0x40u8 != 0);
    let c3 = crc_shift(c2, byte & 0x20u8 != 0);
    let c4 = crc_shift(c3, byte & 0x10u8 != 0);
    let c5 = crc_shift(c4, byte & 0x08u8 != 0);
    let c6 = crc_shift(c5, byte & 0x04u8 != 0);
    let c7 = crc_shift(c6, byte & 0x02u8 != 0);
    crc_shift(c7, byte & 0x01u8 != 0)
}

/// The register after shifting in all bytes of `bytes`, starting from `init`.
pub open spec fn crc_over(init: u16, bytes: Seq<u8>) -> u16
    decreases bytes.len(),
{
    if bytes.len() == 0 {
        init
    } else {
        crc_update(crc_over(init, bytes.drop_last()), bytes.last())
    }
}

/// The checksum of a sequence of bytes as the module computes it.
pub open spec fn spec_crc(bytes: Seq<u8>) -> u16 {
    crc_over(0xFFFFu16, bytes)
}

/// Shifts the four low bits of `nibble` into the register, most significant
/// first.
pub open spec fn crc_nibble(crc: u16, nibble: u16) -> u16 {
    let c1 = crc_shift(crc, nibble & 0x8u16 != 0);
    let c2 = crc_shift(c1, nibble & 0x4u16 != 0);
    let c3 = crc_shift(c2, nibble & 0x2u16 != 0);
    crc_shift(c3, nibble & 0x1u16 != 0)
}

/// Entry `index` of the nibble table: what four zero bits do to a register
/// whose top four bits are `index` and whose other bits are clear.
pub open spec fn crc_table_spec(index: u16) -> u16 {
    crc_nibble(index << 12u16, 0)
}

/// The table step: shifting a nibble in equals shifting the register four
/// places, inserting the nibble, and adding the table entry of the four bits
/// that left the register.
pub proof fn lemma_crc_nibble_table(crc: u16, nibble: u16)
    requires
        nibble < 16,
    ensures
        crc_nibble(crc, nibble) == ((crc << 4u16) | nibble) ^ crc_table_spec(crc >> 12u16),
{
    assert(nibble < 16 ==> crc_nibble(crc, nibble) == ((crc << 4u16) | nibble) ^ crc_nibble(
        (crc >> 12u16) << 12u16,
        0,
    )) by (bit_vector);
}

/// A byte is two nibbles: the high one first.
pub proof fn lemma_crc_update_nibbles(crc: u16, byte: u8)
    ensures
        crc_update(crc, byte) == crc_nibble(crc_nibble(crc, (byte >> 4u8) as u16), (byte & 0x0Fu8) as u16),
{
    assert(crc_update(crc, byte) == crc_nibble(
        crc_nibble(crc, (byte >> 4u8) as u16),
        (byte & 0x0Fu8) as u16,
    )) by (bit_vector);
}

/// The sixteen entries of the nibble table.
fn crc_table(index: u16) -> (entry: u16)
    requires
        index < 16,
    ensures
        entry == crc_table_spec(index),
{
    assert({
        &&& crc_table_spec(0) == 0x0000u16
        &&& crc_table_spec(1) == 0x1021u16
        &&& crc_table_spec(2) == 0x2042u16
        &&& crc_table_spec(3) == 0x3063u16
        &&& crc_table_spec(4) == 0x4084u16
        &&& crc_table_spec(5) == 0x50a5u16
        &&& crc_table_spec(6) == 0x60c6u16
        &&& crc_table_spec(7) == 0x70e7u16
        &&& crc_table_spec(8) == 0x8108u16
        &&& crc_table_spec(9) == 0x9129u16
        &&& crc_table_spec(10) == 0xa14au16
        &&& crc_table_spec(11) == 0xb16bu16
        &&& crc_table_spec(12) == 0xc18cu16
        &&& crc_table_spec(13) == 0xd1adu16
        &&& crc_table_spec(14) == 0xe1ceu16
        &&& crc_table_spec(15) == 0xf1efu16
    }) by (bit_vector);
    match index {
        0 => 0x0000,
        1 => 0x1021,
        2 => 0x2042,
        3 => 0x3063,
        4 => 0x4084,
        5 => 0x50a5,
        6 => 0x60c6,
        7 => 0x70e7,
        8 => 0x8108,
        9 => 0x9129,
        10 => 0xa14a,
        11 => 0xb16b,
        12 => 0xc18c,
        13 => 0xd1ad,
        14 => 0xe1ce,
        _ => 0xf1ef,
    }
}

/// Computes the checksum of the first `len` bytes of `buf`.
pub fn calculate_crc(buf: &[u8], len: usize) -> (crc: u16)
    requires
        len <= buf@.len(),
    ensures
        crc == spec_crc(buf@.take(len as int)),
{
    let mut crc: u16 = 0xFFFF;
    let mut i: usize = 0;
    while i < len
        invariant
            i <= len,
            len <= buf@.len(),
            crc == spec_crc(buf@.take(i as int)),
        decreases len - i,
    {
        let byte = buf[i];
        let high: u16 = (byte >> 4u8) as u16;
        let low: u16 = (byte & 0x0Fu8) as u16;
        proof {
            assert((byte >> 4u8) < 16u8 && (byte & 0x0Fu8) < 16u8) by (bit_vector);
            lemma_crc_update_nibbles(crc, byte);
            lemma_crc_nibble_table(crc, high);
        }
        assert(crc >> 12u16 < 16u16) by (bit_vector);
        crc = ((crc << 4u16) | high) ^ crc_table(crc >> 12u16);
        proof {
            lemma_crc_nibble_table(crc, low);
        }
        assert(crc >> 12u16 < 16u16) by (bit_vector);
        crc = ((crc << 4u16) | low) ^ crc_table(crc >> 12u16);
        proof {
            assert(buf@.take((i + 1) as int).drop_last() =~= buf@.take(i as int));
        }
        i = i + 1;
    }
    crc
}

} // verus!

verus! {

/// Bit `i` of a byte sequence, counting from the most significant bit of the
/// first byte: the order in which the register takes the bits in.
pub open spec fn bit_at(s: Seq<u8>, i: int) -> bool {
    s[i / 8] & (0x80u8 >> ((i % 8) as u8)) != 0
}

/// The register after shifting in the first `m` bits of `s`, starting from
/// `init`.
pub open spec fn crc_bits(init: u16, s: Seq<u8>, m: nat) -> u16
    decreases m,
{
    if m == 0 {
        init
    } else {
        crc_shift(crc_bits(init, s, (m - 1) as nat), bit_at(s, m - 1))
    }
}

/// The byte sequence whose bytes are those of `a` and `b` added bitwise.
pub open spec fn xor_seq(a: Seq<u8>, b: Seq<u8>) -> Seq<u8> {
    Seq::new(a.len(), |k: int| a[k] ^ b[k])
}

/// Shifting in byte after byte is shifting in bit after bit.
pub(crate) proof fn lemma_crc_bits_bytes(init: u16, s: Seq<u8>, k: int)
    requires
        0 <= k <= s.len(),
    ensures
        crc_bits(init, s, (8 * k) as nat) == crc_over(init, s.take(k)),
    decreases k,
{
    if k == 0 {
        assert(s.take(0) =~= Seq::<u8>::empty());
    } else {
        lemma_crc_bits_bytes(init, s, k - 1);
        let x = s[k - 1];
        let base = 8 * (k - 1);
        assert(s.take(k).drop_last() =~= s.take(k - 1));
        assert(s.take(k).last() == x);
        assert({
            &&& 0x80u8 >> 0u8 == 0x80u8
            &&& 0x80u8 >> 1u8 == 0x40u8
            &&& 0x80u8 >> 2u8 == 0x20u8
            &&& 0x80u8 >> 3u8 == 0x10u8
            &&& 0x80u8 >> 4u8 == 0x08u8
            &&& 0x80u8 >> 5u8 == 0x04u8
            &&& 0x80u8 >> 6u8 == 0x02u8
            &&& 0x80u8 >> 7u8 == 0x01u8
        }) by (bit_vector);
        assert forall|j: int| 0 <= j < 8 implies #[trigger] bit_at(s, base + j) == (x & (0x80u8
            >> (j as u8)) != 0) by {
            assert((base + j) / 8 == k - 1);
            assert((base + j) % 8 == j);
        }
        let r0 = crc_bits(init, s, base as nat);
        assert(bit_at(s, base + 0) == (x & 0x80u8 != 0));
        assert(bit_at(s, base + 1) == (x & 0x40u8 != 0));
        assert(bit_at(s, base + 2) == (x & 0x20u8 != 0));
        assert(bit_at(s, base + 3) == (x & 0x10u8 != 0));
        assert(bit_at(s, base + 4) == (x & 0x08u8 != 0));
        assert(bit_at(s, base + 5) == (x & 0x04u8 != 0));
        assert(bit_at(s, base + 6) == (x & 0x02u8 != 0));
        assert(bit_at(s, base + 7) == (x & 0x01u8 != 0));
        let r1 = crc_bits(init, s, (base + 1) as nat);
        let r2 = crc_bits(init, s, (base + 2) as nat);
        let r3 = crc_bits(init, s, (base + 3) as nat);
        let r4 = crc_bits(init, s, (base + 4) as nat);
        let r5 = crc_bits(init, s, (base + 5) as nat);
        let r6 = crc_bits(init, s, (base + 6) as nat);
        let r7 = crc_bits(init, s, (base + 7) as nat);
        let r8 = crc_bits(init, s, (base + 8) as nat);
        assert(r1 == crc_shift(r0, x & 0x80u8 != 0));
        assert(r2 == crc_shift(r1, x & 0x40u8 != 0));
        assert(r3 == crc_shift(r2, x & 0x20u8 != 0));
        assert(r4 == crc_shift(r3, x & 0x10u8 != 0));
        assert(r5 == crc_shift(r4, x & 0x08u8 != 0));
        assert(r6 == crc_shift(r5, x & 0x04u8 != 0));
        assert(r7 == crc_shift(r6, x & 0x02u8 != 0));
        assert(r8 == crc_shift(r7, x & 0x01u8 != 0));
        assert(8 * k == base + 8);
    }
}

/// One step of the register is linear.
proof fn lemma_crc_shift_linear(c1: u16, c2: u16, b1: bool, b2: bool)
    ensures
        crc_shift(c1, b1) ^ crc_shift(c2, b2) == crc_shift(c1 ^ c2, b1 != b2),
{
    assert(crc_shift(c1, b1) ^ crc_shift(c2, b2) == crc_shift(c1 ^ c2, b1 != b2)) by (bit_vector);
}

/// Shifting in a byte is linear.
proof fn lemma_crc_update_linear(c1: u16, c2: u16, x1: u8, x2: u8)
    ensures
        crc_update(c1, x1) ^ crc_update(c2, x2) == crc_update(c1 ^ c2, x1 ^ x2),
{
    let y = x1 ^ x2;
    assert({
        &&& (y & 0x80u8 != 0) == ((x1 & 0x80u8 != 0) != (x2 & 0x80u8 != 0))
        &&& (y & 0x40u8 != 0) == ((x1 & 0x40u8 != 0) != (x2 & 0x40u8 != 0))
        &&& (y & 0x20u8 != 0) == ((x1 & 0x20u8 != 0) != (x2 & 0x20u8 != 0))
        &&& (y & 0x10u8 != 0) == ((x1 & 0x10u8 != 0) != (x2 & 0x10u8 != 0))
        &&& (y & 0x08u8 != 0) == ((x1 & 0x08u8 != 0) != (x2 & 0x08u8 != 0))
        &&& (y & 0x04u8 != 0) == ((x1 & 0x04u8 != 0) != (x2 & 0x04u8 != 0))
        &&& (y & 0x02u8 != 0) == ((x1 & 0x02u8 != 0) != (x2 & 0x02u8 != 0))
        &&& (y & 0x01u8 != 0) == ((x1 & 0x01u8 != 0) != (x2 & 0x01u8 != 0))
    }) by (bit_vector)
        requires
            y == x1 ^ x2,
    ;
    let a1 = crc_shift(c1, x1 & 0x80u8 != 0);
    let b1 = crc_shift(c2, x2 & 0x80u8 != 0);
    lemma_crc_shift_linear(c1, c2, x1 & 0x80u8 != 0, x2 & 0x80u8 != 0);
    let a2 = crc_shift(a1, x1 & 0x40u8 != 0);
    let b2 = crc_shift(b1, x2 & 0x40u8 != 0);
    lemma_crc_shift_linear(a1, b1, x1 & 0x40u8 != 0, x2 & 0x40u8 != 0);
    let a3 = crc_shift(a2, x1 & 0x20u8 != 0);
    let b3 = crc_shift(b2, x2 & 0x20u8 != 0);
    lemma_crc_shift_linear(a2, b2, x1 & 0x20u8 != 0, x2 & 0x20u8 != 0);
    let a4 = crc_shift(a3, x1 & 0x10u8 != 0);
    let b4 = crc_shift(b3, x2 & 0x10u8 != 0);
    lemma_crc_shift_linear(a3, b3, x1 & 0x10u8 != 0, x2 & 0x10u8 != 0);
    let a5 = crc_shift(a4, x1 & 0x08u8 != 0);
    let b5 = crc_shift(b4, x2 & 0x08u8 != 0);
    lemma_crc_shift_linear(a4, b4, x1 & 0x08u8 != 0, x2 & 0x08u8 != 0);
    let a6 = crc_shift(a5, x1 & 0x04u8 != 0);
    let b6 = crc_shift(b5, x2 & 0x04u8 != 0);
    lemma_crc_shift_linear(a5, b5, x1 & 0x04u8 != 0, x2 & 0x04u8 != 0);
    let a7 = crc_shift(a6, x1 & 0x02u8 != 0);
    let b7 = crc_shift(b6, x2 & 0x02u8 != 0);
    lemma_crc_shift_linear(a6, b6, x1 & 0x02u8 != 0, x2 & 0x02u8 != 0);
    lemma_crc_shift_linear(a7, b7, x1 & 0x01u8 != 0, x2 & 0x01u8 != 0);
}

/// The register is linear: the sum of the checksums of two sequences of equal
/// length is the register run from zero over their bitwise sum.
proof fn lemma_crc_over_xor(init: u16, a: Seq<u8>, b: Seq<u8>)
    requires
        a.len() == b.len(),
    ensures
        crc_over(init, a) ^ crc_over(init, b) == crc_over(0, xor_seq(a, b)),
    decreases a.len(),
{
    if a.len() == 0 {
        assert(init ^ init == 0u16) by (bit_vector);
        assert(xor_seq(a, b) =~= Seq::<u8>::empty());
    } else {
        lemma_crc_over_xor(init, a.drop_last(), b.drop_last());
        assert(xor_seq(a, b).drop_last() =~= xor_seq(a.drop_last(), b.drop_last()));
        let c1 = crc_over(init, a.drop_last());
        let c2 = crc_over(init, b.drop_last());
        let x1 = a.last();
        let x2 = b.last();
        lemma_crc_update_linear(c1, c2, x1, x2);
    }
}

/// Bit `i` of the bitwise sum is set exactly where the two sequences differ.
proof fn lemma_xor_bit(a: Seq<u8>, b: Seq<u8>, i: int)
    requires
        a.len() == b.len(),
        0 <= i < 8 * a.len(),
    ensures
        bit_at(xor_seq(a, b), i) == (bit_at(a, i) != bit_at(b, i)),
{
    let k = i / 8;
    let j = (i % 8) as u8;
    let x = a[k];
    let y = b[k];
    assert(j < 8 ==> ((x ^ y) & (0x80u8 >> j) != 0) == ((x & (0x80u8 >> j) != 0) != (y & (0x80u8
        >> j) != 0))) by (bit_vector);
}

/// The state of the register over the bits of a sequence whose set bits lie
/// in `[start, start + 16)`, after `m` bits: either no set bit came yet and the
/// register is zero, or the first set bit came at `f`, and the register has
/// its highest set bit at `m - f - 1` while at most 16 bits have followed, and
/// is nonzero afterwards. Returns `f`, or `-1` when no set bit came yet.
proof fn lemma_burst_run(e: Seq<u8>, start: int, m: nat) -> (f: int)
    requires
        m <= 8 * e.len(),
        forall|i: int| 0 <= i < 8 * e.len() && #[trigger] bit_at(e, i) ==> start <= i < start + 16,
    ensures
        f == -1 ==> crc_bits(0, e, m) == 0 && forall|i: int| 0 <= i < m ==> !#[trigger] bit_at(e, i),
        f != -1 ==> {
            &&& 0 <= f < m
            &&& bit_at(e, f)
            &&& m <= f + 16 ==> crc_bits(0, e, m) >> ((m - f - 1) as u16) == 1
            &&& crc_bits(0, e, m) != 0
        },
    decreases m,
{
    if m == 0 {
        -1
    } else {
        let f0 = lemma_burst_run(e, start, (m - 1) as nat);
        let r = crc_bits(0, e, (m - 1) as nat);
        let b = bit_at(e, m - 1);
        assert(crc_bits(0, e, m) == crc_shift(r, b));
        if f0 == -1 {
            if b {
                assert(crc_shift(0u16, true) >> 0u16 == 1u16) by (bit_vector);
                assert(crc_shift(0u16, true) != 0u16) by (bit_vector);
                m - 1
            } else {
                assert(crc_shift(0u16, false) == 0u16) by (bit_vector);
                -1
            }
        } else {
            if m <= f0 + 16 {
                let k = (m - f0 - 2) as u16;
                assert(k < 15 && r >> k == 1u16 ==> crc_shift(r, b) >> ((k + 1) as u16) == 1u16
                    && crc_shift(r, b) != 0u16) by (bit_vector);
                assert((k + 1) as u16 == (m - f0 - 1) as u16);
            } else {
                if m - 1 == f0 + 16 {
                    let k = 15u16;
                    assert(r >> k == 1u16 ==> r != 0u16) by (bit_vector);
                }
                assert(!b) by {
                    assert(f0 >= start);
                }
                assert(r != 0u16 ==> crc_shift(r, false) != 0u16) by (bit_vector);
            }
            f0
        }
    }
}

/// The checksum detects every error burst of at most 16 bits: two byte
/// sequences of equal length that differ, but only in bits that lie within one
/// run of 16 consecutive bits, have different checksums.
pub proof fn lemma_crc_detects_bursts(a: Seq<u8>, b: Seq<u8>, start: int)
    requires
        a.len() == b.len(),
        a != b,
        forall|i: int|
            0 <= i < 8 * a.len() && #[trigger] bit_at(a, i) != bit_at(b, i) ==> start <= i < start
                + 16,
    ensures
        spec_crc(a) != spec_crc(b),
{
    let e = xor_seq(a, b);
    assert forall|i: int| 0 <= i < 8 * e.len() && #[trigger] bit_at(e, i) implies start <= i < start
        + 16 by {
        lemma_xor_bit(a, b, i);
    }
    let n = e.len() as int;
    let f = lemma_burst_run(e, start, (8 * n) as nat);
    lemma_crc_bits_bytes(0, e, n);
    assert(e.take(n) =~= e);
    lemma_crc_over_xor(0xFFFFu16, a, b);
    if f == -1 {
        assert(a =~= b) by {
            assert forall|k: int| 0 <= k < n implies a[k] == b[k] by {
                let x = e[k];
                assert(!bit_at(e, 8 * k + 0) && !bit_at(e, 8 * k + 1) && !bit_at(e, 8 * k + 2)
                    && !bit_at(e, 8 * k + 3));
                assert(!bit_at(e, 8 * k + 4) && !bit_at(e, 8 * k + 5) && !bit_at(e, 8 * k + 6)
                    && !bit_at(e, 8 * k + 7));
                assert forall|j: int| 0 <= j < 8 implies #[trigger] ((8 * k + j) / 8) == k && (8 * k
                    + j) % 8 == j by {}
                let ai = a[k];
                let bi = b[k];
                assert(x == ai ^ bi);
                assert((ai ^ bi) & (0x80u8 >> 0u8) == 0 && (ai ^ bi) & (0x80u8 >> 1u8) == 0 && (ai
                    ^ bi) & (0x80u8 >> 2u8) == 0 && (ai ^ bi) & (0x80u8 >> 3u8) == 0 && (ai ^ bi) & (
                0x80u8 >> 4u8) == 0 && (ai ^ bi) & (0x80u8 >> 5u8) == 0 && (ai ^ bi) & (0x80u8
                    >> 6u8) == 0 && (ai ^ bi) & (0x80u8 >> 7u8) == 0 ==> ai == bi) by (bit_vector);
            }
        }
    }
    let ca = spec_crc(a);
    let cb = spec_crc(b);
    assert(ca ^ cb != 0u16 ==> ca != cb) by (bit_vector);
}

} // verus!
