use vstd::prelude::*;
use vstd::arithmetic::power2::{pow2, lemma_pow2_unfold};

use crate::bytes::byte_at;

verus! {

/// Bit `i` of the stream `data`, counting from the least significant bit of
/// the first byte; bits past the end of `data` are zero.
pub open spec fn bit_at(data: Seq<u8>, i: int) -> bool {
    (byte_at(data, i / 8) >> ((i % 8) as u8)) & 1u8 == 1u8
}

/// The `n` bits of `data` starting at bit `pos`, the first of them as the
/// least significant bit of the result.
pub open spec fn bits_value(data: Seq<u8>, pos: int, n: nat) -> nat
    decreases n,
{
    if n == 0 {
        0
    } else {
        (if bit_at(data, pos) { 1nat } else { 0nat }) + 2 * bits_value(data, pos + 1, (n - 1) as nat)
    }
}

/// The number that a sequence of bits spells when its first bit is the least
/// significant one.
pub open spec fn lsb_first_value(bits: Seq<bool>) -> nat
    decreases bits.len(),
{
    if bits.len() == 0 {
        0
    } else {
        lsb_first_value(bits.drop_last()) + (if bits.last() { pow2((bits.len() - 1) as nat) } else { 0 })
    }
}

/// The eight bytes of `data` from byte `k` on, read as a little-endian word.
pub open spec fn window_at(data: Seq<u8>, k: int) -> u64 {
    (byte_at(data, k) as u64)
    | ((byte_at(data, k + 1) as u64) << 8u64)
    | ((byte_at(data, k + 2) as u64) << 16u64)
    | ((byte_at(data, k + 3) as u64) << 24u64)
    | ((byte_at(data, k + 4) as u64) << 32u64)
    | ((byte_at(data, k + 5) as u64) << 40u64)
    | ((byte_at(data, k + 6) as u64) << 48u64)
    | ((byte_at(data, k + 7) as u64) << 56u64)
}

/// Reads bit fields of any width from 1 to 31 out of a byte slice, least
/// significant bit first, through a 64-bit lookahead window. Reads past the
/// end of the slice give zero bits.
pub struct BitReader<'a> {
    data: &'a [u8],
    /// Index of the first byte that is not yet in the window.
    next: usize,
    current: u64,
    offset: u8,
}

impl<'a> BitReader<'a> {
    /// The bytes that are read.
    pub closed spec fn bytes(&self) -> Seq<u8> {
        self.data@
    }

    /// The index of the next bit to be read.
    pub closed spec fn pos(&self) -> int {
        (self.next - 8) * 8 + self.offset
    }

    pub closed spec fn wf(&self) -> bool {
        &&& self.next >= 8
        &&& self.offset < 64
        &&& self.current == window_at(self.data@, self.next - 8)
    }

    pub fn new(data: &'a [u8]) -> (r: BitReader<'a>)
        ensures
            r.wf(),
            r.bytes() == data@,
            r.pos() == 0,
    {
        let current = read_window(data, 0);
        BitReader { data, next: 8, current, offset: 0 }
    }

    /// Reads the next bit.
    pub fn read_bit(&mut self) -> (r: bool)
        requires
            old(self).wf(),
            old(self).pos() + 1 <= usize::MAX,
        ensures
            final(self).wf(),
            final(self).bytes() == old(self).bytes(),
            final(self).pos() == old(self).pos() + 1,
            r == bit_at(old(self).bytes(), old(self).pos()),
    {
        let v = self.read_bits(1);
        proof {
            let d = old(self).bytes();
            let p = old(self).pos();
            assert(bits_value(d, p + 1, 0) == 0);
        }
        v == 1
    }

    /// Reads the next `bits` bits, the first of them as the least significant
    /// bit of the result.
    pub fn read_bits(&mut self, bits: u8) -> (r: u32)
        requires
            old(self).wf(),
            1 <= bits <= 31,
            old(self).pos() + bits <= usize::MAX,
        ensures
            final(self).wf(),
            final(self).bytes() == old(self).bytes(),
            final(self).pos() == old(self).pos() + bits,
            r == bits_value(old(self).bytes(), old(self).pos(), bits as nat),
    {
        let ghost d = self.data@;
        let ghost p = self.pos();
        let mut current = self.current;
        let offset = self.offset;
        let ghost first = current;

        let mut value: u64 = current >> (offset as u64);
        let width: u8 = offset + bits;
        let crosses_border = width >= 64;
        let next_offset = width % 64;

        if crosses_border {
            current = read_window(self.data, self.next);
            value = value | (current << ((64 - offset) as u64));
            self.next = self.next + 8;
            proof {
                assert forall|j: u64| j < bits implies (((value >> j) & 1u64 == 1u64) == bit_at(d, p + j)) by {
                    lemma_joined_bit(first, current, offset as u64, j);
                    if j < 64 - offset {
                        lemma_window_bit(d, (self.next - 16) as int, (offset + j) as u64);
                    } else {
                        lemma_window_bit(d, (self.next - 8) as int, (j - (64 - offset)) as u64);
                    }
                }
            }
        } else {
            proof {
                assert forall|j: u64| j < bits implies (((value >> j) & 1u64 == 1u64) == bit_at(d, p + j)) by {
                    lemma_shifted_bit(first, offset as u64, j);
                    lemma_window_bit(d, (self.next - 8) as int, (offset + j) as u64);
                }
            }
        }

        self.current = current;
        self.offset = next_offset;

        proof {
            assert((1u64 << (bits as u64)) >= 1) by (bit_vector)
                requires
                    bits <= 31,
            ;
        }
        let mask: u64 = (1u64 << (bits as u64)) - 1;
        proof {
            lemma_masked_bits(value, d, p, bits as nat);
            assert(value & mask < 0x8000_0000) by (bit_vector)
                requires
                    mask == (1u64 << (bits as u64)) - 1,
                    1 <= bits <= 31,
            ;
        }
        (value & mask) as u32
    }
}

/// The byte at `i`, or zero past the end of `data`.
fn byte_or_zero(data: &[u8], i: usize) -> (r: u8)
    ensures
        r == byte_at(data@, i as int),
{
    if i < data.len() {
        data[i]
    } else {
        0
    }
}

/// The eight bytes from `k` on as a little-endian word; missing bytes are zero.
fn read_window(data: &[u8], k: usize) -> (r: u64)
    requires
        k + 8 <= usize::MAX,
    ensures
        r == window_at(data@, k as int),
{
    (byte_or_zero(data, k) as u64)
    | ((byte_or_zero(data, k + 1) as u64) << 8u64)
    | ((byte_or_zero(data, k + 2) as u64) << 16u64)
    | ((byte_or_zero(data, k + 3) as u64) << 24u64)
    | ((byte_or_zero(data, k + 4) as u64) << 32u64)
    | ((byte_or_zero(data, k + 5) as u64) << 40u64)
    | ((byte_or_zero(data, k + 6) as u64) << 48u64)
    | ((byte_or_zero(data, k + 7) as u64) << 56u64)
}

/// Bit `j` of the window at byte `k` is bit `8 * k + j` of the stream.
proof fn lemma_window_bit(data: Seq<u8>, k: int, j: u64)
    requires
        j < 64,
    ensures
        ((window_at(data, k) >> j) & 1u64 == 1u64) == bit_at(data, 8 * k + j),
{
    let b0 = byte_at(data, k);
    let b1 = byte_at(data, k + 1);
    let b2 = byte_at(data, k + 2);
    let b3 = byte_at(data, k + 3);
    let b4 = byte_at(data, k + 4);
    let b5 = byte_at(data, k + 5);
    let b6 = byte_at(data, k + 6);
    let b7 = byte_at(data, k + 7);
    let w = window_at(data, k);
    let t = j % 8;
    let q = j / 8;
    assert(((w >> j) & 1u64 == 1u64) == (
        if q == 0 { (b0 >> t as u8) & 1u8 == 1u8 }
        else if q == 1 { (b1 >> t as u8) & 1u8 == 1u8 }
        else if q == 2 { (b2 >> t as u8) & 1u8 == 1u8 }
        else if q == 3 { (b3 >> t as u8) & 1u8 == 1u8 }
        else if q == 4 { (b4 >> t as u8) & 1u8 == 1u8 }
        else if q == 5 { (b5 >> t as u8) & 1u8 == 1u8 }
        else if q == 6 { (b6 >> t as u8) & 1u8 == 1u8 }
        else { (b7 >> t as u8) & 1u8 == 1u8 })) by (bit_vector)
        requires
            w == (b0 as u64) | ((b1 as u64) << 8u64) | ((b2 as u64) << 16u64) | ((b3 as u64) << 24u64)
                | ((b4 as u64) << 32u64) | ((b5 as u64) << 40u64) | ((b6 as u64) << 48u64)
                | ((b7 as u64) << 56u64),
            j < 64,
            t == j % 8,
            q == j / 8,
    ;
    assert((8 * k + j) / 8 == k + q);
    assert((8 * k + j) % 8 == t);
}

/// Bit `j` of `x >> o` is bit `o + j` of `x`.
proof fn lemma_shifted_bit(x: u64, o: u64, j: u64)
    by (bit_vector)
    requires
        o < 64,
        j < 64 - o,
    ensures
        ((x >> o) >> j) & 1u64 == (x >> (o + j) as u64) & 1u64,
{
}

/// The bits of `(x >> o) | (y << (64 - o))`: first those of `x` from `o` on,
/// then those of `y`.
proof fn lemma_joined_bit(x: u64, y: u64, o: u64, j: u64)
    by (bit_vector)
    requires
        0 < o < 64,
        j < 64,
    ensures
        (((x >> o) | (y << (64 - o) as u64)) >> j) & 1u64 == if j < 64 - o {
            (x >> (o + j) as u64) & 1u64
        } else {
            (y >> (j - (64 - o)) as u64) & 1u64
        },
{
}

/// The low `n` bits of `x`, where bit `j` of `x` is bit `pos + j` of the
/// stream, spell the stream's `n` bits from `pos`.
proof fn lemma_masked_bits(x: u64, data: Seq<u8>, pos: int, n: nat)
    requires
        n <= 63,
        forall|j: u64| j < n ==> (((x >> j) & 1u64 == 1u64) == bit_at(data, pos + j)),
    ensures
        x & (((1u64 << (n as u64)) - 1) as u64) == bits_value(data, pos, n),
    decreases n,
{
    if n == 0 {
        assert(x & (((1u64 << 0u64) - 1) as u64) == 0) by (bit_vector);
    } else {
        let m = n as u64;
        let y = x >> 1u64;
        assert(x & (((1u64 << m) - 1) as u64) == (x & 1u64) + 2 * (y & (((1u64 << (m - 1) as u64) - 1) as u64)))
            by (bit_vector)
            requires
                1 <= m <= 63,
                y == x >> 1u64,
        ;
        assert forall|j: u64| j < n - 1 implies (((y >> j) & 1u64 == 1u64) == bit_at(data, pos + 1 + j)) by {
            assert((y >> j) & 1u64 == (x >> (j + 1) as u64) & 1u64) by (bit_vector)
                requires
                    y == x >> 1u64,
                    j < 63,
            ;
            assert(bit_at(data, pos + (j + 1) as u64) == bit_at(data, pos + 1 + j));
        }
        lemma_masked_bits(y, data, pos + 1, (n - 1) as nat);
        assert((x & 1u64 == 1u64) == bit_at(data, pos)) by {
            assert((x >> 0u64) == x) by (bit_vector);
        }
        assert(x & 1u64 == 0 || x & 1u64 == 1) by (bit_vector);
    }
}

/// The stream's `n` bits from `pos` are less than `2^n`.
pub proof fn lemma_bits_value_bound(data: Seq<u8>, pos: int, n: nat)
    ensures
        bits_value(data, pos, n) < pow2(n),
    decreases n,
{
    if n > 0 {
        lemma_bits_value_bound(data, pos + 1, (n - 1) as nat);
        lemma_pow2_unfold(n);
    } else {
        vstd::arithmetic::power2::lemma2_to64();
    }
}

/// Taking `n` bits is taking the first `n - 1` of them and then the bit at
/// `pos + n - 1` as the most significant one.
proof fn lemma_bits_value_last(data: Seq<u8>, pos: int, n: nat)
    requires
        n >= 1,
    ensures
        bits_value(data, pos, n) == bits_value(data, pos, (n - 1) as nat)
            + (if bit_at(data, pos + n - 1) { pow2((n - 1) as nat) } else { 0 }),
    decreases n,
{
    if n == 1 {
        vstd::arithmetic::power2::lemma2_to64();
        assert(bits_value(data, pos + 1, 0) == 0);
        assert(bits_value(data, pos, 0) == 0);
    } else {
        lemma_bits_value_last(data, pos + 1, (n - 1) as nat);
        lemma_pow2_unfold((n - 1) as nat);
        assert(bits_value(data, pos, (n - 1) as nat) == (if bit_at(data, pos) { 1nat } else { 0nat })
            + 2 * bits_value(data, pos + 1, (n - 2) as nat));
    }
}

/// Reading `n` bits one at a time and assembling them least significant first
/// gives the same number as one read of `n` bits from the same position.
pub proof fn lemma_single_bit_reads_agree(data: Seq<u8>, pos: int, n: nat)
    requires
        1 <= n <= 31,
    ensures
        lsb_first_value(Seq::new(n, |j: int| bit_at(data, pos + j))) == bits_value(data, pos, n),
{
    lemma_prefix_reads_agree(data, pos, n);
}

proof fn lemma_prefix_reads_agree(data: Seq<u8>, pos: int, n: nat)
    ensures
        lsb_first_value(Seq::new(n, |j: int| bit_at(data, pos + j))) == bits_value(data, pos, n),
    decreases n,
{
    let s = Seq::new(n, |j: int| bit_at(data, pos + j));
    if n > 0 {
        lemma_prefix_reads_agree(data, pos, (n - 1) as nat);
        assert(s.drop_last() =~= Seq::new((n - 1) as nat, |j: int| bit_at(data, pos + j)));
        lemma_bits_value_last(data, pos, n);
    }
}

} // verus!
