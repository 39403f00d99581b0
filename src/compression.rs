use vstd::prelude::*;
use vstd::arithmetic::power2::pow2;

use crate::bit_reader::{BitReader, bit_at, bits_value, lemma_bits_value_bound};
use crate::bytes::byte_at;
use crate::error::{AcsError, AcsResult, CompressionError};

verus! {

/// The largest output, in bytes, that a compressed stream may inflate to.
pub const MAX_UNCOMPRESSED_LEN: usize = 10_000_000;

/// How many of the (at most `max`) bits from `pos` on are set before the first clear one.
pub open spec fn ones_run(data: Seq<u8>, pos: int, max: nat) -> nat
    decreases max,
{
    if max == 0 {
        0
    } else if bit_at(data, pos) {
        1 + ones_run(data, pos + 1, (max - 1) as nat)
    } else {
        0
    }
}

/// Width of the offset field of a back-reference of the given class.
pub open spec fn offset_width(class: nat) -> nat {
    if class == 0 {
        6
    } else if class == 1 {
        9
    } else if class == 2 {
        12
    } else {
        20
    }
}

/// What is added to the offset field of a back-reference of the given class.
pub open spec fn offset_base(class: nat) -> nat {
    if class == 0 {
        0x1
    } else if class == 1 {
        0x41
    } else if class == 2 {
        0x241
    } else {
        0x1241
    }
}

/// The class of the back-reference whose control bit is at `pos`: the run of
/// set bits, at most three, that follows the control bit.
pub open spec fn token_class(data: Seq<u8>, pos: int) -> nat {
    ones_run(data, pos + 1, 3)
}

/// Where the offset field of the back-reference at `pos` starts: after the
/// class bits and the clear bit that ends them, when there are fewer than three.
pub open spec fn offset_pos(data: Seq<u8>, pos: int) -> int {
    let c = token_class(data, pos);
    pos + 1 + (if c < 3 { c + 1 } else { 3 })
}

/// The raw offset field of the back-reference at `pos`.
pub open spec fn offset_raw(data: Seq<u8>, pos: int) -> nat {
    bits_value(data, offset_pos(data, pos), offset_width(token_class(data, pos)))
}

/// The token at `pos` marks the end of the stream.
pub open spec fn is_end_marker(data: Seq<u8>, pos: int) -> bool {
    bit_at(data, pos) && token_class(data, pos) == 3 && offset_raw(data, pos) == 0xFFFFF
}

/// How far back from the end of the output the back-reference at `pos` starts.
pub open spec fn subtractor(data: Seq<u8>, pos: int) -> nat {
    offset_raw(data, pos) + offset_base(token_class(data, pos))
}

/// Where the unary length prefix of the back-reference at `pos` starts.
pub open spec fn prefix_pos(data: Seq<u8>, pos: int) -> int {
    offset_pos(data, pos) + offset_width(token_class(data, pos))
}

/// The number of set bits in the length prefix of the back-reference at `pos`
/// (twelve means that the prefix is too long).
pub open spec fn prefix_ones(data: Seq<u8>, pos: int) -> nat {
    ones_run(data, prefix_pos(data, pos), 12)
}

/// How many bytes the back-reference at `pos` copies.
pub open spec fn copy_length(data: Seq<u8>, pos: int) -> nat {
    let k = prefix_ones(data, pos);
    (if token_class(data, pos) == 3 { 3nat } else { 2nat }) + (pow2(k) - 1) as nat
        + bits_value(data, prefix_pos(data, pos) + k + 1, k)
}

/// Where the token after the back-reference at `pos` starts.
pub open spec fn copy_end(data: Seq<u8>, pos: int) -> int {
    let k = prefix_ones(data, pos);
    prefix_pos(data, pos) + k + 1 + k
}

/// Appends `len` bytes to `out`, each the byte found at `start`, `start + 1`,
/// ... of the output as it grows, so that a run may repeat itself.
pub open spec fn copy_back(out: Seq<u8>, start: int, len: nat) -> Seq<u8>
    decreases len,
{
    if len == 0 {
        out
    } else {
        copy_back(out.push(out[start]), start + 1, (len - 1) as nat)
    }
}

/// The outcome of decoding one token.
pub enum Step {
    Done,
    Next(int, Seq<u8>),
    Fail(CompressionError),
}

/// Decodes the token at bit `pos`, with `out` produced so far, whatever the
/// size of the output.
pub open spec fn free_step(data: Seq<u8>, pos: int, out: Seq<u8>) -> Step {
    if !bit_at(data, pos) {
        Step::Next(pos + 9, out.push(bits_value(data, pos + 1, 8) as u8))
    } else if is_end_marker(data, pos) {
        Step::Done
    } else if subtractor(data, pos) > out.len() {
        Step::Fail(CompressionError::InvalidOffset)
    } else if prefix_ones(data, pos) == 12 {
        Step::Fail(CompressionError::InvalidLength)
    } else {
        Step::Next(
            copy_end(data, pos),
            copy_back(out, out.len() - subtractor(data, pos), copy_length(data, pos)),
        )
    }
}

/// Decodes the token at bit `pos`, with `out` produced so far, failing when
/// the output would grow past the ceiling.
pub open spec fn step(data: Seq<u8>, pos: int, out: Seq<u8>) -> Step {
    if out.len() > MAX_UNCOMPRESSED_LEN {
        Step::Fail(CompressionError::SizeLimitExceeded)
    } else {
        match free_step(data, pos, out) {
            Step::Next(p, o) => if o.len() > MAX_UNCOMPRESSED_LEN {
                Step::Fail(CompressionError::SizeLimitExceeded)
            } else {
                Step::Next(p, o)
            },
            other => other,
        }
    }
}

/// Decodes tokens from bit `pos` on, with `out` produced so far, up to the end marker.
pub open spec fn decode_from(data: Seq<u8>, pos: int, out: Seq<u8>) -> Result<Seq<u8>, CompressionError>
    decreases MAX_UNCOMPRESSED_LEN + 1 - out.len() via decode_from_decreases
{
    match step(data, pos, out) {
        Step::Done => Ok(out),
        Step::Fail(e) => Err(e),
        Step::Next(p, o) => decode_from(data, p, o),
    }
}

#[via_fn]
proof fn decode_from_decreases(data: Seq<u8>, pos: int, out: Seq<u8>) {
    lemma_free_step_grows(data, pos, out);
}

/// The output produced before decoding from bit `pos` on stops: all of it
/// when it ends well, else what came before the token that failed.
pub open spec fn decode_partial(data: Seq<u8>, pos: int, out: Seq<u8>) -> Seq<u8>
    decreases MAX_UNCOMPRESSED_LEN + 1 - out.len() via decode_partial_decreases
{
    match step(data, pos, out) {
        Step::Next(p, o) => decode_partial(data, p, o),
        _ => out,
    }
}

#[via_fn]
proof fn decode_partial_decreases(data: Seq<u8>, pos: int, out: Seq<u8>) {
    lemma_free_step_grows(data, pos, out);
}

/// A token that decodes adds at least one byte to the output.
proof fn lemma_free_step_grows(data: Seq<u8>, pos: int, out: Seq<u8>)
    ensures
        free_step(data, pos, out) matches Step::Next(_, o) ==> o.len() > out.len(),
{
    if bit_at(data, pos) && !is_end_marker(data, pos) {
        lemma_copy_back_len(out, out.len() - subtractor(data, pos), copy_length(data, pos));
    }
}

/// What inflating `data` appends to `out`: the first byte must be zero, the
/// token stream follows it.
pub open spec fn decompress_spec(data: Seq<u8>, out: Seq<u8>) -> Result<Seq<u8>, CompressionError> {
    if byte_at(data, 0) != 0 {
        Err(CompressionError::InvalidHeader)
    } else {
        decode_from(data, 8, out)
    }
}

/// What inflating `data` leaves after `out`, when it fails: `out` alone for a
/// bad first byte, else the output before the token that failed.
pub open spec fn decompress_partial(data: Seq<u8>, out: Seq<u8>) -> Seq<u8> {
    if byte_at(data, 0) != 0 {
        out
    } else {
        decode_partial(data, 8, out)
    }
}

pub proof fn lemma_copy_back_len(out: Seq<u8>, start: int, len: nat)
    ensures
        copy_back(out, start, len).len() == out.len() + len,
    decreases len,
{
    if len > 0 {
        lemma_copy_back_len(out.push(out[start]), start + 1, (len - 1) as nat);
    }
}

/// The eight bits from a byte boundary spell that byte.
proof fn lemma_byte_bits(data: Seq<u8>, i: int)
    ensures
        bits_value(data, 8 * i, 8) == byte_at(data, i),
{
    reveal_with_fuel(bits_value, 9);
    let b = byte_at(data, i);
    assert forall|t: int| 0 <= t < 8 implies (#[trigger] bit_at(data, 8 * i + t)) == ((b >> (t as u8)) & 1u8 == 1u8) by {
        assert((8 * i + t) / 8 == i);
        assert((8 * i + t) % 8 == t);
    }
    assert(bit_at(data, 8 * i) == bit_at(data, 8 * i + 0));
    assert(b == ((b >> 0u8) & 1u8) + 2 * (((b >> 1u8) & 1u8) + 2 * (((b >> 2u8) & 1u8) + 2 * (((b >> 3u8) & 1u8)
        + 2 * (((b >> 4u8) & 1u8) + 2 * (((b >> 5u8) & 1u8) + 2 * (((b >> 6u8) & 1u8) + 2 * ((b >> 7u8) & 1u8)))))))
        && forall|t: u8| t < 8 ==> #[trigger] ((b >> t) & 1u8) < 2) by (bit_vector);
}

/// Reads set bits, at most `max`, up to and including the first clear one.
fn read_ones(reader: &mut BitReader, max: u8) -> (r: u8)
    requires
        old(reader).wf(),
        max <= 12,
        old(reader).pos() + max <= usize::MAX,
    ensures
        final(reader).wf(),
        final(reader).bytes() == old(reader).bytes(),
        r == ones_run(old(reader).bytes(), old(reader).pos(), max as nat),
        r <= max,
        final(reader).pos() == old(reader).pos() + r + (if r < max { 1int } else { 0int }),
{
    let ghost d = reader.bytes();
    let ghost first = reader.pos();
    let mut count: u8 = 0;
    while count < max
        invariant
            count <= max <= 12,
            d == old(reader).bytes(),
            first == old(reader).pos(),
            reader.wf(),
            reader.bytes() == d,
            first + max <= usize::MAX,
            reader.pos() == first + count,
            ones_run(d, first, max as nat) == count + ones_run(d, first + count, (max - count) as nat),
        decreases max - count,
    {
        if !reader.read_bit() {
            return count;
        }
        count = count + 1;
    }
    count
}

/// Inflates the compressed stream `data`, appending the output to `target`.
pub fn decompress(data: &[u8], target: &mut Vec<u8>) -> (r: AcsResult<()>)
    ensures
        match decompress_spec(data@, old(target)@) {
            Ok(v) => r is Ok && final(target)@ == v,
            Err(e) => r == Err::<(), AcsError>(AcsError::InvalidCompressedData(e)) && final(target)@
                == decompress_partial(data@, old(target)@),
        },
        old(target)@.len() <= MAX_UNCOMPRESSED_LEN ==> final(target)@.len() <= MAX_UNCOMPRESSED_LEN,
{
    let ghost d = data@;
    let ghost init = target@;
    let mut reader = BitReader::new(data);

    let header = reader.read_bits(8);
    proof {
        lemma_byte_bits(d, 0);
    }
    if header != 0 {
        return Err(AcsError::InvalidCompressedData(CompressionError::InvalidHeader));
    }

    loop
        invariant_except_break
            reader.pos() <= 8 + 64 * (target@.len() - init.len()),
            decode_from(d, reader.pos(), target@) == decompress_spec(d, init),
            decode_partial(d, reader.pos(), target@) == decompress_partial(d, init),
        invariant
            reader.wf(),
            reader.bytes() == d,
            d == data@,
            init == old(target)@,
            init.len() <= target@.len(),
            target@.len() - init.len() <= MAX_UNCOMPRESSED_LEN,
            init.len() <= MAX_UNCOMPRESSED_LEN ==> target@.len() <= MAX_UNCOMPRESSED_LEN,
        ensures
            match decompress_spec(d, init) {
                Ok(v) => target@ == v,
                Err(_) => false,
            },
            init.len() <= MAX_UNCOMPRESSED_LEN ==> target@.len() <= MAX_UNCOMPRESSED_LEN,
        decreases MAX_UNCOMPRESSED_LEN - (target@.len() - init.len()),
    {
        let ghost pos = reader.pos();
        let ghost out = target@;
        if target.len() > MAX_UNCOMPRESSED_LEN {
            return Err(AcsError::InvalidCompressedData(CompressionError::SizeLimitExceeded));
        }

        let is_compressed = reader.read_bit();

        if !is_compressed {
            if target.len() + 1 > MAX_UNCOMPRESSED_LEN {
                return Err(AcsError::InvalidCompressedData(CompressionError::SizeLimitExceeded));
            }
            let byte = reader.read_bits(8);
            proof {
                lemma_bits_value_bound(d, pos + 1, 8);
                vstd::arithmetic::power2::lemma2_to64();
            }
            target.push(byte as u8);
            assert(step(d, pos, out) == Step::Next(pos + 9, target@));
        } else {
            let class = read_ones(&mut reader, 3);
            let raw = if class == 0 {
                reader.read_bits(6)
            } else if class == 1 {
                reader.read_bits(9)
            } else if class == 2 {
                reader.read_bits(12)
            } else {
                reader.read_bits(20)
            };
            proof {
                lemma_bits_value_bound(d, offset_pos(d, pos), offset_width(class as nat));
                vstd::arithmetic::power2::lemma2_to64();
            }
            if class == 3 && raw == 0xFFFFF {
                assert(step(d, pos, out) == Step::Done);
                break;
            }
            let sub: u32 = if class == 0 {
                raw + 0x1
            } else if class == 1 {
                raw + 0x41
            } else if class == 2 {
                raw + 0x241
            } else {
                raw + 0x1241
            };
            let base_length: u32 = if class == 3 { 3 } else { 2 };

            if sub as usize > target.len() {
                return Err(AcsError::InvalidCompressedData(CompressionError::InvalidOffset));
            }
            let start = target.len() - sub as usize;

            let k = read_ones(&mut reader, 12);
            if k == 12 {
                return Err(AcsError::InvalidCompressedData(CompressionError::InvalidLength));
            }
            proof {
                vstd::arithmetic::power2::lemma_pow2_strictly_increases(k as nat, 12);
                vstd::arithmetic::power2::lemma2_to64();
                vstd::bits::lemma_u32_shl_is_mul(1, k as u32);
            }
            let mut length: u32 = base_length + ((1u32 << k as u32) - 1);
            if k > 0 {
                let extra = reader.read_bits(k);
                proof {
                    lemma_bits_value_bound(d, prefix_pos(d, pos) + k + 1, k as nat);
                }
                length = length + extra;
            }
            assert(length == copy_length(d, pos));
            proof {
                lemma_copy_back_len(out, start as int, length as nat);
            }

            if target.len() + length as usize > MAX_UNCOMPRESSED_LEN {
                return Err(AcsError::InvalidCompressedData(CompressionError::SizeLimitExceeded));
            }

            let mut i: u32 = 0;
            while i < length
                invariant
                    i <= length,
                    start + sub == out.len(),
                    sub >= 1,
                    out.len() + length <= MAX_UNCOMPRESSED_LEN,
                    target@.len() == out.len() + i,
                    copy_back(target@, start + i, (length - i) as nat) == copy_back(out, start as int, length as nat),
                decreases length - i,
            {
                let value = target[start + i as usize];
                target.push(value);
                i = i + 1;
            }
            proof {
                lemma_copy_back_len(out, start as int, length as nat);
            }
            assert(step(d, pos, out) == Step::Next(copy_end(d, pos), target@));
        }
    }

    shrink(target);
    Ok(())
}

/// Relies on `Vec::shrink_to_fit`, which only releases spare capacity.
#[verifier::external_body]
fn shrink(v: &mut Vec<u8>)
    ensures
        final(v)@ == old(v)@,
{
    v.shrink_to_fit();
}

/// A stream whose first byte is not zero is refused as malformed, whatever follows it.
pub proof fn lemma_bad_header_rejected(data: Seq<u8>, out: Seq<u8>)
    requires
        data.len() > 0,
        data[0] != 0,
    ensures
        decompress_spec(data, out) == Err::<Seq<u8>, CompressionError>(CompressionError::InvalidHeader),
        decompress_partial(data, out) == out,
{
}

/// A back-reference that reaches further back than the output produced so far
/// ends the decoding with an offset error; no byte before the output is read.
pub proof fn lemma_offset_before_start_rejected(data: Seq<u8>, pos: int, out: Seq<u8>)
    requires
        out.len() <= MAX_UNCOMPRESSED_LEN,
        bit_at(data, pos),
        !is_end_marker(data, pos),
        subtractor(data, pos) > out.len(),
    ensures
        decode_from(data, pos, out) == Err::<Seq<u8>, CompressionError>(CompressionError::InvalidOffset),
        decode_partial(data, pos, out) == out,
{
}

/// The bit position and output after `n` tokens decoded from `pos` with no
/// ceiling, when none of them is the end marker or fails.
pub open spec fn run_free(data: Seq<u8>, pos: int, out: Seq<u8>, n: nat) -> Option<(int, Seq<u8>)>
    decreases n,
{
    if n == 0 {
        Some((pos, out))
    } else {
        match free_step(data, pos, out) {
            Step::Next(p, o) => run_free(data, p, o, (n - 1) as nat),
            _ => None,
        }
    }
}

/// When decoding with no ceiling would take the output past it before the end
/// marker or any other error, decoding ends with a size-limit error, and the
/// output it leaves stays within the ceiling.
pub proof fn lemma_size_limit_reported(data: Seq<u8>, pos: int, out: Seq<u8>, n: nat)
    requires
        out.len() <= MAX_UNCOMPRESSED_LEN,
        run_free(data, pos, out, n) is Some,
        run_free(data, pos, out, n)->Some_0.1.len() > MAX_UNCOMPRESSED_LEN,
    ensures
        decode_from(data, pos, out) == Err::<Seq<u8>, CompressionError>(CompressionError::SizeLimitExceeded),
        decode_partial(data, pos, out).len() <= MAX_UNCOMPRESSED_LEN,
    decreases n,
{
    match free_step(data, pos, out) {
        Step::Next(p, o) => {
            if o.len() <= MAX_UNCOMPRESSED_LEN {
                lemma_size_limit_reported(data, p, o, (n - 1) as nat);
            }
        },
        _ => {},
    }
}

/// Inflating a stream with a good first byte, whose tokens with no ceiling
/// would take the output past it before the end marker or any other error,
/// fails with a size-limit error and leaves at most the ceiling in the output.
pub proof fn lemma_stream_size_limit_reported(data: Seq<u8>, out: Seq<u8>, n: nat)
    requires
        byte_at(data, 0) == 0,
        out.len() <= MAX_UNCOMPRESSED_LEN,
        run_free(data, 8, out, n) is Some,
        run_free(data, 8, out, n)->Some_0.1.len() > MAX_UNCOMPRESSED_LEN,
    ensures
        decompress_spec(data, out) == Err::<Seq<u8>, CompressionError>(CompressionError::SizeLimitExceeded),
        decompress_partial(data, out).len() <= MAX_UNCOMPRESSED_LEN,
{
    lemma_size_limit_reported(data, 8, out, n);
}

/// Decoding never produces more than the ceiling.
pub proof fn lemma_output_within_limit(data: Seq<u8>, pos: int, out: Seq<u8>)
    requires
        out.len() <= MAX_UNCOMPRESSED_LEN,
    ensures
        decode_from(data, pos, out) is Ok ==> decode_from(data, pos, out)->Ok_0.len() <= MAX_UNCOMPRESSED_LEN,
    decreases MAX_UNCOMPRESSED_LEN + 1 - out.len(),
{
    match step(data, pos, out) {
        Step::Next(p, o) => {
            if bit_at(data, pos) {
                lemma_copy_back_len(out, out.len() - subtractor(data, pos), copy_length(data, pos));
            }
            lemma_output_within_limit(data, p, o);
        },
        _ => {},
    }
}

} // verus!
