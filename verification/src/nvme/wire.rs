//! Little-endian integers in byte buffers.
//!
//! `le_value` says which number a run of bytes spells, `le_bytes` which bytes
//! spell a number; the readers below return `le_value` of the bytes at an
//! offset, and the two lemmas show that the encodings are inverse to each
//! other.

use vstd::prelude::*;
use vstd::string::StringExecFns;
use crate::nvme::error::NvmeError;
use crate::nvme::text::{append_decimal, decimal_text};

verus! {

/// The number spelled by `bytes`, least significant byte first.
pub open spec fn le_value(bytes: Seq<u8>) -> nat
    decreases bytes.len(),
{
    if bytes.len() == 0 {
        0
    } else {
        bytes[0] as nat + 256 * le_value(bytes.skip(1))
    }
}

/// The `width` bytes that spell `value`, least significant byte first.
pub open spec fn le_bytes(value: nat, width: nat) -> Seq<u8>
    decreases width,
{
    if width == 0 {
        Seq::empty()
    } else {
        seq![(value % 256) as u8] + le_bytes(value / 256, (width - 1) as nat)
    }
}

/// 256 to the power `n`: the number of values that `n` bytes can spell.
pub open spec fn byte_span(n: nat) -> nat
    decreases n,
{
    if n == 0 {
        1
    } else {
        256 * byte_span((n - 1) as nat)
    }
}

/// A run of bytes spells a number below `byte_span` of its length.
pub proof fn lemma_le_value_bound(bytes: Seq<u8>)
    ensures
        le_value(bytes) < byte_span(bytes.len()),
    decreases bytes.len(),
{
    if bytes.len() > 0 {
        lemma_le_value_bound(bytes.skip(1));
    }
}

/// More bytes span at least as many values.
pub proof fn lemma_byte_span_monotonic(low: nat, high: nat)
    requires
        low <= high,
    ensures
        byte_span(low) <= byte_span(high),
    decreases high,
{
    if low < high {
        lemma_byte_span_monotonic(low, (high - 1) as nat);
    }
}

/// Decoding what `le_bytes` wrote gives the number back, as long as the
/// number fits the width.
pub proof fn lemma_le_value_of_le_bytes(value: nat, width: nat)
    requires
        value < byte_span(width),
    ensures
        le_bytes(value, width).len() == width,
        le_value(le_bytes(value, width)) == value,
    decreases width,
{
    if width > 0 {
        let rest = le_bytes(value / 256, (width - 1) as nat);
        lemma_le_value_of_le_bytes(value / 256, (width - 1) as nat);
        assert(le_bytes(value, width).skip(1) =~= rest);
    }
}

/// Encoding what `le_value` read gives the bytes back.
pub proof fn lemma_le_bytes_of_le_value(bytes: Seq<u8>)
    ensures
        le_bytes(le_value(bytes), bytes.len()) == bytes,
    decreases bytes.len(),
{
    if bytes.len() > 0 {
        lemma_le_bytes_of_le_value(bytes.skip(1));
        let v = le_value(bytes);
        assert(v % 256 == bytes[0] as nat);
        assert(v / 256 == le_value(bytes.skip(1)));
        assert(le_bytes(v, bytes.len()) =~= bytes);
    }
}

/// The text of the error for a single byte requested outside a buffer.
pub open spec fn byte_request_text(offset: nat, len: nat) -> Seq<char> {
    "requested byte "@ + decimal_text(offset) + " from buffer of length "@ + decimal_text(len)
}

/// The text of the error for `width` bytes requested outside a buffer; the
/// end of the range is shown as far as the machine can count.
pub open spec fn range_request_text(offset: nat, width: nat, len: nat) -> Seq<char> {
    "requested range "@ + decimal_text(offset) + ".."@ + decimal_text(
        if offset + width > usize::MAX {
            usize::MAX as nat
        } else {
            offset + width
        },
    ) + " from buffer of length "@ + decimal_text(len)
}

/// The text of the error for a single byte requested outside a buffer.
fn byte_request_message(offset: usize, len: usize) -> (message: String)
    ensures
        message@ == byte_request_text(offset as nat, len as nat),
{
    let mut message = "requested byte ".to_owned();
    append_decimal(&mut message, offset);
    message.append(" from buffer of length ");
    append_decimal(&mut message, len);
    message
}

/// The text of the error for `width` bytes requested outside a buffer.
fn range_request_message(offset: usize, width: usize, len: usize) -> (message: String)
    ensures
        message@ == range_request_text(offset as nat, width as nat, len as nat),
{
    let mut message = "requested range ".to_owned();
    append_decimal(&mut message, offset);
    message.append("..");
    append_decimal(&mut message, offset.saturating_add(width));
    message.append(" from buffer of length ");
    append_decimal(&mut message, len);
    message
}

/// The byte at `offset`, or a `Parse` error where the buffer ends before it.
pub fn read_u8(bytes: &[u8], offset: usize) -> (result: Result<u8, NvmeError>)
    ensures
        offset < bytes@.len() ==> result == Ok::<u8, NvmeError>(bytes@[offset as int]),
        offset >= bytes@.len() ==> (result matches Err(NvmeError::Parse(message)) && message@
            == byte_request_text(offset as nat, bytes@.len())),
{
    if offset < bytes.len() {
        Ok(bytes[offset])
    } else {
        Err(NvmeError::Parse(byte_request_message(offset, bytes.len())))
    }
}

/// The `N` bytes that start at `offset`, or a `Parse` error where the buffer
/// does not hold them all.
pub fn slice<const N: usize>(bytes: &[u8], offset: usize) -> (result: Result<&[u8], NvmeError>)
    ensures
        offset + N <= bytes@.len() ==> (result matches Ok(run) && run@ == bytes@.subrange(
            offset as int,
            offset + N,
        )),
        offset + N > bytes@.len() ==> (result matches Err(NvmeError::Parse(message)) && message@
            == range_request_text(offset as nat, N as nat, bytes@.len())),
{
    match offset.checked_add(N) {
        Some(end) => {
            if end <= bytes.len() {
                return Ok(vstd::slice::slice_subrange(bytes, offset, end));
            }
        },
        None => {},
    }
    Err(NvmeError::Parse(range_request_message(offset, N, bytes.len())))
}

/// The number that a run of at most sixteen bytes spells.
fn decode_le(run: &[u8]) -> (value: u128)
    requires
        run@.len() <= 16,
    ensures
        value == le_value(run@),
{
    let mut value: u128 = 0;
    let mut index: usize = run.len();
    while index > 0
        invariant
            index <= run@.len() <= 16,
            value == le_value(run@.skip(index as int)),
        decreases index,
    {
        index = index - 1;
        proof {
            let tail = run@.skip(index as int);
            assert(tail.skip(1) =~= run@.skip(index + 1));
            lemma_le_value_bound(tail);
            assert(byte_span(tail.len()) <= byte_span(16)) by {
                lemma_byte_span_monotonic(tail.len(), 16);
            }
            assert(byte_span(16) == 0x1_0000_0000_0000_0000_0000_0000_0000_0000) by {
                reveal_with_fuel(byte_span, 17);
            }
        }
        value = value * 256 + run[index] as u128;
    }
    proof {
        assert(run@.skip(0) =~= run@);
    }
    value
}

/// The 16-bit number at `offset`, or a `Parse` error where the buffer does
/// not hold its two bytes.
pub fn read_u16_le(bytes: &[u8], offset: usize) -> (result: Result<u16, NvmeError>)
    ensures
        offset + 2 <= bytes@.len() ==> (result matches Ok(value) && value == le_value(
            bytes@.subrange(offset as int, offset + 2),
        )),
        offset + 2 > bytes@.len() ==> (result matches Err(NvmeError::Parse(message)) && message@
            == range_request_text(offset as nat, 2, bytes@.len())),
{
    let run = slice::<2>(bytes, offset)?;
    proof {
        lemma_le_value_bound(run@);
        reveal_with_fuel(byte_span, 3);
    }
    Ok(decode_le(run) as u16)
}

/// The 32-bit number at `offset`, or a `Parse` error where the buffer does
/// not hold its four bytes.
pub fn read_u32_le(bytes: &[u8], offset: usize) -> (result: Result<u32, NvmeError>)
    ensures
        offset + 4 <= bytes@.len() ==> (result matches Ok(value) && value == le_value(
            bytes@.subrange(offset as int, offset + 4),
        )),
        offset + 4 > bytes@.len() ==> (result matches Err(NvmeError::Parse(message)) && message@
            == range_request_text(offset as nat, 4, bytes@.len())),
{
    let run = slice::<4>(bytes, offset)?;
    proof {
        lemma_le_value_bound(run@);
        reveal_with_fuel(byte_span, 5);
    }
    Ok(decode_le(run) as u32)
}

/// The 64-bit number at `offset`, or a `Parse` error where the buffer does
/// not hold its eight bytes.
pub fn read_u64_le(bytes: &[u8], offset: usize) -> (result: Result<u64, NvmeError>)
    ensures
        offset + 8 <= bytes@.len() ==> (result matches Ok(value) && value == le_value(
            bytes@.subrange(offset as int, offset + 8),
        )),
        offset + 8 > bytes@.len() ==> (result matches Err(NvmeError::Parse(message)) && message@
            == range_request_text(offset as nat, 8, bytes@.len())),
{
    let run = slice::<8>(bytes, offset)?;
    proof {
        lemma_le_value_bound(run@);
        reveal_with_fuel(byte_span, 9);
    }
    Ok(decode_le(run) as u64)
}

/// The 128-bit number at `offset`, or a `Parse` error where the buffer does
/// not hold its sixteen bytes.
pub fn read_u128_le(bytes: &[u8], offset: usize) -> (result: Result<u128, NvmeError>)
    ensures
        offset + 16 <= bytes@.len() ==> (result matches Ok(value) && value == le_value(
            bytes@.subrange(offset as int, offset + 16),
        )),
        offset + 16 > bytes@.len() ==> (result matches Err(NvmeError::Parse(message)) && message@
            == range_request_text(offset as nat, 16, bytes@.len())),
{
    let run = slice::<16>(bytes, offset)?;
    Ok(decode_le(run))
}

} // verus!
