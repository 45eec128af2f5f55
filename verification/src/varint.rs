//! Variable-length encoding of unsigned 64-bit integers.
//!
//! A number takes one to nine bytes. Every byte but the last carries seven
//! bits of the number, most significant group first, under a set high bit.
//! The last byte carries the low seven bits under a clear high bit, except in
//! the nine-byte form, where it carries the low eight bits.

use vstd::prelude::*;

verus! {

/// The least number that needs the nine-byte form.
pub const NINE_BYTE_FLOOR: u64 = 0x0100_0000_0000_0000;

/// Number of bytes that the encoding of `value` takes.
pub open spec fn varint_len(value: u64) -> nat {
    if value < 0x80 {
        1
    } else if value < 0x4000 {
        2
    } else if value < 0x20_0000 {
        3
    } else if value < 0x1000_0000 {
        4
    } else if value < 0x8_0000_0000 {
        5
    } else if value < 0x400_0000_0000 {
        6
    } else if value < 0x2_0000_0000_0000 {
        7
    } else if value < NINE_BYTE_FLOOR {
        8
    } else {
        9
    }
}

/// `count` bytes with a set high bit that carry the low `7 * count` bits of
/// `high`, most significant group first.
pub open spec fn continuation_bytes(high: nat, count: nat) -> Seq<u8>
    decreases count,
{
    if count == 0 {
        Seq::empty()
    } else {
        continuation_bytes(high / 128, (count - 1) as nat).push((128 + high % 128) as u8)
    }
}

/// The encoding of `value`.
pub open spec fn varint_bytes(value: u64) -> Seq<u8> {
    if value < NINE_BYTE_FLOOR {
        continuation_bytes((value / 128) as nat, (varint_len(value) - 1) as nat).push(
            (value % 128) as u8,
        )
    } else {
        continuation_bytes((value / 256) as nat, 8).push((value % 256) as u8)
    }
}

/// The encoding is as long as `varint_len` says.
pub proof fn lemma_varint_bytes_len(value: u64)
    ensures
        varint_bytes(value).len() == varint_len(value),
        1 <= varint_len(value) <= 9,
{
    if value < NINE_BYTE_FLOOR {
        lemma_continuation_bytes_len((value / 128) as nat, (varint_len(value) - 1) as nat);
    } else {
        lemma_continuation_bytes_len((value / 256) as nat, 8);
    }
}

/// `continuation_bytes` yields `count` bytes, each with its high bit set.
pub proof fn lemma_continuation_bytes_len(high: nat, count: nat)
    ensures
        continuation_bytes(high, count).len() == count,
        forall|i: int| 0 <= i < count ==> #[trigger] continuation_bytes(high, count)[i] >= 128,
    decreases count,
{
    if count > 0 {
        lemma_continuation_bytes_len(high / 128, (count - 1) as nat);
    }
}

/// The number that bytes carry in their low seven bits each, most
/// significant group first.
pub open spec fn groups_value(bytes: Seq<u8>) -> nat
    decreases bytes.len(),
{
    if bytes.len() == 0 {
        0
    } else {
        groups_value(bytes.drop_last()) * 128 + (bytes.last() % 128) as nat
    }
}

/// The number that a whole encoding stands for: the groups of all bytes
/// but the last, followed by the last byte's seven bits or, in the
/// nine-byte form, its eight bits.
pub open spec fn varint_value(bytes: Seq<u8>) -> nat {
    if bytes.len() == 0 {
        0
    } else if bytes.len() == 9 {
        groups_value(bytes.drop_last()) * 256 + bytes.last() as nat
    } else {
        groups_value(bytes.drop_last()) * 128 + bytes.last() as nat
    }
}

/// 128 to the power `count`.
pub open spec fn groups_limit(count: nat) -> nat
    decreases count,
{
    if count == 0 {
        1
    } else {
        128 * groups_limit((count - 1) as nat)
    }
}

/// Continuation bytes carry a number that fits in them.
pub proof fn lemma_groups_value(high: nat, count: nat)
    requires
        high < groups_limit(count),
    ensures
        groups_value(continuation_bytes(high, count)) == high,
    decreases count,
{
    if count > 0 {
        let bytes = continuation_bytes(high, count);
        lemma_continuation_bytes_len(high / 128, (count - 1) as nat);
        assert(bytes.drop_last() =~= continuation_bytes(high / 128, (count - 1) as nat));
        lemma_groups_value(high / 128, (count - 1) as nat);
    }
}

/// An encoding stands for the number it was made of.
pub proof fn lemma_varint_value(value: u64)
    ensures
        varint_value(varint_bytes(value)) == value,
{
    reveal_with_fuel(groups_limit, 9);
    lemma_varint_bytes_len(value);
    let bytes = varint_bytes(value);
    if value < NINE_BYTE_FLOOR {
        let count = (varint_len(value) - 1) as nat;
        lemma_continuation_bytes_len((value / 128) as nat, count);
        assert(bytes.drop_last() =~= continuation_bytes((value / 128) as nat, count));
        lemma_groups_value((value / 128) as nat, count);
    } else {
        lemma_continuation_bytes_len((value / 256) as nat, 8);
        assert(bytes.drop_last() =~= continuation_bytes((value / 256) as nat, 8));
        lemma_groups_value((value / 256) as nat, 8);
    }
}

/// Every byte of an encoding but the last has its high bit set, and the
/// last byte of an encoding shorter than nine bytes has it clear.
pub proof fn lemma_varint_bytes_shape(value: u64)
    ensures
        forall|i: int|
            0 <= i < varint_len(value) - 1 ==> #[trigger] varint_bytes(value)[i] >= 128,
        varint_len(value) < 9 ==> varint_bytes(value)[varint_len(value) - 1] < 128,
{
    lemma_varint_bytes_len(value);
    if value < NINE_BYTE_FLOOR {
        lemma_continuation_bytes_len((value / 128) as nat, (varint_len(value) - 1) as nat);
    } else {
        lemma_continuation_bytes_len((value / 256) as nat, 8);
    }
}

/// No encoding is the start of another: where two encodings, each followed
/// by more bytes, give the same bytes, they are encodings of one number,
/// followed by the same bytes.
pub proof fn lemma_varint_prefix_free(x: u64, y: u64, after_x: Seq<u8>, after_y: Seq<u8>)
    requires
        varint_bytes(x) + after_x == varint_bytes(y) + after_y,
    ensures
        x == y,
        after_x == after_y,
{
    let whole = varint_bytes(x) + after_x;
    let n = varint_len(x) as int;
    let m = varint_len(y) as int;
    lemma_varint_bytes_len(x);
    lemma_varint_bytes_len(y);
    lemma_varint_bytes_shape(x);
    lemma_varint_bytes_shape(y);
    if n < m {
        assert(whole[n - 1] == varint_bytes(x)[n - 1]);
        assert(whole[n - 1] == varint_bytes(y)[n - 1]);
    } else if m < n {
        assert(whole[m - 1] == varint_bytes(x)[m - 1]);
        assert(whole[m - 1] == varint_bytes(y)[m - 1]);
    }
    assert(n == m);
    assert(varint_bytes(x) =~= whole.take(n));
    assert(varint_bytes(y) =~= whole.take(n));
    lemma_varint_value(x);
    lemma_varint_value(y);
    assert(after_x =~= whole.skip(n));
    assert(after_y =~= whole.skip(n));
}

/// Number of bytes that the encoding of `value` takes.
pub fn varint_size(value: u64) -> (n: usize)
    ensures
        n == varint_len(value),
        1 <= n <= 9,
{
    if value < 0x80 {
        1
    } else if value < 0x4000 {
        2
    } else if value < 0x20_0000 {
        3
    } else if value < 0x1000_0000 {
        4
    } else if value < 0x8_0000_0000 {
        5
    } else if value < 0x400_0000_0000 {
        6
    } else if value < 0x2_0000_0000_0000 {
        7
    } else if value < NINE_BYTE_FLOOR {
        8
    } else {
        9
    }
}

/// Appends `count` continuation bytes for `high` to `buf`.
fn push_continuation_bytes(buf: &mut Vec<u8>, high: u64, count: usize)
    requires
        count <= 8,
    ensures
        final(buf)@ == old(buf)@ + continuation_bytes(high as nat, count as nat),
    decreases count,
{
    if count > 0 {
        push_continuation_bytes(buf, high / 128, count - 1);
        let low: u64 = 128 + high % 128;
        buf.push(low as u8);
        assert(final(buf)@ =~= old(buf)@ + continuation_bytes(high as nat, count as nat));
    } else {
        assert(buf@ =~= old(buf)@ + continuation_bytes(high as nat, count as nat));
    }
}

/// Appends the encoding of `value` to `buf` and returns the number of bytes
/// written.
pub fn write_varint(buf: &mut Vec<u8>, value: u64) -> (n: usize)
    ensures
        final(buf)@ == old(buf)@ + varint_bytes(value),
        n == varint_len(value),
        1 <= n <= 9,
{
    let n = varint_size(value);
    if value < NINE_BYTE_FLOOR {
        push_continuation_bytes(buf, value / 128, n - 1);
        let low: u64 = value % 128;
        buf.push(low as u8);
    } else {
        push_continuation_bytes(buf, value / 256, 8);
        let low: u64 = value % 256;
        buf.push(low as u8);
    }
    assert(buf@ =~= old(buf)@ + varint_bytes(value));
    n
}

} // verus!
