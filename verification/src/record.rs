//! The binary form of a row.
//!
//! A row is written as a header followed by the payload. The header starts
//! with its own size in bytes as a varint and goes on with one varint per
//! column, the column's serial type. The payload holds the columns' bytes in
//! column order.
//!
//! Integers and floats always take eight bytes, whatever their magnitude,
//! so a row written here can be read by a reader of the full format, but
//! is larger than it needs to be. Only headers of at most
//! [`MAX_HEADER_SIZE`] bytes are written: the size then fits in one byte.

use crate::value::OwnedRecord;
use crate::value::OwnedValue;
use crate::value::ValueView;
use crate::varint::lemma_varint_bytes_len;
use crate::varint::lemma_varint_prefix_free;
use crate::varint::varint_bytes;
use crate::varint::varint_size;
use crate::varint::write_varint;
use vstd::prelude::*;
use vstd::utf8::encode_utf8;
use vstd::utf8::encode_utf8_decode_utf8;

verus! {

/// The largest header, its size byte included, that is written.
pub const MAX_HEADER_SIZE: usize = 126;

/// The eight bytes of `x`, most significant first.
pub open spec fn big_endian(x: u64) -> Seq<u8> {
    seq![
        (x / 0x0100_0000_0000_0000) as u8,
        (x / 0x0001_0000_0000_0000 % 256) as u8,
        (x / 0x0000_0100_0000_0000 % 256) as u8,
        (x / 0x0000_0001_0000_0000 % 256) as u8,
        (x / 0x0000_0000_0100_0000 % 256) as u8,
        (x / 0x0000_0000_0001_0000 % 256) as u8,
        (x / 0x0000_0000_0000_0100 % 256) as u8,
        (x % 256) as u8,
    ]
}

/// The unsigned number with the bits of `i` in two's complement.
pub open spec fn twos_complement(i: i64) -> u64 {
    if i >= 0 {
        i as u64
    } else {
        (i + 0x1_0000_0000_0000_0000) as u64
    }
}

impl ValueView {
    /// Whether the value can be stored in a row: it is neither an
    /// accumulator nor a row, and its serial type is a 64-bit number.
    pub open spec fn is_storable(self) -> bool {
        !(self is Agg) && !(self is Record) && self.serial_type() <= u64::MAX
    }

    /// The code that tells a reader the type of a stored value and, for
    /// text and blob, its length in bytes.
    pub open spec fn serial_type(self) -> nat {
        match self {
            ValueView::Null => 0,
            ValueView::Integer(_) => 6,
            ValueView::Float(_) => 7,
            ValueView::Text(t) => 2 * encode_utf8(t).len() + 13,
            ValueView::Blob(b) => 2 * b.len() + 12,
            _ => 0,
        }
    }

    /// The bytes that a stored value takes in the payload: eight bytes,
    /// most significant first, for an integer or a float, the UTF-8 form of
    /// a text, the bytes of a blob, nothing for `Null`.
    pub open spec fn payload(self) -> Seq<u8> {
        match self {
            ValueView::Integer(i) => big_endian(twos_complement(i)),
            ValueView::Float(bits) => big_endian(bits),
            ValueView::Text(t) => encode_utf8(t),
            ValueView::Blob(b) => b,
            _ => Seq::empty(),
        }
    }
}

/// The serial types of a row's columns, each as a varint, in column order.
pub open spec fn serial_types(row: Seq<ValueView>) -> Seq<u8>
    decreases row.len(),
{
    if row.len() == 0 {
        Seq::empty()
    } else {
        serial_types(row.drop_last()) + varint_bytes(row.last().serial_type() as u64)
    }
}

/// The payloads of a row's columns in column order.
pub open spec fn payloads(row: Seq<ValueView>) -> Seq<u8>
    decreases row.len(),
{
    if row.len() == 0 {
        Seq::empty()
    } else {
        payloads(row.drop_last()) + row.last().payload()
    }
}

/// The size of a row's header: the bytes of its serial types and one byte
/// for the size itself.
pub open spec fn header_size(row: Seq<ValueView>) -> nat {
    serial_types(row).len() + 1
}

/// Whether the row can be written: every column can be stored, and the
/// header is small enough.
pub open spec fn serializable(row: Seq<ValueView>) -> bool {
    &&& forall|i: int| 0 <= i < row.len() ==> (#[trigger] row[i]).is_storable()
    &&& header_size(row) <= MAX_HEADER_SIZE
}

/// The binary form of a row.
pub open spec fn record_bytes(row: Seq<ValueView>) -> Seq<u8> {
    varint_bytes(header_size(row) as u64) + serial_types(row) + payloads(row)
}

/// The binary form of a row that can be written starts with one byte that
/// holds the size of the header, and is as long as the header and the
/// payloads together.
pub proof fn lemma_record_bytes_layout(row: Seq<ValueView>)
    requires
        serializable(row),
    ensures
        record_bytes(row).len() == header_size(row) + payloads(row).len(),
        record_bytes(row)[0] == header_size(row),
        record_bytes(row).subrange(1, header_size(row) as int) == serial_types(row),
        record_bytes(row).skip(header_size(row) as int) == payloads(row),
{
    let size = header_size(row) as u64;
    assert(varint_bytes(size) =~= seq![size as u8]) by {
        reveal_with_fuel(crate::varint::continuation_bytes, 1);
    }
    assert(record_bytes(row).subrange(1, header_size(row) as int) =~= serial_types(row));
    assert(record_bytes(row).skip(header_size(row) as int) =~= payloads(row));
}

/// The serial types of a row's first columns take no more bytes than those
/// of the whole row.
proof fn lemma_serial_types_grow(row: Seq<ValueView>, n: int)
    requires
        0 <= n <= row.len(),
    ensures
        serial_types(row.take(n)).len() <= serial_types(row).len(),
    decreases row.len() - n,
{
    if n < row.len() {
        lemma_serial_types_grow(row, n + 1);
        assert(row.take(n + 1).drop_last() =~= row.take(n));
    } else {
        assert(row.take(n) =~= row);
    }
}

/// With one more column, the serial types grow by that column's varint and
/// the payloads by its bytes.
proof fn lemma_next_column(row: Seq<ValueView>, n: int)
    requires
        0 <= n < row.len(),
    ensures
        serial_types(row.take(n + 1)) == serial_types(row.take(n)) + varint_bytes(
            row[n].serial_type() as u64,
        ),
        payloads(row.take(n + 1)) == payloads(row.take(n)) + row[n].payload(),
{
    assert(row.take(n + 1).drop_last() =~= row.take(n));
    assert(row.take(n + 1).last() == row[n]);
}

/// The serial types and the payloads of a row start with those of its first
/// column and go on with those of the columns after it.
pub proof fn lemma_first_column(row: Seq<ValueView>)
    requires
        row.len() > 0,
    ensures
        serial_types(row) == varint_bytes(row[0].serial_type() as u64) + serial_types(
            row.drop_first(),
        ),
        payloads(row) == row[0].payload() + payloads(row.drop_first()),
    decreases row.len(),
{
    if row.len() == 1 {
        assert(row.drop_last() =~= Seq::<ValueView>::empty());
        assert(row.drop_first() =~= Seq::<ValueView>::empty());
        assert(serial_types(row) =~= varint_bytes(row[0].serial_type() as u64) + serial_types(
            row.drop_first(),
        ));
        assert(payloads(row) =~= row[0].payload() + payloads(row.drop_first()));
    } else {
        let front = row.drop_last();
        let back = row.drop_first();
        lemma_first_column(front);
        assert(front.drop_first() =~= back.drop_last());
        assert(back.last() == row.last());
        assert(serial_types(row) =~= varint_bytes(row[0].serial_type() as u64) + serial_types(
            back,
        ));
        assert(payloads(row) =~= row[0].payload() + payloads(back));
    }
}

/// The number of payload bytes that a serial type announces.
pub open spec fn payload_len(serial_type: nat) -> nat {
    if serial_type == 6 || serial_type == 7 {
        8
    } else if serial_type >= 12 {
        ((serial_type - 12) / 2) as nat
    } else {
        0
    }
}

/// A stored value takes as many payload bytes as its serial type
/// announces.
pub proof fn lemma_payload_len(v: ValueView)
    requires
        v.is_storable(),
    ensures
        v.payload().len() == payload_len(v.serial_type()),
{
}

/// Eight bytes, most significant first, stand for one number only.
pub proof fn lemma_big_endian_unique(x: u64, y: u64)
    requires
        big_endian(x) == big_endian(y),
    ensures
        x == y,
{
    lemma_big_endian_value(x);
    lemma_big_endian_value(y);
}

/// The number that eight bytes, most significant first, stand for.
pub open spec fn big_endian_value(bytes: Seq<u8>) -> nat {
    (((((((bytes[0] as nat * 256 + bytes[1] as nat) * 256 + bytes[2] as nat) * 256
        + bytes[3] as nat) * 256 + bytes[4] as nat) * 256 + bytes[5] as nat) * 256
        + bytes[6] as nat) * 256 + bytes[7] as nat)
}

/// The eight bytes of a number stand for it.
pub proof fn lemma_big_endian_value(x: u64)
    ensures
        big_endian_value(big_endian(x)) == x,
{
    let b = big_endian(x);
    let x1 = x / 0x100;
    let x2 = x1 / 0x100;
    let x3 = x2 / 0x100;
    let x4 = x3 / 0x100;
    let x5 = x4 / 0x100;
    let x6 = x5 / 0x100;
    let x7 = x6 / 0x100;
    assert(x2 == x / 0x0000_0000_0001_0000);
    assert(x3 == x / 0x0000_0000_0100_0000);
    assert(x4 == x / 0x0000_0001_0000_0000);
    assert(x5 == x / 0x0000_0100_0000_0000);
    assert(x6 == x / 0x0001_0000_0000_0000);
    assert(x7 == x / 0x0100_0000_0000_0000);
    assert(b[7] == x % 256);
    assert(b[6] == x1 % 256);
    assert(b[5] == x2 % 256);
    assert(b[4] == x3 % 256);
    assert(b[3] == x4 % 256);
    assert(b[2] == x5 % 256);
    assert(b[1] == x6 % 256);
    assert(b[0] == x7);
    assert(x6 == x7 * 256 + b[1]);
    assert(x5 == x6 * 256 + b[2]);
    assert(x4 == x5 * 256 + b[3]);
    assert(x3 == x4 * 256 + b[4]);
    assert(x2 == x3 * 256 + b[5]);
    assert(x1 == x2 * 256 + b[6]);
    assert(x == x1 * 256 + b[7]);
}

/// A stored value is known by its serial type and its payload.
pub proof fn lemma_stored_value_unique(x: ValueView, y: ValueView)
    requires
        x.is_storable(),
        y.is_storable(),
        x.serial_type() == y.serial_type(),
        x.payload() == y.payload(),
    ensures
        x == y,
{
    match (x, y) {
        (ValueView::Integer(i), ValueView::Integer(j)) => {
            lemma_big_endian_unique(twos_complement(i), twos_complement(j));
        },
        (ValueView::Float(a), ValueView::Float(b)) => {
            lemma_big_endian_unique(a, b);
        },
        (ValueView::Text(s), ValueView::Text(t)) => {
            encode_utf8_decode_utf8(s);
            encode_utf8_decode_utf8(t);
        },
        _ => {},
    }
}

/// Rows of stored values are known by their serial types and their
/// payloads.
pub proof fn lemma_rows_unique(a: Seq<ValueView>, b: Seq<ValueView>)
    requires
        forall|i: int| 0 <= i < a.len() ==> (#[trigger] a[i]).is_storable(),
        forall|i: int| 0 <= i < b.len() ==> (#[trigger] b[i]).is_storable(),
        serial_types(a) == serial_types(b),
        payloads(a) == payloads(b),
    ensures
        a == b,
    decreases a.len(),
{
    if a.len() == 0 || b.len() == 0 {
        if a.len() > 0 {
            lemma_first_column(a);
            lemma_varint_bytes_len(a[0].serial_type() as u64);
            assert(serial_types(a).len() > 0);
            assert(serial_types(b).len() == 0);
        }
        if b.len() > 0 {
            lemma_first_column(b);
            lemma_varint_bytes_len(b[0].serial_type() as u64);
            assert(serial_types(b).len() > 0);
            assert(serial_types(a).len() == 0);
        }
        assert(a =~= b);
    } else {
        lemma_first_column(a);
        lemma_first_column(b);
        let rest_a = a.drop_first();
        let rest_b = b.drop_first();
        lemma_varint_prefix_free(
            a[0].serial_type() as u64,
            b[0].serial_type() as u64,
            serial_types(rest_a),
            serial_types(rest_b),
        );
        assert(a[0].serial_type() == b[0].serial_type());
        lemma_payload_len(a[0]);
        lemma_payload_len(b[0]);
        let n = a[0].payload().len() as int;
        assert(a[0].payload() =~= payloads(a).take(n));
        assert(b[0].payload() =~= payloads(b).take(n));
        assert(payloads(rest_a) =~= payloads(a).skip(n));
        assert(payloads(rest_b) =~= payloads(b).skip(n));
        lemma_stored_value_unique(a[0], b[0]);
        assert forall|i: int| 0 <= i < rest_a.len() implies (#[trigger] rest_a[i]).is_storable() by {
            assert(rest_a[i] == a[i + 1]);
        }
        assert forall|i: int| 0 <= i < rest_b.len() implies (#[trigger] rest_b[i]).is_storable() by {
            assert(rest_b[i] == b[i + 1]);
        }
        lemma_rows_unique(rest_a, rest_b);
        assert(a =~= seq![a[0]] + rest_a);
        assert(b =~= seq![b[0]] + rest_b);
    }
}

/// The binary form of a row tells the row: two rows that can be written
/// and have the same binary form are equal, column by column. A reader
/// that follows the format gets back the serial types, the payloads and the
/// values that were written.
pub proof fn lemma_record_bytes_unique(a: Seq<ValueView>, b: Seq<ValueView>)
    requires
        serializable(a),
        serializable(b),
        record_bytes(a) == record_bytes(b),
    ensures
        a == b,
{
    lemma_record_bytes_layout(a);
    lemma_record_bytes_layout(b);
    assert(header_size(a) == header_size(b)) by {
        assert(record_bytes(a)[0] == record_bytes(b)[0]);
    }
    lemma_rows_unique(a, b);
}

/// Appends the eight bytes of `x`, most significant first.
fn push_big_endian(buf: &mut Vec<u8>, x: u64)
    ensures
        final(buf)@ == old(buf)@ + big_endian(x),
{
    buf.push((x / 0x0100_0000_0000_0000) as u8);
    buf.push((x / 0x0001_0000_0000_0000 % 256) as u8);
    buf.push((x / 0x0000_0100_0000_0000 % 256) as u8);
    buf.push((x / 0x0000_0001_0000_0000 % 256) as u8);
    buf.push((x / 0x0000_0000_0100_0000 % 256) as u8);
    buf.push((x / 0x0000_0000_0001_0000 % 256) as u8);
    buf.push((x / 0x0000_0000_0000_0100 % 256) as u8);
    buf.push((x % 256) as u8);
    assert(buf@ =~= old(buf)@ + big_endian(x));
}

/// Appends the bytes of `bytes`.
fn push_bytes(buf: &mut Vec<u8>, bytes: &[u8])
    ensures
        final(buf)@ == old(buf)@ + bytes@,
{
    let mut i: usize = 0;
    while i < bytes.len()
        invariant
            i <= bytes@.len(),
            buf@ == old(buf)@ + bytes@.take(i as int),
        decreases bytes@.len() - i,
    {
        buf.push(bytes[i]);
        assert(bytes@.take(i + 1) =~= bytes@.take(i as int).push(bytes@[i as int]));
        i = i + 1;
    }
    assert(bytes@.take(i as int) =~= bytes@);
}

/// The unsigned number with the bits of `i`.
fn to_unsigned(i: i64) -> (r: u64)
    ensures
        r == twos_complement(i),
{
    if i >= 0 {
        i as u64
    } else {
        let above_least: u64 = (i - i64::MIN) as u64;
        above_least + 0x8000_0000_0000_0000
    }
}

impl OwnedValue {
    /// The value's serial type, where the value can be stored.
    pub fn serial_type(&self) -> (r: Option<u64>)
        ensures
            r is Some <==> self@.is_storable(),
            r matches Some(code) ==> code == self@.serial_type(),
    {
        match self {
            OwnedValue::Null => Some(0),
            OwnedValue::Integer(_) => Some(6),
            OwnedValue::Float(_) => Some(7),
            OwnedValue::Text(t) => {
                let len = t.as_str().as_bytes().len() as u64;
                if len <= (u64::MAX - 13) / 2 {
                    Some(len * 2 + 13)
                } else {
                    None
                }
            },
            OwnedValue::Blob(b) => {
                let len = b.len() as u64;
                if len <= (u64::MAX - 12) / 2 {
                    Some(len * 2 + 12)
                } else {
                    None
                }
            },
            OwnedValue::Agg(_) => None,
            OwnedValue::Record(_) => None,
        }
    }

    /// Appends the value's payload to `buf`.
    fn write_payload(&self, buf: &mut Vec<u8>)
        requires
            self@.is_storable(),
        ensures
            final(buf)@ == old(buf)@ + self@.payload(),
    {
        match self {
            OwnedValue::Null => {
                assert(buf@ =~= old(buf)@ + self@.payload());
            },
            OwnedValue::Integer(i) => push_big_endian(buf, to_unsigned(*i)),
            OwnedValue::Float(bits) => push_big_endian(buf, *bits),
            OwnedValue::Text(t) => push_bytes(buf, t.as_str().as_bytes()),
            OwnedValue::Blob(b) => push_bytes(buf, b.as_slice()),
            OwnedValue::Agg(_) => {
                proof {
                    assert(false);
                }
            },
            OwnedValue::Record(_) => {
                proof {
                    assert(false);
                }
            },
        }
    }
}

impl OwnedRecord {
    /// The size of the row's header, where the row can be written: every
    /// column can be stored and the header takes at most
    /// [`MAX_HEADER_SIZE`] bytes.
    pub fn header_size(&self) -> (r: Option<usize>)
        ensures
            r is Some <==> serializable(self@),
            r matches Some(size) ==> size == header_size(self@),
    {
        let mut size: usize = 1;
        let mut i: usize = 0;
        while i < self.values.len()
            invariant
                i <= self.values@.len(),
                size == header_size(self@.take(i as int)),
                size <= MAX_HEADER_SIZE,
                forall|k: int| 0 <= k < i ==> (#[trigger] self@[k]).is_storable(),
            decreases self.values@.len() - i,
        {
            proof {
                lemma_next_column(self@, i as int);
                lemma_serial_types_grow(self@, i + 1);
                lemma_varint_bytes_len(self@[i as int].serial_type() as u64);
            }
            match self.values[i].serial_type() {
                Some(code) => {
                    let n = varint_size(code);
                    if n > MAX_HEADER_SIZE - size {
                        return None;
                    }
                    size = size + n;
                },
                None => {
                    return None;
                },
            }
            i = i + 1;
        }
        assert(self@.take(i as int) =~= self@);
        Some(size)
    }

    /// Appends the binary form of the row to `buf`.
    pub fn serialize(&self, buf: &mut Vec<u8>)
        requires
            serializable(self@),
        ensures
            final(buf)@ == old(buf)@ + record_bytes(self@),
    {
        let size = match self.header_size() {
            Some(size) => size,
            None => {
                proof {
                    assert(false);
                }
                0
            },
        };
        write_varint(buf, size as u64);
        let ghost start = buf@;
        let mut i: usize = 0;
        while i < self.values.len()
            invariant
                i <= self.values@.len(),
                serializable(self@),
                buf@ == start + serial_types(self@.take(i as int)),
            decreases self.values@.len() - i,
        {
            proof {
                lemma_next_column(self@, i as int);
            }
            match self.values[i].serial_type() {
                Some(code) => {
                    write_varint(buf, code);
                },
                None => {
                    proof {
                        assert(false);
                    }
                },
            }
            assert(buf@ =~= start + serial_types(self@.take(i + 1)));
            i = i + 1;
        }
        assert(self@.take(i as int) =~= self@);
        let ghost header = buf@;
        let mut j: usize = 0;
        while j < self.values.len()
            invariant
                j <= self.values@.len(),
                serializable(self@),
                buf@ == header + payloads(self@.take(j as int)),
            decreases self.values@.len() - j,
        {
            proof {
                lemma_next_column(self@, j as int);
            }
            self.values[j].write_payload(buf);
            assert(buf@ =~= header + payloads(self@.take(j + 1)));
            j = j + 1;
        }
        assert(self@.take(j as int) =~= self@);
        assert(buf@ =~= old(buf)@ + record_bytes(self@));
    }
}

} // verus!
