use limbo_values::record::MAX_HEADER_SIZE;
use limbo_values::value::{AggContext, OwnedRecord, OwnedValue};
use limbo_values::varint::{varint_size, write_varint};
use std::rc::Rc;

fn text(s: &str) -> OwnedValue {
    OwnedValue::Text(Rc::new(s.to_string()))
}

fn blob(b: &[u8]) -> OwnedValue {
    OwnedValue::Blob(Rc::new(b.to_vec()))
}

fn float(x: f64) -> OwnedValue {
    OwnedValue::Float(x.to_bits())
}

#[test]
fn serialize_mixed_row() {
    let row = OwnedRecord::new(vec![
        OwnedValue::Null,
        OwnedValue::Integer(42),
        float(1.5),
        text("hi"),
        blob(&[1, 2, 3]),
    ]);
    assert_eq!(row.header_size(), Some(6));
    let mut buf = Vec::new();
    row.serialize(&mut buf);
    let mut expected: Vec<u8> = vec![6, 0, 6, 7, 17, 18];
    expected.extend_from_slice(&42i64.to_be_bytes());
    expected.extend_from_slice(&1.5f64.to_be_bytes());
    expected.extend_from_slice(b"hi");
    expected.extend_from_slice(&[1, 2, 3]);
    assert_eq!(buf, expected);
}

#[test]
fn serialize_appends_to_buffer() {
    let row = OwnedRecord::new(vec![OwnedValue::Integer(-1)]);
    let mut buf = vec![0xaa, 0xbb];
    row.serialize(&mut buf);
    assert_eq!(buf, vec![0xaa, 0xbb, 2, 6, 0xff, 0xff, 0xff, 0xff, 0xff, 0xff, 0xff, 0xff]);
}

#[test]
fn header_size_boundary() {
    let fits = OwnedRecord::new((0..125).map(|_| OwnedValue::Null).collect());
    assert_eq!(fits.header_size(), Some(MAX_HEADER_SIZE));
    let too_large = OwnedRecord::new((0..126).map(|_| OwnedValue::Null).collect());
    assert_eq!(too_large.header_size(), None);
}

#[test]
fn varint_forms() {
    let cases: Vec<(u64, Vec<u8>)> = vec![
        (0, vec![0x00]),
        (0x7f, vec![0x7f]),
        (0x80, vec![0x81, 0x00]),
        (0x3fff, vec![0xff, 0x7f]),
        (0x4000, vec![0x81, 0x80, 0x00]),
        (u64::MAX, vec![0xff; 9]),
        (0x0100_0000_0000_0000, vec![0x80, 0xc0, 0x80, 0x80, 0x80, 0x80, 0x80, 0x80, 0x00]),
    ];
    for (value, bytes) in cases {
        let mut buf = Vec::new();
        let n = write_varint(&mut buf, value);
        assert_eq!(buf, bytes);
        assert_eq!(n, bytes.len());
        assert_eq!(varint_size(value), bytes.len());
    }
}

/// Reads one varint: its value and its length.
fn read_varint(bytes: &[u8]) -> (u64, usize) {
    let mut value: u64 = 0;
    for (i, byte) in bytes.iter().enumerate().take(8) {
        value = (value << 7) | (*byte & 0x7f) as u64;
        if byte & 0x80 == 0 {
            return (value, i + 1);
        }
    }
    ((value << 8) | bytes[8] as u64, 9)
}

/// Splits a row's bytes into its serial types and its payload.
fn parse(bytes: &[u8]) -> (Vec<u64>, Vec<u8>) {
    let (header_size, mut at) = read_varint(bytes);
    let mut types = Vec::new();
    while at < header_size as usize {
        let (code, n) = read_varint(&bytes[at..]);
        types.push(code);
        at += n;
    }
    assert_eq!(at, header_size as usize);
    (types, bytes[at..].to_vec())
}

#[test]
fn record_round_trip() {
    let row = OwnedRecord::new(vec![
        OwnedValue::Null,
        OwnedValue::Integer(42),
        float(1.5),
        text("hi"),
        blob(&[1, 2, 3]),
    ]);
    let mut buf = Vec::new();
    row.serialize(&mut buf);
    let (types, payload) = parse(&buf);
    assert_eq!(types, vec![0, 6, 7, 17, 18]);
    let mut at = 0;
    let mut read = Vec::new();
    for code in types {
        let value = match code {
            0 => OwnedValue::Null,
            6 => {
                let bytes: [u8; 8] = payload[at..at + 8].try_into().unwrap();
                at += 8;
                OwnedValue::Integer(i64::from_be_bytes(bytes))
            }
            7 => {
                let bytes: [u8; 8] = payload[at..at + 8].try_into().unwrap();
                at += 8;
                float(f64::from_be_bytes(bytes))
            }
            n if n >= 13 && n % 2 == 1 => {
                let len = ((n - 13) / 2) as usize;
                let s = String::from_utf8(payload[at..at + len].to_vec()).unwrap();
                at += len;
                text(&s)
            }
            n if n >= 12 => {
                let len = ((n - 12) / 2) as usize;
                let b = payload[at..at + len].to_vec();
                at += len;
                blob(&b)
            }
            _ => panic!("unknown serial type"),
        };
        read.push(value);
    }
    assert_eq!(at, payload.len());
    assert_eq!(OwnedRecord::new(read), row);
}

#[test]
fn long_columns_take_longer_serial_types() {
    let long = "x".repeat(100);
    let row = OwnedRecord::new(vec![text(&long), blob(&vec![7u8; 9000])]);
    assert_eq!(row.header_size(), Some(1 + 2 + 3));
    let mut buf = Vec::new();
    row.serialize(&mut buf);
    let (types, payload) = parse(&buf);
    assert_eq!(types, vec![213, 18012]);
    assert_eq!(payload.len(), 9100);
    assert_eq!(&buf[..6], &[6, 0x81, 0x55, 0x81, 0x8c, 0x5c]);
}

#[test]
fn serial_types_of_values() {
    assert_eq!(OwnedValue::Null.serial_type(), Some(0));
    assert_eq!(OwnedValue::Integer(1).serial_type(), Some(6));
    assert_eq!(float(0.0).serial_type(), Some(7));
    assert_eq!(text("").serial_type(), Some(13));
    assert_eq!(text("hi").serial_type(), Some(17));
    assert_eq!(text("é").serial_type(), Some(17));
    assert_eq!(blob(&[]).serial_type(), Some(12));
    assert_eq!(blob(&[1, 2, 3]).serial_type(), Some(18));
}

#[test]
fn accumulators_and_rows_are_not_stored() {
    let sum = OwnedValue::Agg(Box::new(AggContext::Sum(OwnedValue::Integer(1))));
    assert_eq!(sum.serial_type(), None);
    let nested = OwnedValue::Record(OwnedRecord::new(vec![]));
    assert_eq!(nested.serial_type(), None);
    assert_eq!(OwnedRecord::new(vec![OwnedValue::Integer(1), sum]).header_size(), None);
    assert_eq!(OwnedRecord::new(vec![nested]).header_size(), None);
}

#[test]
fn an_empty_row_is_its_header_size() {
    let row = OwnedRecord::new(vec![]);
    assert_eq!(row.header_size(), Some(1));
    let mut buf = Vec::new();
    row.serialize(&mut buf);
    assert_eq!(buf, vec![1]);
}

#[test]
fn header_size_counts_multi_byte_serial_types() {
    let long = "x".repeat(58);
    let columns: Vec<OwnedValue> = (0..62).map(|_| text(&long)).collect();
    let mut row = OwnedRecord::new(columns);
    assert_eq!(row.header_size(), Some(125));
    row.values.push(OwnedValue::Null);
    assert_eq!(row.header_size(), Some(126));
    row.values.push(OwnedValue::Null);
    assert_eq!(row.header_size(), None);
    row.values.pop();
    row.values.pop();
    row.values.push(text(&long));
    assert_eq!(row.header_size(), None);
}

#[test]
fn floats_are_stored_by_their_bits() {
    let row = OwnedRecord::new(vec![float(-0.0), float(f64::INFINITY), OwnedValue::Integer(i64::MIN)]);
    let mut buf = Vec::new();
    row.serialize(&mut buf);
    let mut expected = vec![4u8, 7, 7, 6];
    expected.extend_from_slice(&(-0.0f64).to_be_bytes());
    expected.extend_from_slice(&f64::INFINITY.to_be_bytes());
    expected.extend_from_slice(&i64::MIN.to_be_bytes());
    assert_eq!(buf, expected);
}
