use limbo_values::render::Rendered;
use limbo_values::value::{AggContext, OwnedRecord, OwnedValue, Value};
use std::rc::Rc;

fn text(s: &str) -> OwnedValue {
    OwnedValue::Text(Rc::new(s.to_string()))
}

fn blob(b: &[u8]) -> OwnedValue {
    OwnedValue::Blob(Rc::new(b.to_vec()))
}

fn agg(a: AggContext) -> OwnedValue {
    OwnedValue::Agg(Box::new(a))
}

fn shown(s: &str) -> Rendered<'static> {
    Rendered::Text(s.to_string())
}

#[test]
fn owned_values_render() {
    assert_eq!(OwnedValue::Null.render(), shown("NULL"));
    assert_eq!(OwnedValue::Integer(-42).render(), shown("-42"));
    assert_eq!(OwnedValue::Integer(0).render(), shown("0"));
    assert_eq!(text("héllo").render(), shown("héllo"));
    assert_eq!(text("").render(), shown(""));
    assert_eq!(
        OwnedValue::Float(1.5f64.to_bits()).render(),
        Rendered::Float(1.5f64.to_bits())
    );
    let row = OwnedRecord::new(vec![OwnedValue::Integer(1)]);
    assert_eq!(OwnedValue::Record(row.clone()).render(), Rendered::Record(&row));
}

#[test]
fn owned_blobs_render_as_the_text_they_encode() {
    assert_eq!(blob(b"plain").render(), shown("plain"));
    assert_eq!(blob("h\u{e9}".as_bytes()).render(), shown("h\u{e9}"));
    assert_eq!(blob(&[]).render(), shown(""));
    assert_eq!(blob(&[b'a', 0xff, b'b']).render(), shown("a\u{fffd}b"));
    assert_eq!(blob(&[0xe2, 0x82]).render(), shown("\u{fffd}"));
    assert_eq!(blob(&[0xc3, 0x28]).render(), shown("\u{fffd}("));
}

#[test]
fn accumulators_render_as_what_they_reached() {
    assert_eq!(
        agg(AggContext::Avg(OwnedValue::Integer(9), OwnedValue::Integer(3))).render(),
        shown("9")
    );
    assert_eq!(agg(AggContext::Sum(OwnedValue::Integer(7))).render(), shown("7"));
    assert_eq!(
        agg(AggContext::Sum(OwnedValue::Float(2.5f64.to_bits()))).render(),
        Rendered::Float(2.5f64.to_bits())
    );
    assert_eq!(agg(AggContext::Count(OwnedValue::Integer(3))).render(), shown("3"));
    assert_eq!(agg(AggContext::Max(None)).render(), shown("NULL"));
    assert_eq!(agg(AggContext::Min(None)).render(), shown("NULL"));
    assert_eq!(agg(AggContext::Max(Some(text("m")))).render(), shown("m"));
    assert_eq!(agg(AggContext::Min(Some(OwnedValue::Null))).render(), shown("NULL"));
    assert_eq!(agg(AggContext::GroupConcat(text("a,b"))).render(), shown("a,b"));
    assert_eq!(
        agg(AggContext::Sum(agg(AggContext::Count(OwnedValue::Integer(2))))).render(),
        shown("2")
    );
}

#[test]
fn borrowed_values_render() {
    assert_eq!(Value::Null.render(), shown("NULL"));
    assert_eq!(Value::Integer(12).render(), shown("12"));
    assert_eq!(Value::Float(0.25f64.to_bits()).render(), Rendered::Float(0.25f64.to_bits()));
    let s = "abc".to_string();
    assert_eq!(Value::Text(&s).render(), shown("abc"));
}

#[test]
fn borrowed_blobs_render_as_byte_lists() {
    for bytes in [vec![], vec![0u8], vec![1, 2, 3], vec![255, 0, 128, 10], vec![b'a'; 20]] {
        assert_eq!(Value::Blob(&bytes).render(), Rendered::Text(format!("{:?}", bytes)));
    }
    let bytes = vec![1u8, 2, 3];
    assert_eq!(Value::Blob(&bytes).render(), shown("[1, 2, 3]"));
    let empty = vec![];
    assert_eq!(Value::Blob(&empty).render(), shown("[]"));
}
