//! The text form of values.
//!
//! `Null` reads `NULL`, an integer in decimal, a text as itself. An owned
//! blob reads as the text its bytes encode, a borrowed one as the list of
//! its bytes. An accumulator reads as the value it has reached. The text
//! form of a float and of a row is left to the host, which gets the float
//! or the row back.

use crate::text::decimal;
use crate::text::render_integer;
use crate::value::reached;
use crate::value::OwnedRecord;
use crate::value::OwnedValue;
use crate::value::Value;
use crate::value::ValueView;
use vstd::prelude::*;
use vstd::string::StringExecFns;
use vstd::utf8::decode_utf8;
use vstd::utf8::valid_utf8;

verus! {

/// The text that `String::from_utf8_lossy` of the standard library makes
/// of the given bytes.
pub uninterp spec fn lossy_text(bytes: Seq<u8>) -> Seq<char>;

/// `String::from_utf8_lossy` of the standard library: the text that the
/// bytes encode, each invalid sequence replaced by U+FFFD. Valid UTF-8 comes
/// back as the text it encodes.
#[verifier::external_body]
fn lossy(bytes: &[u8]) -> (r: String)
    ensures
        r@ == lossy_text(bytes@),
        valid_utf8(bytes@) ==> r@ == decode_utf8(bytes@),
{
    String::from_utf8_lossy(bytes).into_owned()
}

/// The text form of a value, or what the host has to render.
#[derive(Debug, PartialEq)]
pub enum Rendered<'a> {
    /// The text form.
    Text(String),
    /// The text form is that of this binary64 number.
    Float(u64),
    /// The text form is that of this row.
    Record(&'a OwnedRecord),
}

/// The content of a [`Rendered`].
pub enum RenderedView {
    Text(Seq<char>),
    Float(u64),
    Record(Seq<ValueView>),
}

impl<'a> View for Rendered<'a> {
    type V = RenderedView;

    open spec fn view(&self) -> RenderedView {
        match *self {
            Rendered::Text(t) => RenderedView::Text(t@),
            Rendered::Float(bits) => RenderedView::Float(bits),
            Rendered::Record(r) => RenderedView::Record(r@),
        }
    }
}

/// The text `NULL`.
pub open spec fn null_text() -> Seq<char> {
    "NULL"@
}

/// The bytes in decimal, separated by a comma and a space.
pub open spec fn byte_items(bytes: Seq<u8>) -> Seq<char>
    decreases bytes.len(),
{
    if bytes.len() == 0 {
        Seq::empty()
    } else if bytes.len() == 1 {
        decimal(bytes[0] as int)
    } else {
        byte_items(bytes.drop_last()) + seq![',', ' '] + decimal(bytes.last() as int)
    }
}

/// The list of the bytes: their decimal forms in square brackets.
pub open spec fn byte_list(bytes: Seq<u8>) -> Seq<char> {
    seq!['['] + byte_items(bytes) + seq![']']
}

impl ValueView {
    /// The text form of an owned value.
    pub open spec fn rendering(self) -> RenderedView
        decreases self,
    {
        match self {
            ValueView::Null => RenderedView::Text(null_text()),
            ValueView::Integer(i) => RenderedView::Text(decimal(i as int)),
            ValueView::Float(bits) => RenderedView::Float(bits),
            ValueView::Text(t) => RenderedView::Text(t),
            ValueView::Blob(b) => RenderedView::Text(lossy_text(b)),
            ValueView::Agg(a) => {
                let reached = a.final_value();
                if reached is Null {
                    RenderedView::Text(null_text())
                } else {
                    reached.rendering()
                }
            },
            ValueView::Record(r) => RenderedView::Record(r),
        }
    }

    /// The text form of a borrowed value.
    pub open spec fn borrowed_rendering(self) -> RenderedView {
        match self {
            ValueView::Blob(b) => RenderedView::Text(byte_list(b)),
            other => other.rendering(),
        }
    }
}

/// The list of the bytes.
fn render_bytes(bytes: &[u8]) -> (r: String)
    ensures
        r@ == byte_list(bytes@),
{
    proof {
        reveal_strlit("[");
        reveal_strlit("]");
        reveal_strlit(", ");
    }
    let mut out = String::from_str("[");
    let mut i: usize = 0;
    while i < bytes.len()
        invariant
            i <= bytes@.len(),
            out@ == seq!['['] + byte_items(bytes@.take(i as int)),
            ", "@ == seq![',', ' '],
        decreases bytes@.len() - i,
    {
        if i > 0 {
            out.append(", ");
        }
        let item = render_integer(bytes[i] as i64);
        out.append(item.as_str());
        proof {
            let next = bytes@.take(i + 1);
            assert(next.drop_last() =~= bytes@.take(i as int));
            assert(next.last() == bytes@[i as int]);
            assert(out@ =~= seq!['['] + byte_items(next));
        }
        i = i + 1;
    }
    assert(bytes@.take(i as int) =~= bytes@);
    out.append("]");
    assert(out@ =~= byte_list(bytes@));
    out
}

impl OwnedValue {
    /// The text form of the value, or what the host has to render.
    pub fn render(&self) -> (r: Rendered<'_>)
        ensures
            r@ == self@.rendering(),
        decreases self,
    {
        match self {
            OwnedValue::Null => Rendered::Text(String::from_str("NULL")),
            OwnedValue::Integer(i) => Rendered::Text(render_integer(*i)),
            OwnedValue::Float(bits) => Rendered::Float(*bits),
            OwnedValue::Text(t) => Rendered::Text(String::from_str(t.as_str())),
            OwnedValue::Blob(b) => Rendered::Text(lossy(b.as_slice())),
            OwnedValue::Agg(a) => match reached(a) {
                Some(v) => v.render(),
                None => Rendered::Text(String::from_str("NULL")),
            },
            OwnedValue::Record(r) => Rendered::Record(r),
        }
    }
}

impl<'a> Value<'a> {
    /// The text form of the value, or the float that the host has to
    /// render.
    pub fn render(&self) -> (r: Rendered<'a>)
        ensures
            r@ == self@.borrowed_rendering(),
            !(r is Record),
    {
        match self {
            Value::Null => Rendered::Text(String::from_str("NULL")),
            Value::Integer(i) => Rendered::Text(render_integer(*i)),
            Value::Float(bits) => Rendered::Float(*bits),
            Value::Text(t) => Rendered::Text(String::from_str(t.as_str())),
            Value::Blob(b) => Rendered::Text(render_bytes(b.as_slice())),
        }
    }
}

} // verus!
