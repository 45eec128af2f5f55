//! The in-memory value model.

use crate::error::LimboError;
use std::rc::Rc;
use vstd::prelude::*;
use vstd::string::StringExecFns;

verus! {

/// A read-only value whose text or blob lives in a buffer owned elsewhere.
///
/// `Float` holds the IEEE 754 binary64 bit pattern of the number.
#[derive(Debug)]
pub enum Value<'a> {
    Null,
    Integer(i64),
    Float(u64),
    Text(&'a String),
    Blob(&'a Vec<u8>),
}

/// An ordered row of borrowed values.
#[derive(Debug)]
pub struct Record<'a> {
    pub values: Vec<Value<'a>>,
}

/// A value that owns its payload.
///
/// `Float` holds the IEEE 754 binary64 bit pattern of the number.
#[derive(Debug)]
pub enum OwnedValue {
    Null,
    Integer(i64),
    Float(u64),
    Text(Rc<String>),
    Blob(Rc<Vec<u8>>),
    Agg(Box<AggContext>),
    Record(OwnedRecord),
}

/// Accumulator state of a streaming aggregate.
#[derive(Debug)]
pub enum AggContext {
    Avg(OwnedValue, OwnedValue),
    Sum(OwnedValue),
    Count(OwnedValue),
    Max(Option<OwnedValue>),
    Min(Option<OwnedValue>),
    GroupConcat(OwnedValue),
}

/// An ordered row of owned values.
#[derive(Debug)]
pub struct OwnedRecord {
    pub values: Vec<OwnedValue>,
}

/// The mathematical content of an [`OwnedValue`].
pub enum ValueView {
    Null,
    Integer(i64),
    Float(u64),
    Text(Seq<char>),
    Blob(Seq<u8>),
    Agg(Box<AggView>),
    Record(Seq<ValueView>),
}

/// The mathematical content of an [`AggContext`].
pub enum AggView {
    Avg(ValueView, ValueView),
    Sum(ValueView),
    Count(ValueView),
    Max(Option<ValueView>),
    Min(Option<ValueView>),
    GroupConcat(ValueView),
}

/// The content of a value.
pub open spec fn value_view(v: OwnedValue) -> ValueView
    decreases v,
{
    match v {
        OwnedValue::Null => ValueView::Null,
        OwnedValue::Integer(i) => ValueView::Integer(i),
        OwnedValue::Float(bits) => ValueView::Float(bits),
        OwnedValue::Text(t) => ValueView::Text(t@),
        OwnedValue::Blob(b) => ValueView::Blob(b@),
        OwnedValue::Agg(a) => ValueView::Agg(Box::new(agg_view(*a))),
        OwnedValue::Record(r) => ValueView::Record(values_view(r.values@)),
    }
}

/// The content of an accumulator.
pub open spec fn agg_view(a: AggContext) -> AggView
    decreases a,
{
    match a {
        AggContext::Avg(acc, count) => AggView::Avg(value_view(acc), value_view(count)),
        AggContext::Sum(acc) => AggView::Sum(value_view(acc)),
        AggContext::Count(count) => AggView::Count(value_view(count)),
        AggContext::Max(None) => AggView::Max(None),
        AggContext::Max(Some(v)) => AggView::Max(Some(value_view(v))),
        AggContext::Min(None) => AggView::Min(None),
        AggContext::Min(Some(v)) => AggView::Min(Some(value_view(v))),
        AggContext::GroupConcat(acc) => AggView::GroupConcat(value_view(acc)),
    }
}

/// The contents of a row, column by column.
pub open spec fn values_view(values: Seq<OwnedValue>) -> Seq<ValueView>
    decreases values,
{
    Seq::new(
        values.len(),
        |i: int|
            if 0 <= i < values.len() {
                value_view(values[i])
            } else {
                ValueView::Null
            },
    )
}

impl View for OwnedValue {
    type V = ValueView;

    open spec fn view(&self) -> ValueView {
        value_view(*self)
    }
}

impl View for AggContext {
    type V = AggView;

    open spec fn view(&self) -> AggView {
        agg_view(*self)
    }
}

impl View for OwnedRecord {
    type V = Seq<ValueView>;

    open spec fn view(&self) -> Seq<ValueView> {
        values_view(self.values@)
    }
}

impl<'a> View for Value<'a> {
    type V = ValueView;

    open spec fn view(&self) -> ValueView {
        match *self {
            Value::Null => ValueView::Null,
            Value::Integer(i) => ValueView::Integer(i),
            Value::Float(bits) => ValueView::Float(bits),
            Value::Text(t) => ValueView::Text(t@),
            Value::Blob(b) => ValueView::Blob(b@),
        }
    }
}

impl<'a> View for Record<'a> {
    type V = Seq<ValueView>;

    open spec fn view(&self) -> Seq<ValueView> {
        Seq::new(self.values@.len(), |i: int| self.values@[i]@)
    }
}

impl AggView {
    /// What the accumulator stands at: the running value, or the extreme
    /// seen so far, `Null` while none was seen. An average stands at its
    /// running sum.
    pub open spec fn final_value(self) -> ValueView {
        match self {
            AggView::Avg(acc, _) => acc,
            AggView::Sum(acc) => acc,
            AggView::Count(count) => count,
            AggView::Max(Some(v)) => v,
            AggView::Max(None) => ValueView::Null,
            AggView::Min(Some(v)) => v,
            AggView::Min(None) => ValueView::Null,
            AggView::GroupConcat(acc) => acc,
        }
    }
}

impl ValueView {
    /// Whether the value can be read as a borrowed scalar: it is no row, and
    /// where it is an accumulator that stands at a nested value, that value
    /// can be read so.
    pub open spec fn is_scalar(self) -> bool
        decreases self,
    {
        match self {
            ValueView::Record(_) => false,
            ValueView::Agg(a) => match *a {
                AggView::Avg(_, _) => true,
                AggView::Sum(_) => true,
                AggView::Count(v) => v.is_scalar(),
                AggView::Max(Some(v)) => v.is_scalar(),
                AggView::Max(None) => true,
                AggView::Min(Some(v)) => v.is_scalar(),
                AggView::Min(None) => true,
                AggView::GroupConcat(v) => v.is_scalar(),
            },
            _ => true,
        }
    }

    /// The scalar that the value is read as. A sum or an average that holds
    /// no number reads as the binary64 zero.
    pub open spec fn scalar(self) -> ValueView
        decreases self,
    {
        match self {
            ValueView::Agg(a) => match *a {
                AggView::Avg(acc, _) => acc.number_or_zero(),
                AggView::Sum(acc) => acc.number_or_zero(),
                AggView::Count(v) => v.scalar(),
                AggView::Max(Some(v)) => v.scalar(),
                AggView::Max(None) => ValueView::Null,
                AggView::Min(Some(v)) => v.scalar(),
                AggView::Min(None) => ValueView::Null,
                AggView::GroupConcat(v) => v.scalar(),
            },
            other => other,
        }
    }

    /// The value itself where it is a number, else the binary64 zero.
    pub open spec fn number_or_zero(self) -> ValueView {
        match self {
            ValueView::Integer(i) => ValueView::Integer(i),
            ValueView::Float(bits) => ValueView::Float(bits),
            _ => ValueView::Float(0),
        }
    }
}

impl AggContext {
    /// What the accumulator stands at. The group stays open: this only
    /// reads. What comes back is a part of the accumulator, or `Null`.
    pub fn final_value(&self) -> (r: &OwnedValue)
        ensures
            r@ == self@.final_value(),
            r@ is Null || decreases_to!(self => r),
    {
        match self {
            AggContext::Avg(acc, _count) => acc,
            AggContext::Sum(acc) => acc,
            AggContext::Count(count) => count,
            AggContext::Max(Some(max)) => max,
            AggContext::Max(None) => &OwnedValue::Null,
            AggContext::Min(Some(min)) => min,
            AggContext::Min(None) => &OwnedValue::Null,
            AggContext::GroupConcat(s) => s,
        }
    }
}

/// The value that an accumulator has reached, unless that is `Null`.
pub(crate) fn reached(agg: &AggContext) -> (r: Option<&OwnedValue>)
    ensures
        match r {
            Some(v) => v@ == agg@.final_value() && !(v@ is Null) && decreases_to!(agg => v),
            None => agg@.final_value() is Null,
        },
{
    match agg.final_value() {
        OwnedValue::Null => None,
        v => Some(v),
    }
}

/// The number that a sum or an average stands at, read as a borrowed value.
fn number_or_zero<'a>(acc: &'a OwnedValue) -> (r: Value<'a>)
    ensures
        r@ == acc@.number_or_zero(),
{
    match acc {
        OwnedValue::Integer(i) => Value::Integer(*i),
        OwnedValue::Float(bits) => Value::Float(*bits),
        _ => Value::Float(0),
    }
}

/// Reads an owned value as a borrowed scalar, without copying text or blob.
pub fn to_value(value: &OwnedValue) -> (r: Value<'_>)
    requires
        value@.is_scalar(),
    ensures
        r@ == value@.scalar(),
    decreases value,
{
    match value {
        OwnedValue::Null => Value::Null,
        OwnedValue::Integer(i) => Value::Integer(*i),
        OwnedValue::Float(bits) => Value::Float(*bits),
        OwnedValue::Text(s) => Value::Text(s),
        OwnedValue::Blob(b) => Value::Blob(b),
        OwnedValue::Agg(a) => match &**a {
            AggContext::Avg(acc, _count) => number_or_zero(acc),
            AggContext::Sum(acc) => number_or_zero(acc),
            AggContext::Count(count) => to_value(count),
            AggContext::Max(max) => match max {
                Some(max) => to_value(max),
                None => Value::Null,
            },
            AggContext::Min(min) => match min {
                Some(min) => to_value(min),
                None => Value::Null,
            },
            AggContext::GroupConcat(s) => to_value(s),
        },
        OwnedValue::Record(_) => {
            proof {
                assert(false);
            }
            Value::Null
        },
    }
}

/// Whether [`to_value`] can read the value.
pub fn is_scalar(value: &OwnedValue) -> (r: bool)
    ensures
        r == value@.is_scalar(),
    decreases value,
{
    match value {
        OwnedValue::Record(_) => false,
        OwnedValue::Agg(a) => match &**a {
            AggContext::Count(v) => is_scalar(v),
            AggContext::Max(Some(v)) => is_scalar(v),
            AggContext::Min(Some(v)) => is_scalar(v),
            AggContext::GroupConcat(v) => is_scalar(v),
            _ => true,
        },
        _ => true,
    }
}

/// Extraction of a host type from a borrowed value.
pub trait FromValue<'a>: Sized {
    /// The host value that `value` holds, or a conversion error where it
    /// holds another type.
    fn from_value(value: &Value<'a>) -> Result<Self, LimboError>;
}

/// What the failure of an integer extraction says.
pub open spec fn expected_integer() -> Seq<char> {
    "Expected integer value"@
}

/// What the failure of a text extraction says.
pub open spec fn expected_text() -> Seq<char> {
    "Expected text value"@
}

impl<'a> FromValue<'a> for i64 {
    /// The integer that the value holds; a conversion error for any other
    /// value.
    fn from_value(value: &Value<'a>) -> (r: Result<Self, LimboError>)
        ensures
            value@ matches ValueView::Integer(i) ==> r == Ok::<i64, LimboError>(i),
            !(value@ is Integer) ==> (r matches Err(LimboError::ConversionError(m)) && m@
                == expected_integer()),
    {
        match value {
            Value::Integer(i) => Ok(*i),
            _ => Err(LimboError::ConversionError(String::from_str("Expected integer value"))),
        }
    }
}

impl<'a> FromValue<'a> for String {
    /// A copy of the text that the value holds; a conversion error for any
    /// other value.
    fn from_value(value: &Value<'a>) -> (r: Result<Self, LimboError>)
        ensures
            value@ matches ValueView::Text(t) ==> (r matches Ok(s) && s@ == t),
            !(value@ is Text) ==> (r matches Err(LimboError::ConversionError(m)) && m@
                == expected_text()),
    {
        match value {
            Value::Text(s) => Ok(String::from_str(s.as_str())),
            _ => Err(LimboError::ConversionError(String::from_str("Expected text value"))),
        }
    }
}

impl<'a> FromValue<'a> for &'a str {
    /// The text that the value holds, borrowed; a conversion error for any
    /// other value.
    fn from_value(value: &Value<'a>) -> (r: Result<Self, LimboError>)
        ensures
            value@ matches ValueView::Text(t) ==> (r matches Ok(s) && s@ == t),
            !(value@ is Text) ==> (r matches Err(LimboError::ConversionError(m)) && m@
                == expected_text()),
    {
        match value {
            Value::Text(s) => Ok(s.as_str()),
            _ => Err(LimboError::ConversionError(String::from_str("Expected text value"))),
        }
    }
}

impl<'a> Record<'a> {
    /// A row of the given values, in their order.
    pub fn new(values: Vec<Value<'a>>) -> (r: Self)
        ensures
            r.values == values,
    {
        Self { values }
    }
}

impl OwnedRecord {
    /// A row of the given values, in their order.
    pub fn new(values: Vec<OwnedValue>) -> (r: Self)
        ensures
            r.values == values,
    {
        Self { values }
    }
}

} // verus!
