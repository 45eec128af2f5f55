//! Copies of values.
//!
//! A copy shares the text or blob of the value it is made from; rows and
//! accumulators are copied column by column.

use crate::value::AggContext;
use crate::value::OwnedRecord;
use crate::value::OwnedValue;
use crate::value::Value;
use std::rc::Rc;
use vstd::prelude::*;

verus! {

/// `Rc::clone` of the standard library: another pointer to the same
/// allocation, and so to the same content.
#[verifier::external_body]
fn share<T>(rc: &Rc<T>) -> (r: Rc<T>)
    ensures
        r == *rc,
{
    Rc::clone(rc)
}

/// A copy of a value.
fn copy_value(v: &OwnedValue) -> (r: OwnedValue)
    ensures
        r@ == v@,
    decreases v,
{
    match v {
        OwnedValue::Null => OwnedValue::Null,
        OwnedValue::Integer(i) => OwnedValue::Integer(*i),
        OwnedValue::Float(bits) => OwnedValue::Float(*bits),
        OwnedValue::Text(t) => OwnedValue::Text(share(t)),
        OwnedValue::Blob(b) => OwnedValue::Blob(share(b)),
        OwnedValue::Agg(a) => OwnedValue::Agg(Box::new(copy_agg(a))),
        OwnedValue::Record(r) => OwnedValue::Record(copy_row(r)),
    }
}

/// A copy of an accumulator.
fn copy_agg(a: &AggContext) -> (r: AggContext)
    ensures
        r@ == a@,
    decreases a,
{
    match a {
        AggContext::Avg(acc, count) => AggContext::Avg(copy_value(acc), copy_value(count)),
        AggContext::Sum(acc) => AggContext::Sum(copy_value(acc)),
        AggContext::Count(count) => AggContext::Count(copy_value(count)),
        AggContext::Max(Some(v)) => AggContext::Max(Some(copy_value(v))),
        AggContext::Max(None) => AggContext::Max(None),
        AggContext::Min(Some(v)) => AggContext::Min(Some(copy_value(v))),
        AggContext::Min(None) => AggContext::Min(None),
        AggContext::GroupConcat(acc) => AggContext::GroupConcat(copy_value(acc)),
    }
}

/// A copy of a row.
fn copy_row(row: &OwnedRecord) -> (r: OwnedRecord)
    ensures
        r@ == row@,
    decreases row,
{
    let mut values: Vec<OwnedValue> = Vec::new();
    let mut i: usize = 0;
    while i < row.values.len()
        invariant
            i <= row.values@.len(),
            values@.len() == i,
            forall|k: int| 0 <= k < i ==> (#[trigger] values@[k])@ == row.values@[k]@,
        decreases row.values@.len() - i,
    {
        values.push(copy_value(&row.values[i]));
        i = i + 1;
    }
    let r = OwnedRecord { values };
    assert(r@ =~= row@);
    r
}

impl Clone for OwnedValue {
    fn clone(&self) -> (r: OwnedValue)
        ensures
            r@ == self@,
    {
        copy_value(self)
    }
}

impl Clone for AggContext {
    fn clone(&self) -> (r: AggContext)
        ensures
            r@ == self@,
    {
        copy_agg(self)
    }
}

impl Clone for OwnedRecord {
    fn clone(&self) -> (r: OwnedRecord)
        ensures
            r@ == self@,
    {
        copy_row(self)
    }
}

impl<'a> Clone for Value<'a> {
    fn clone(&self) -> (r: Value<'a>)
        ensures
            r == *self,
    {
        match self {
            Value::Null => Value::Null,
            Value::Integer(i) => Value::Integer(*i),
            Value::Float(bits) => Value::Float(*bits),
            Value::Text(t) => Value::Text(*t),
            Value::Blob(b) => Value::Blob(*b),
        }
    }
}

} // verus!
