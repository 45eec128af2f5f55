//! Equality of values.
//!
//! Two values are equal where they are of one kind and hold equal content.
//! Floats are equal as numbers: the two zeros are equal, and a NaN equals
//! nothing, itself included. An integer never equals a float.

use crate::binary64::compare_bits;
use crate::binary64::float_sign;
use crate::binary64::is_nan;
use crate::binary64::is_nan_bits;
use crate::text::compare_bytes;
use crate::text::lemma_lex_sign_zero;
use crate::value::AggContext;
use crate::value::AggView;
use crate::value::OwnedRecord;
use crate::value::OwnedValue;
use crate::value::Value;
use crate::value::ValueView;
use vstd::prelude::*;
use vstd::std_specs::cmp::PartialEqSpecImpl;

verus! {

/// Whether two binary64 patterns stand for equal numbers.
pub open spec fn float_equal(a: u64, b: u64) -> bool {
    !is_nan(a) && !is_nan(b) && float_sign(a, b) == 0
}

impl ValueView {
    /// Whether the value equals another.
    pub open spec fn same(self, other: ValueView) -> bool
        decreases self,
    {
        match (self, other) {
            (ValueView::Null, ValueView::Null) => true,
            (ValueView::Integer(a), ValueView::Integer(b)) => a == b,
            (ValueView::Float(a), ValueView::Float(b)) => float_equal(a, b),
            (ValueView::Text(a), ValueView::Text(b)) => a == b,
            (ValueView::Blob(a), ValueView::Blob(b)) => a == b,
            (ValueView::Agg(a), ValueView::Agg(b)) => a.same(*b),
            (ValueView::Record(a), ValueView::Record(b)) => same_rows(a, b),
            _ => false,
        }
    }
}

impl AggView {
    /// Whether the accumulator equals another: they are of one kind and
    /// hold equal values.
    pub open spec fn same(self, other: AggView) -> bool
        decreases self,
    {
        match (self, other) {
            (AggView::Avg(a, c), AggView::Avg(b, d)) => a.same(b) && c.same(d),
            (AggView::Sum(a), AggView::Sum(b)) => a.same(b),
            (AggView::Count(a), AggView::Count(b)) => a.same(b),
            (AggView::Max(Some(a)), AggView::Max(Some(b))) => a.same(b),
            (AggView::Max(None), AggView::Max(None)) => true,
            (AggView::Min(Some(a)), AggView::Min(Some(b))) => a.same(b),
            (AggView::Min(None), AggView::Min(None)) => true,
            (AggView::GroupConcat(a), AggView::GroupConcat(b)) => a.same(b),
            _ => false,
        }
    }
}

/// Whether two rows are equal: they have as many columns, and equal values
/// in each.
pub open spec fn same_rows(a: Seq<ValueView>, b: Seq<ValueView>) -> bool
    decreases a,
{
    a.len() == b.len() && forall|i: int| 0 <= i < a.len() ==> (#[trigger] a[i]).same(b[i])
}

/// Whether two binary64 patterns stand for equal numbers.
fn floats_equal(a: u64, b: u64) -> (r: bool)
    ensures
        r == float_equal(a, b),
{
    !is_nan_bits(a) && !is_nan_bits(b) && compare_bits(a, b) == 0
}

/// Whether two values are equal.
fn values_equal(a: &OwnedValue, b: &OwnedValue) -> (r: bool)
    ensures
        r == a@.same(b@),
    decreases a,
{
    match (a, b) {
        (OwnedValue::Null, OwnedValue::Null) => true,
        (OwnedValue::Integer(x), OwnedValue::Integer(y)) => *x == *y,
        (OwnedValue::Float(x), OwnedValue::Float(y)) => floats_equal(*x, *y),
        (OwnedValue::Text(x), OwnedValue::Text(y)) => **x == **y,
        (OwnedValue::Blob(x), OwnedValue::Blob(y)) => {
            proof {
                lemma_lex_sign_zero(x@, y@);
            }
            compare_bytes(x.as_slice(), y.as_slice()) == 0
        },
        (OwnedValue::Agg(x), OwnedValue::Agg(y)) => aggs_equal(x, y),
        (OwnedValue::Record(x), OwnedValue::Record(y)) => rows_equal(x, y),
        _ => false,
    }
}

/// Whether two accumulators are equal.
fn aggs_equal(a: &AggContext, b: &AggContext) -> (r: bool)
    ensures
        r == a@.same(b@),
    decreases a,
{
    match (a, b) {
        (AggContext::Avg(x, c), AggContext::Avg(y, d)) => values_equal(x, y) && values_equal(
            c,
            d,
        ),
        (AggContext::Sum(x), AggContext::Sum(y)) => values_equal(x, y),
        (AggContext::Count(x), AggContext::Count(y)) => values_equal(x, y),
        (AggContext::Max(Some(x)), AggContext::Max(Some(y))) => values_equal(x, y),
        (AggContext::Max(None), AggContext::Max(None)) => true,
        (AggContext::Min(Some(x)), AggContext::Min(Some(y))) => values_equal(x, y),
        (AggContext::Min(None), AggContext::Min(None)) => true,
        (AggContext::GroupConcat(x), AggContext::GroupConcat(y)) => values_equal(x, y),
        _ => false,
    }
}

/// Whether two rows are equal.
fn rows_equal(a: &OwnedRecord, b: &OwnedRecord) -> (r: bool)
    ensures
        r == same_rows(a@, b@),
    decreases a,
{
    if a.values.len() != b.values.len() {
        return false;
    }
    let mut i: usize = 0;
    while i < a.values.len()
        invariant
            i <= a.values@.len(),
            a.values@.len() == b.values@.len(),
            forall|k: int| 0 <= k < i ==> (#[trigger] a@[k]).same(b@[k]),
        decreases a.values@.len() - i,
    {
        if !values_equal(&a.values[i], &b.values[i]) {
            assert(!a@[i as int].same(b@[i as int]));
            return false;
        }
        i = i + 1;
    }
    true
}

impl PartialEq for OwnedValue {
    fn eq(&self, other: &OwnedValue) -> (r: bool) {
        values_equal(self, other)
    }
}

impl PartialEqSpecImpl for OwnedValue {
    open spec fn obeys_eq_spec() -> bool {
        true
    }

    open spec fn eq_spec(&self, other: &OwnedValue) -> bool {
        self@.same(other@)
    }
}

impl PartialEq for AggContext {
    fn eq(&self, other: &AggContext) -> (r: bool) {
        aggs_equal(self, other)
    }
}

impl PartialEqSpecImpl for AggContext {
    open spec fn obeys_eq_spec() -> bool {
        true
    }

    open spec fn eq_spec(&self, other: &AggContext) -> bool {
        self@.same(other@)
    }
}

impl PartialEq for OwnedRecord {
    fn eq(&self, other: &OwnedRecord) -> (r: bool) {
        rows_equal(self, other)
    }
}

impl PartialEqSpecImpl for OwnedRecord {
    open spec fn obeys_eq_spec() -> bool {
        true
    }

    open spec fn eq_spec(&self, other: &OwnedRecord) -> bool {
        same_rows(self@, other@)
    }
}

impl<'a> PartialEq for Value<'a> {
    fn eq(&self, other: &Value<'a>) -> (r: bool) {
        match (self, other) {
            (Value::Null, Value::Null) => true,
            (Value::Integer(x), Value::Integer(y)) => *x == *y,
            (Value::Float(x), Value::Float(y)) => floats_equal(*x, *y),
            (Value::Text(x), Value::Text(y)) => **x == **y,
            (Value::Blob(x), Value::Blob(y)) => {
                proof {
                    lemma_lex_sign_zero(x@, y@);
                }
                compare_bytes(x.as_slice(), y.as_slice()) == 0
            },
            _ => false,
        }
    }
}

impl<'a> PartialEqSpecImpl for Value<'a> {
    open spec fn obeys_eq_spec() -> bool {
        true
    }

    open spec fn eq_spec(&self, other: &Value<'a>) -> bool {
        self@.same(other@)
    }
}

} // verus!
