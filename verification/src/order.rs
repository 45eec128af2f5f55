//! The order of values.
//!
//! Values rank by class: `Null` first, then numbers, then text, then blobs.
//! Numbers compare as binary64 numbers once an integer meets a float, text
//! and blobs byte by byte. An accumulator stands for the value it has
//! reached.

use crate::binary64::compare_bits;
use crate::binary64::float_sign;
use crate::binary64::is_nan;
use crate::binary64::is_nan_bits;
use crate::binary64::promote;
use crate::binary64::promote_integer;
use crate::text::compare_bytes;
use crate::text::lemma_lex_sign_swap;
use crate::text::lex_sign;
use crate::value::reached;
use crate::value::AggContext;
use crate::value::AggView;
use crate::value::OwnedRecord;
use crate::value::OwnedValue;
use crate::value::ValueView;
use std::cmp::Ordering;
use vstd::prelude::*;
use vstd::utf8::encode_utf8;

verus! {

/// The order that a three-way sign stands for.
pub open spec fn sign_order(sign: int) -> Ordering {
    if sign < 0 {
        Ordering::Less
    } else if sign == 0 {
        Ordering::Equal
    } else {
        Ordering::Greater
    }
}

/// The same comparison with its operands swapped.
pub open spec fn reversed(order: Option<Ordering>) -> Option<Ordering> {
    match order {
        Some(Ordering::Less) => Some(Ordering::Greater),
        Some(Ordering::Equal) => Some(Ordering::Equal),
        Some(Ordering::Greater) => Some(Ordering::Less),
        None => None,
    }
}

/// How two binary64 patterns compare; nothing where either is a NaN.
pub open spec fn float_order(a: u64, b: u64) -> Option<Ordering> {
    if is_nan(a) || is_nan(b) {
        None
    } else {
        Some(sign_order(float_sign(a, b)))
    }
}

/// How two integers compare.
pub open spec fn integer_order(a: i64, b: i64) -> Ordering {
    if a < b {
        Ordering::Less
    } else if a == b {
        Ordering::Equal
    } else {
        Ordering::Greater
    }
}

impl ValueView {
    /// Whether the two values can be compared at all: no row meets a number,
    /// a text, a blob or another row, directly or as what an accumulator
    /// stands at.
    pub open spec fn comparable(self, other: ValueView) -> bool
        decreases self, other,
    {
        match (self, other) {
            (ValueView::Null, _) => true,
            (_, ValueView::Null) => true,
            (ValueView::Agg(a), ValueView::Agg(b)) => a.comparable(*b),
            (ValueView::Agg(a), _) => {
                let reached = a.final_value();
                reached is Null || reached.comparable(other)
            },
            (_, ValueView::Agg(b)) => {
                let reached = b.final_value();
                reached is Null || self.comparable(reached)
            },
            (ValueView::Record(_), _) => false,
            (_, ValueView::Record(_)) => false,
            _ => true,
        }
    }

    /// How the value compares with another. Nothing where a NaN meets a
    /// number, or where accumulators of two kinds meet.
    pub open spec fn order(self, other: ValueView) -> Option<Ordering>
        decreases self, other,
    {
        match (self, other) {
            (ValueView::Integer(a), ValueView::Integer(b)) => Some(integer_order(a, b)),
            (ValueView::Integer(a), ValueView::Float(b)) => float_order(promote(a), b),
            (ValueView::Float(a), ValueView::Integer(b)) => float_order(a, promote(b)),
            (ValueView::Float(a), ValueView::Float(b)) => float_order(a, b),
            (ValueView::Integer(_), ValueView::Text(_)) => Some(Ordering::Less),
            (ValueView::Integer(_), ValueView::Blob(_)) => Some(Ordering::Less),
            (ValueView::Float(_), ValueView::Text(_)) => Some(Ordering::Less),
            (ValueView::Float(_), ValueView::Blob(_)) => Some(Ordering::Less),
            (ValueView::Text(_), ValueView::Integer(_)) => Some(Ordering::Greater),
            (ValueView::Text(_), ValueView::Float(_)) => Some(Ordering::Greater),
            (ValueView::Blob(_), ValueView::Integer(_)) => Some(Ordering::Greater),
            (ValueView::Blob(_), ValueView::Float(_)) => Some(Ordering::Greater),
            (ValueView::Text(a), ValueView::Text(b)) => Some(
                sign_order(lex_sign(encode_utf8(a), encode_utf8(b))),
            ),
            (ValueView::Text(_), ValueView::Blob(_)) => Some(Ordering::Less),
            (ValueView::Blob(_), ValueView::Text(_)) => Some(Ordering::Greater),
            (ValueView::Blob(a), ValueView::Blob(b)) => Some(sign_order(lex_sign(a, b))),
            (ValueView::Null, ValueView::Null) => Some(Ordering::Equal),
            (ValueView::Null, _) => Some(Ordering::Less),
            (_, ValueView::Null) => Some(Ordering::Greater),
            (ValueView::Agg(a), ValueView::Agg(b)) => a.order(*b),
            (ValueView::Agg(a), _) => {
                let reached = a.final_value();
                if reached is Null {
                    Some(Ordering::Less)
                } else {
                    reached.order(other)
                }
            },
            (_, ValueView::Agg(b)) => {
                let reached = b.final_value();
                if reached is Null {
                    Some(Ordering::Greater)
                } else {
                    self.order(reached)
                }
            },
            _ => None,
        }
    }
}

impl AggView {
    /// Whether the two accumulators can be compared at all: they are of two
    /// kinds, or what they hold can be compared.
    pub open spec fn comparable(self, other: AggView) -> bool
        decreases self, other,
    {
        match (self, other) {
            (AggView::Avg(a, _), AggView::Avg(b, _)) => a.comparable(b),
            (AggView::Sum(a), AggView::Sum(b)) => a.comparable(b),
            (AggView::Count(a), AggView::Count(b)) => a.comparable(b),
            (AggView::GroupConcat(a), AggView::GroupConcat(b)) => a.comparable(b),
            (AggView::Max(Some(a)), AggView::Max(Some(b))) => a.comparable(b),
            (AggView::Min(Some(a)), AggView::Min(Some(b))) => a.comparable(b),
            _ => true,
        }
    }

    /// How the accumulator compares with another. Two of one kind compare
    /// by what they hold, an extreme that is still unset coming first;
    /// nothing for two of different kinds.
    pub open spec fn order(self, other: AggView) -> Option<Ordering>
        decreases self, other,
    {
        match (self, other) {
            (AggView::Avg(a, _), AggView::Avg(b, _)) => a.order(b),
            (AggView::Sum(a), AggView::Sum(b)) => a.order(b),
            (AggView::Count(a), AggView::Count(b)) => a.order(b),
            (AggView::GroupConcat(a), AggView::GroupConcat(b)) => a.order(b),
            (AggView::Max(Some(a)), AggView::Max(Some(b))) => a.order(b),
            (AggView::Max(None), AggView::Max(None)) => Some(Ordering::Equal),
            (AggView::Max(None), AggView::Max(Some(_))) => Some(Ordering::Less),
            (AggView::Max(Some(_)), AggView::Max(None)) => Some(Ordering::Greater),
            (AggView::Min(Some(a)), AggView::Min(Some(b))) => a.order(b),
            (AggView::Min(None), AggView::Min(None)) => Some(Ordering::Equal),
            (AggView::Min(None), AggView::Min(Some(_))) => Some(Ordering::Less),
            (AggView::Min(Some(_)), AggView::Min(None)) => Some(Ordering::Greater),
            _ => None,
        }
    }
}

/// Swapping the operands of a comparison reverses its result, whatever the
/// two values are; and either both ways of asking are defined or neither.
pub proof fn lemma_order_swap(a: ValueView, b: ValueView)
    ensures
        b.comparable(a) == a.comparable(b),
        b.order(a) == reversed(a.order(b)),
    decreases a, b,
{
    match (a, b) {
        (ValueView::Text(x), ValueView::Text(y)) => {
            lemma_lex_sign_swap(encode_utf8(x), encode_utf8(y));
        },
        (ValueView::Blob(x), ValueView::Blob(y)) => {
            lemma_lex_sign_swap(x, y);
        },
        (ValueView::Null, _) => {},
        (_, ValueView::Null) => {},
        (ValueView::Agg(x), ValueView::Agg(y)) => {
            lemma_agg_order_swap(*x, *y);
        },
        (ValueView::Agg(x), _) => {
            let reached = x.final_value();
            if !(reached is Null) {
                lemma_order_swap(reached, b);
            }
        },
        (_, ValueView::Agg(y)) => {
            let reached = y.final_value();
            if !(reached is Null) {
                lemma_order_swap(a, reached);
            }
        },
        _ => {},
    }
}

/// Swapping two accumulators reverses the result of their comparison.
pub proof fn lemma_agg_order_swap(a: AggView, b: AggView)
    ensures
        b.comparable(a) == a.comparable(b),
        b.order(a) == reversed(a.order(b)),
    decreases a, b,
{
    match (a, b) {
        (AggView::Avg(x, _), AggView::Avg(y, _)) => lemma_order_swap(x, y),
        (AggView::Sum(x), AggView::Sum(y)) => lemma_order_swap(x, y),
        (AggView::Count(x), AggView::Count(y)) => lemma_order_swap(x, y),
        (AggView::GroupConcat(x), AggView::GroupConcat(y)) => lemma_order_swap(x, y),
        (AggView::Max(Some(x)), AggView::Max(Some(y))) => lemma_order_swap(x, y),
        (AggView::Min(Some(x)), AggView::Min(Some(y))) => lemma_order_swap(x, y),
        _ => {},
    }
}

/// The order that the sign of a three-way comparison stands for.
fn order_of_sign(sign: i8) -> (r: Ordering)
    ensures
        sign < 0 ==> r == Ordering::Less,
        sign == 0 ==> r == Ordering::Equal,
        sign > 0 ==> r == Ordering::Greater,
{
    if sign < 0 {
        Ordering::Less
    } else if sign == 0 {
        Ordering::Equal
    } else {
        Ordering::Greater
    }
}

/// Compares two binary64 patterns as numbers.
fn order_floats(a: u64, b: u64) -> (r: Option<Ordering>)
    ensures
        r == float_order(a, b),
{
    if is_nan_bits(a) || is_nan_bits(b) {
        None
    } else {
        Some(order_of_sign(compare_bits(a, b)))
    }
}

impl OwnedValue {
    /// Whether the value can be compared with another.
    pub fn comparable(&self, other: &OwnedValue) -> (r: bool)
        ensures
            r == self@.comparable(other@),
        decreases self, other,
    {
        match (self, other) {
            (OwnedValue::Null, _) => true,
            (_, OwnedValue::Null) => true,
            (OwnedValue::Agg(a), OwnedValue::Agg(b)) => a.comparable(b),
            (OwnedValue::Agg(a), _) => match reached(a) {
                Some(v) => v.comparable(other),
                None => true,
            },
            (_, OwnedValue::Agg(b)) => match reached(b) {
                Some(v) => self.comparable(v),
                None => true,
            },
            (OwnedValue::Record(_), _) => false,
            (_, OwnedValue::Record(_)) => false,
            _ => true,
        }
    }

    /// Compares the value with another. Nothing comes back where a NaN
    /// meets a number, or where accumulators of two kinds meet.
    pub fn partial_cmp(&self, other: &OwnedValue) -> (r: Option<Ordering>)
        requires
            self@.comparable(other@),
        ensures
            r == self@.order(other@),
        decreases self, other,
    {
        match (self, other) {
            (OwnedValue::Integer(a), OwnedValue::Integer(b)) => {
                if *a < *b {
                    Some(Ordering::Less)
                } else if *a == *b {
                    Some(Ordering::Equal)
                } else {
                    Some(Ordering::Greater)
                }
            },
            (OwnedValue::Integer(a), OwnedValue::Float(b)) => order_floats(promote_integer(*a), *b),
            (OwnedValue::Float(a), OwnedValue::Integer(b)) => order_floats(*a, promote_integer(*b)),
            (OwnedValue::Float(a), OwnedValue::Float(b)) => order_floats(*a, *b),
            (OwnedValue::Integer(_), OwnedValue::Text(_)) => Some(Ordering::Less),
            (OwnedValue::Integer(_), OwnedValue::Blob(_)) => Some(Ordering::Less),
            (OwnedValue::Float(_), OwnedValue::Text(_)) => Some(Ordering::Less),
            (OwnedValue::Float(_), OwnedValue::Blob(_)) => Some(Ordering::Less),
            (OwnedValue::Text(_), OwnedValue::Integer(_)) => Some(Ordering::Greater),
            (OwnedValue::Text(_), OwnedValue::Float(_)) => Some(Ordering::Greater),
            (OwnedValue::Blob(_), OwnedValue::Integer(_)) => Some(Ordering::Greater),
            (OwnedValue::Blob(_), OwnedValue::Float(_)) => Some(Ordering::Greater),
            (OwnedValue::Text(a), OwnedValue::Text(b)) => Some(
                order_of_sign(compare_bytes(a.as_str().as_bytes(), b.as_str().as_bytes())),
            ),
            (OwnedValue::Text(_), OwnedValue::Blob(_)) => Some(Ordering::Less),
            (OwnedValue::Blob(_), OwnedValue::Text(_)) => Some(Ordering::Greater),
            (OwnedValue::Blob(a), OwnedValue::Blob(b)) => Some(
                order_of_sign(compare_bytes(a.as_slice(), b.as_slice())),
            ),
            (OwnedValue::Null, OwnedValue::Null) => Some(Ordering::Equal),
            (OwnedValue::Null, _) => Some(Ordering::Less),
            (_, OwnedValue::Null) => Some(Ordering::Greater),
            (OwnedValue::Agg(a), OwnedValue::Agg(b)) => a.partial_cmp(b),
            (OwnedValue::Agg(a), _) => match reached(a) {
                Some(v) => v.partial_cmp(other),
                None => Some(Ordering::Less),
            },
            (_, OwnedValue::Agg(b)) => match reached(b) {
                Some(v) => self.partial_cmp(v),
                None => Some(Ordering::Greater),
            },
            _ => {
                proof {
                    assert(false);
                }
                None
            },
        }
    }

    /// Compares the value with another where the two are ordered.
    pub fn cmp(&self, other: &OwnedValue) -> (r: Ordering)
        requires
            self@.comparable(other@),
            self@.order(other@) is Some,
        ensures
            self@.order(other@) == Some(r),
    {
        match self.partial_cmp(other) {
            Some(order) => order,
            None => {
                proof {
                    assert(false);
                }
                Ordering::Equal
            },
        }
    }
}

impl AggContext {
    /// Whether the accumulator can be compared with another.
    pub fn comparable(&self, other: &AggContext) -> (r: bool)
        ensures
            r == self@.comparable(other@),
        decreases self, other,
    {
        match (self, other) {
            (AggContext::Avg(a, _), AggContext::Avg(b, _)) => a.comparable(b),
            (AggContext::Sum(a), AggContext::Sum(b)) => a.comparable(b),
            (AggContext::Count(a), AggContext::Count(b)) => a.comparable(b),
            (AggContext::GroupConcat(a), AggContext::GroupConcat(b)) => a.comparable(b),
            (AggContext::Max(Some(a)), AggContext::Max(Some(b))) => a.comparable(b),
            (AggContext::Min(Some(a)), AggContext::Min(Some(b))) => a.comparable(b),
            _ => true,
        }
    }

    /// Compares the accumulator with another of its kind by what the two
    /// hold. Nothing comes back for two of different kinds.
    pub fn partial_cmp(&self, other: &AggContext) -> (r: Option<Ordering>)
        requires
            self@.comparable(other@),
        ensures
            r == self@.order(other@),
        decreases self, other,
    {
        match (self, other) {
            (AggContext::Avg(a, _), AggContext::Avg(b, _)) => a.partial_cmp(b),
            (AggContext::Sum(a), AggContext::Sum(b)) => a.partial_cmp(b),
            (AggContext::Count(a), AggContext::Count(b)) => a.partial_cmp(b),
            (AggContext::GroupConcat(a), AggContext::GroupConcat(b)) => a.partial_cmp(b),
            (AggContext::Max(Some(a)), AggContext::Max(Some(b))) => a.partial_cmp(b),
            (AggContext::Max(None), AggContext::Max(None)) => Some(Ordering::Equal),
            (AggContext::Max(None), AggContext::Max(Some(_))) => Some(Ordering::Less),
            (AggContext::Max(Some(_)), AggContext::Max(None)) => Some(Ordering::Greater),
            (AggContext::Min(Some(a)), AggContext::Min(Some(b))) => a.partial_cmp(b),
            (AggContext::Min(None), AggContext::Min(None)) => Some(Ordering::Equal),
            (AggContext::Min(None), AggContext::Min(Some(_))) => Some(Ordering::Less),
            (AggContext::Min(Some(_)), AggContext::Min(None)) => Some(Ordering::Greater),
            _ => None,
        }
    }
}

/// The columns of a row from the `n`-th on.
spec fn columns_from(row: Seq<ValueView>, n: usize) -> Seq<ValueView> {
    row.skip(n as int)
}

/// The columns from the `n`-th on are the `n`-th and those after it.
proof fn lemma_columns_from_next(row: Seq<ValueView>, n: usize)
    requires
        n < row.len(),
        n < usize::MAX,
    ensures
        columns_from(row, n).len() > 0,
        columns_from(row, n)[0] == row[n as int],
        columns_from(row, n).drop_first() == columns_from(row, (n + 1) as usize),
{
    assert(columns_from(row, n).drop_first() =~= columns_from(row, (n + 1) as usize));
}

/// No columns are left from the end of a row on.
proof fn lemma_columns_from_end(row: Seq<ValueView>, n: usize)
    requires
        n <= row.len(),
    ensures
        columns_from(row, n).len() == row.len() - n,
        n == 0 ==> columns_from(row, n) == row,
{
    if n == 0 {
        assert(columns_from(row, n) =~= row);
    }
}

/// Whether two rows can be compared at all: the columns that a
/// comparison looks at, up to and with the first pair that is not equal,
/// can be compared.
pub open spec fn rows_comparable(a: Seq<ValueView>, b: Seq<ValueView>) -> bool
    decreases a.len(),
{
    if a.len() == 0 || b.len() == 0 {
        true
    } else {
        a[0].comparable(b[0]) && (a[0].order(b[0]) == Some(Ordering::Equal) ==> rows_comparable(
            a.drop_first(),
            b.drop_first(),
        ))
    }
}

/// How two rows compare: as their first pair of columns that is not equal
/// or, where one row runs out first, the shorter row first.
pub open spec fn rows_order(a: Seq<ValueView>, b: Seq<ValueView>) -> Option<Ordering>
    decreases a.len(),
{
    if a.len() == 0 {
        if b.len() == 0 {
            Some(Ordering::Equal)
        } else {
            Some(Ordering::Less)
        }
    } else if b.len() == 0 {
        Some(Ordering::Greater)
    } else {
        match a[0].order(b[0]) {
            Some(Ordering::Equal) => rows_order(a.drop_first(), b.drop_first()),
            other => other,
        }
    }
}

/// Swapping two rows reverses the result of their comparison.
pub proof fn lemma_rows_order_swap(a: Seq<ValueView>, b: Seq<ValueView>)
    ensures
        rows_comparable(b, a) == rows_comparable(a, b),
        rows_order(b, a) == reversed(rows_order(a, b)),
    decreases a.len(),
{
    if a.len() > 0 && b.len() > 0 {
        lemma_order_swap(a[0], b[0]);
        lemma_rows_order_swap(a.drop_first(), b.drop_first());
    }
}

impl OwnedRecord {
    /// Whether the row can be compared with another.
    pub fn comparable(&self, other: &OwnedRecord) -> (r: bool)
        ensures
            r == rows_comparable(self@, other@),
    {
        let mut i: usize = 0;
        proof {
            lemma_columns_from_end(self@, 0);
            lemma_columns_from_end(other@, 0);
        }
        while i < self.values.len() && i < other.values.len()
            invariant
                i <= self.values@.len(),
                i <= other.values@.len(),
                rows_comparable(self@, other@) == rows_comparable(
                    columns_from(self@, i),
                    columns_from(other@, i),
                ),
            decreases self.values@.len() - i,
        {
            proof {
                lemma_columns_from_next(self@, i);
                lemma_columns_from_next(other@, i);
            }
            if !self.values[i].comparable(&other.values[i]) {
                return false;
            }
            match self.values[i].partial_cmp(&other.values[i]) {
                Some(Ordering::Equal) => {},
                _ => {
                    return true;
                },
            }
            i = i + 1;
        }
        proof {
            lemma_columns_from_end(self@, i);
            lemma_columns_from_end(other@, i);
        }
        true
    }

    /// Compares the row with another, column by column.
    pub fn partial_cmp(&self, other: &OwnedRecord) -> (r: Option<Ordering>)
        requires
            rows_comparable(self@, other@),
        ensures
            r == rows_order(self@, other@),
    {
        let mut i: usize = 0;
        proof {
            lemma_columns_from_end(self@, 0);
            lemma_columns_from_end(other@, 0);
        }
        while i < self.values.len() && i < other.values.len()
            invariant
                i <= self.values@.len(),
                i <= other.values@.len(),
                rows_comparable(columns_from(self@, i), columns_from(other@, i)),
                rows_order(self@, other@) == rows_order(
                    columns_from(self@, i),
                    columns_from(other@, i),
                ),
            decreases self.values@.len() - i,
        {
            proof {
                lemma_columns_from_next(self@, i);
                lemma_columns_from_next(other@, i);
            }
            match self.values[i].partial_cmp(&other.values[i]) {
                Some(Ordering::Equal) => {},
                other_order => {
                    return other_order;
                },
            }
            i = i + 1;
        }
        proof {
            lemma_columns_from_end(self@, i);
            lemma_columns_from_end(other@, i);
        }
        if i < other.values.len() {
            Some(Ordering::Less)
        } else if i < self.values.len() {
            Some(Ordering::Greater)
        } else {
            Some(Ordering::Equal)
        }
    }

    /// Compares the row with another where the two are ordered.
    pub fn cmp(&self, other: &OwnedRecord) -> (r: Ordering)
        requires
            rows_comparable(self@, other@),
            rows_order(self@, other@) is Some,
        ensures
            rows_order(self@, other@) == Some(r),
    {
        match self.partial_cmp(other) {
            Some(order) => order,
            None => {
                proof {
                    assert(false);
                }
                Ordering::Equal
            },
        }
    }
}

} // verus!
