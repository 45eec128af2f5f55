//! Addition and division of values.
//!
//! The library decides what an operation yields and carries it out itself
//! wherever integers, text and `Null` suffice. Where the result is a sum or
//! a quotient of binary64 numbers, or needs the text form of one, it hands
//! back a [`FloatTask`] that names the work, with its operands already
//! promoted; the host does that work with its own floating point.

use crate::binary64::promote;
use crate::binary64::promote_integer;
use crate::text::decimal;
use crate::text::join;
use crate::text::render_integer;
use crate::value::OwnedValue;
use crate::value::ValueView;
use std::rc::Rc;
use vstd::prelude::*;
use vstd::string::StringExecFns;

verus! {

/// Work on binary64 numbers, given as bit patterns, that is left to the
/// host.
#[derive(Debug, PartialEq)]
pub enum FloatTask {
    /// The result is the float that is the sum of the two numbers.
    Sum(u64, u64),
    /// The result is the float that is the first number divided by the
    /// second.
    Quotient(u64, u64),
    /// The result is the text followed by the text form of the number.
    TextThenFloat(String, u64),
    /// The result is the text form of the number followed by the text.
    FloatThenText(u64, String),
}

/// The outcome of an arithmetic operation.
#[derive(Debug, PartialEq)]
pub enum Arith {
    /// The operation is complete and this is its result.
    Done(OwnedValue),
    /// The host has to finish the operation.
    Host(FloatTask),
}

/// The content of a [`FloatTask`].
pub enum FloatTaskView {
    Sum(u64, u64),
    Quotient(u64, u64),
    TextThenFloat(Seq<char>, u64),
    FloatThenText(u64, Seq<char>),
}

/// The content of an [`Arith`].
pub enum ArithView {
    Done(ValueView),
    Host(FloatTaskView),
}

impl View for FloatTask {
    type V = FloatTaskView;

    open spec fn view(&self) -> FloatTaskView {
        match *self {
            FloatTask::Sum(a, b) => FloatTaskView::Sum(a, b),
            FloatTask::Quotient(a, b) => FloatTaskView::Quotient(a, b),
            FloatTask::TextThenFloat(t, f) => FloatTaskView::TextThenFloat(t@, f),
            FloatTask::FloatThenText(f, t) => FloatTaskView::FloatThenText(f, t@),
        }
    }
}

impl View for Arith {
    type V = ArithView;

    open spec fn view(&self) -> ArithView {
        match *self {
            Arith::Done(v) => ArithView::Done(v@),
            Arith::Host(t) => ArithView::Host(t@),
        }
    }
}

impl ArithView {
    /// The work left to the host, if any.
    pub open spec fn task(self) -> Option<FloatTaskView> {
        match self {
            ArithView::Done(_) => None,
            ArithView::Host(t) => Some(t),
        }
    }
}

/// The quotient of two integers, rounded toward zero.
pub open spec fn truncated_quotient(a: int, b: int) -> int {
    if b > 0 {
        if a >= 0 {
            a / b
        } else {
            -((-a) / b)
        }
    } else {
        if a >= 0 {
            -(a / (-b))
        } else {
            (-a) / (-b)
        }
    }
}

impl ValueView {
    /// Whether the sum with `rhs` is defined: two integers must not
    /// overflow.
    pub open spec fn can_add(self, rhs: ValueView) -> bool {
        match (self, rhs) {
            (ValueView::Integer(a), ValueView::Integer(b)) => i64::MIN <= a + b <= i64::MAX,
            _ => true,
        }
    }

    /// What adding `rhs` yields.
    ///
    /// Two integers give their integer sum. A float with a number gives the
    /// float sum, the integer promoted. Text with text or with a number
    /// gives their concatenation, the number in its text form. `Null` on
    /// either side gives the other operand. Any other pair gives the
    /// binary64 zero.
    pub open spec fn sum(self, rhs: ValueView) -> ArithView {
        match (self, rhs) {
            (ValueView::Integer(a), ValueView::Integer(b)) => ArithView::Done(
                ValueView::Integer((a + b) as i64),
            ),
            (ValueView::Integer(a), ValueView::Float(b)) => ArithView::Host(
                FloatTaskView::Sum(promote(a), b),
            ),
            (ValueView::Float(a), ValueView::Integer(b)) => ArithView::Host(
                FloatTaskView::Sum(a, promote(b)),
            ),
            (ValueView::Float(a), ValueView::Float(b)) => ArithView::Host(
                FloatTaskView::Sum(a, b),
            ),
            (ValueView::Text(a), ValueView::Text(b)) => ArithView::Done(ValueView::Text(a + b)),
            (ValueView::Text(a), ValueView::Integer(b)) => ArithView::Done(
                ValueView::Text(a + decimal(b as int)),
            ),
            (ValueView::Integer(a), ValueView::Text(b)) => ArithView::Done(
                ValueView::Text(decimal(a as int) + b),
            ),
            (ValueView::Text(a), ValueView::Float(b)) => ArithView::Host(
                FloatTaskView::TextThenFloat(a, b),
            ),
            (ValueView::Float(a), ValueView::Text(b)) => ArithView::Host(
                FloatTaskView::FloatThenText(a, b),
            ),
            (lhs, ValueView::Null) => ArithView::Done(lhs),
            (ValueView::Null, rhs) => ArithView::Done(rhs),
            _ => ArithView::Done(ValueView::Float(0)),
        }
    }

    /// Whether the value is a number.
    pub open spec fn is_number(self) -> bool {
        self is Integer || self is Float
    }

    /// Whether adding the integer `rhs` is defined: the value is a number,
    /// and two integers must not overflow.
    pub open spec fn can_add_integer(self, rhs: i64) -> bool {
        self.is_number() && self.can_add(ValueView::Integer(rhs))
    }

    /// Whether the quotient by `rhs` is defined: an integer is not divided
    /// by the integer zero, nor the least integer by -1.
    pub open spec fn can_divide(self, rhs: ValueView) -> bool {
        match (self, rhs) {
            (ValueView::Integer(a), ValueView::Integer(b)) => b != 0 && !(a == i64::MIN && b
                == -1),
            _ => true,
        }
    }

    /// What dividing by `rhs` yields.
    ///
    /// Two integers give their quotient rounded toward zero. A float with a
    /// number gives the float quotient, the integer promoted. Any other pair
    /// gives the binary64 zero.
    pub open spec fn quotient(self, rhs: ValueView) -> ArithView {
        match (self, rhs) {
            (ValueView::Integer(a), ValueView::Integer(b)) => ArithView::Done(
                ValueView::Integer(truncated_quotient(a as int, b as int) as i64),
            ),
            (ValueView::Integer(a), ValueView::Float(b)) => ArithView::Host(
                FloatTaskView::Quotient(promote(a), b),
            ),
            (ValueView::Float(a), ValueView::Integer(b)) => ArithView::Host(
                FloatTaskView::Quotient(a, promote(b)),
            ),
            (ValueView::Float(a), ValueView::Float(b)) => ArithView::Host(
                FloatTaskView::Quotient(a, b),
            ),
            _ => ArithView::Done(ValueView::Float(0)),
        }
    }
}

/// Divides two integers, rounding toward zero.
fn divide_integers(a: i64, b: i64) -> (r: i64)
    requires
        b != 0,
        !(a == i64::MIN && b == -1),
    ensures
        r == truncated_quotient(a as int, b as int),
{
    if b > 0 {
        a / b
    } else if b == i64::MIN {
        assert(a != i64::MIN ==> truncated_quotient(a as int, b as int) == 0) by {
            if a != i64::MIN {
                if a >= 0 {
                    assert((a as int) / 0x8000_0000_0000_0000 == 0);
                } else {
                    assert((-(a as int)) / 0x8000_0000_0000_0000 == 0);
                }
            }
        }
        assert(0x8000_0000_0000_0000int / 0x8000_0000_0000_0000 == 1);
        if a == i64::MIN {
            1
        } else {
            0
        }
    } else if b == -1 {
        -a
    } else {
        let divisor = -b;
        let q = a / divisor;
        assert(q <= 0 ==> -q <= 0x4000_0000_0000_0000) by (nonlinear_arith)
            requires
                divisor >= 2,
                -0x8000_0000_0000_0000 <= a,
                a < 0 ==> q == -((-a) / (divisor as int)),
                a >= 0 ==> q >= 0,
        ;
        -q
    }
}

impl OwnedValue {
    /// Whether [`OwnedValue::add`] is defined on the two values.
    pub fn can_add(&self, rhs: &OwnedValue) -> (r: bool)
        ensures
            r == self@.can_add(rhs@),
    {
        match (self, rhs) {
            (OwnedValue::Integer(a), OwnedValue::Integer(b)) => a.checked_add(*b).is_some(),
            _ => true,
        }
    }

    /// Adds `rhs` to the value.
    pub fn add(self, rhs: OwnedValue) -> (r: Arith)
        requires
            self@.can_add(rhs@),
        ensures
            r@ == self@.sum(rhs@),
    {
        match (self, rhs) {
            (OwnedValue::Integer(a), OwnedValue::Integer(b)) => Arith::Done(
                OwnedValue::Integer(a + b),
            ),
            (OwnedValue::Integer(a), OwnedValue::Float(b)) => Arith::Host(
                FloatTask::Sum(promote_integer(a), b),
            ),
            (OwnedValue::Float(a), OwnedValue::Integer(b)) => Arith::Host(
                FloatTask::Sum(a, promote_integer(b)),
            ),
            (OwnedValue::Float(a), OwnedValue::Float(b)) => Arith::Host(FloatTask::Sum(a, b)),
            (OwnedValue::Text(a), OwnedValue::Text(b)) => Arith::Done(
                OwnedValue::Text(Rc::new(join(a.as_str(), b.as_str()))),
            ),
            (OwnedValue::Text(a), OwnedValue::Integer(b)) => Arith::Done(
                OwnedValue::Text(Rc::new(join(a.as_str(), render_integer(b).as_str()))),
            ),
            (OwnedValue::Integer(a), OwnedValue::Text(b)) => Arith::Done(
                OwnedValue::Text(Rc::new(join(render_integer(a).as_str(), b.as_str()))),
            ),
            (OwnedValue::Text(a), OwnedValue::Float(b)) => Arith::Host(
                FloatTask::TextThenFloat(String::from_str(a.as_str()), b),
            ),
            (OwnedValue::Float(a), OwnedValue::Text(b)) => Arith::Host(
                FloatTask::FloatThenText(a, String::from_str(b.as_str())),
            ),
            (lhs, OwnedValue::Null) => Arith::Done(lhs),
            (OwnedValue::Null, rhs) => Arith::Done(rhs),
            _ => Arith::Done(OwnedValue::Float(0)),
        }
    }

    /// The work that adding `rhs` leaves to the host, if any.
    pub fn sum_task(&self, rhs: &OwnedValue) -> (r: Option<FloatTask>)
        ensures
            r is Some <==> self@.sum(rhs@) is Host,
            r matches Some(t) ==> ArithView::Host(t@) == self@.sum(rhs@),
    {
        match (self, rhs) {
            (OwnedValue::Integer(a), OwnedValue::Float(b)) => Some(
                FloatTask::Sum(promote_integer(*a), *b),
            ),
            (OwnedValue::Float(a), OwnedValue::Integer(b)) => Some(
                FloatTask::Sum(*a, promote_integer(*b)),
            ),
            (OwnedValue::Float(a), OwnedValue::Float(b)) => Some(FloatTask::Sum(*a, *b)),
            (OwnedValue::Text(a), OwnedValue::Float(b)) => Some(
                FloatTask::TextThenFloat(String::from_str(a.as_str()), *b),
            ),
            (OwnedValue::Float(a), OwnedValue::Text(b)) => Some(
                FloatTask::FloatThenText(*a, String::from_str(b.as_str())),
            ),
            _ => None,
        }
    }

    /// Adds `rhs` to the value in place. Where work is left to the host
    /// the value stays as it was and the work comes back.
    pub fn add_assign(&mut self, rhs: OwnedValue) -> (task: Option<FloatTask>)
        requires
            old(self)@.can_add(rhs@),
        ensures
            match task {
                Some(t) => *final(self) == *old(self) && ArithView::Host(t@) == old(self)@.sum(
                    rhs@,
                ),
                None => ArithView::Done(final(self)@) == old(self)@.sum(rhs@),
            },
    {
        match self.sum_task(&rhs) {
            Some(t) => Some(t),
            None => {
                let mut lhs = OwnedValue::Null;
                std::mem::swap(self, &mut lhs);
                match lhs.add(rhs) {
                    Arith::Done(v) => {
                        *self = v;
                    },
                    Arith::Host(_) => {
                        proof {
                            assert(false);
                        }
                    },
                }
                None
            },
        }
    }

    /// Whether the value is a number.
    pub fn is_number(&self) -> (r: bool)
        ensures
            r == self@.is_number(),
    {
        match self {
            OwnedValue::Integer(_) => true,
            OwnedValue::Float(_) => true,
            _ => false,
        }
    }

    /// Adds the binary64 number `rhs` to a number: the sum is work for the
    /// host, an integer promoted first.
    pub fn add_float(self, rhs: u64) -> (r: FloatTask)
        requires
            self@.is_number(),
        ensures
            ArithView::Host(r@) == self@.sum(ValueView::Float(rhs)),
    {
        match self {
            OwnedValue::Integer(a) => FloatTask::Sum(promote_integer(a), rhs),
            OwnedValue::Float(a) => FloatTask::Sum(a, rhs),
            _ => {
                proof {
                    assert(false);
                }
                FloatTask::Sum(0, rhs)
            },
        }
    }

    /// Whether [`OwnedValue::add_integer`] is defined on the value and
    /// `rhs`.
    pub fn can_add_integer(&self, rhs: i64) -> (r: bool)
        ensures
            r == self@.can_add_integer(rhs),
    {
        match self {
            OwnedValue::Integer(a) => a.checked_add(rhs).is_some(),
            OwnedValue::Float(_) => true,
            _ => false,
        }
    }

    /// Adds the integer `rhs` to a number.
    pub fn add_integer(self, rhs: i64) -> (r: Arith)
        requires
            self@.can_add_integer(rhs),
        ensures
            r@ == self@.sum(ValueView::Integer(rhs)),
    {
        match self {
            OwnedValue::Integer(a) => Arith::Done(OwnedValue::Integer(a + rhs)),
            OwnedValue::Float(a) => Arith::Host(FloatTask::Sum(a, promote_integer(rhs))),
            _ => {
                proof {
                    assert(false);
                }
                Arith::Done(OwnedValue::Null)
            },
        }
    }

    /// Adds the integer `rhs` to a number in place. Where work is left to
    /// the host the value stays as it was and the work comes back.
    pub fn add_assign_integer(&mut self, rhs: i64) -> (task: Option<FloatTask>)
        requires
            old(self)@.can_add_integer(rhs),
        ensures
            match task {
                Some(t) => *final(self) == *old(self) && ArithView::Host(t@) == old(self)@.sum(
                    ValueView::Integer(rhs),
                ),
                None => ArithView::Done(final(self)@) == old(self)@.sum(ValueView::Integer(rhs)),
            },
    {
        match self {
            OwnedValue::Integer(a) => {
                let sum = *a + rhs;
                *self = OwnedValue::Integer(sum);
                None
            },
            OwnedValue::Float(a) => Some(FloatTask::Sum(*a, promote_integer(rhs))),
            _ => {
                proof {
                    assert(false);
                }
                None
            },
        }
    }

    /// Whether [`OwnedValue::div`] is defined on the two values.
    pub fn can_divide(&self, rhs: &OwnedValue) -> (r: bool)
        ensures
            r == self@.can_divide(rhs@),
    {
        match (self, rhs) {
            (OwnedValue::Integer(a), OwnedValue::Integer(b)) => *b != 0 && !(*a == i64::MIN && *b
                == -1),
            _ => true,
        }
    }

    /// Divides the value by `rhs`.
    pub fn div(self, rhs: OwnedValue) -> (r: Arith)
        requires
            self@.can_divide(rhs@),
        ensures
            r@ == self@.quotient(rhs@),
    {
        match (self, rhs) {
            (OwnedValue::Integer(a), OwnedValue::Integer(b)) => Arith::Done(
                OwnedValue::Integer(divide_integers(a, b)),
            ),
            (OwnedValue::Integer(a), OwnedValue::Float(b)) => Arith::Host(
                FloatTask::Quotient(promote_integer(a), b),
            ),
            (OwnedValue::Float(a), OwnedValue::Integer(b)) => Arith::Host(
                FloatTask::Quotient(a, promote_integer(b)),
            ),
            (OwnedValue::Float(a), OwnedValue::Float(b)) => Arith::Host(
                FloatTask::Quotient(a, b),
            ),
            _ => Arith::Done(OwnedValue::Float(0)),
        }
    }

    /// Divides the value by `rhs` in place. Where work is left to the host
    /// the value stays as it was and the work comes back.
    pub fn div_assign(&mut self, rhs: OwnedValue) -> (task: Option<FloatTask>)
        requires
            old(self)@.can_divide(rhs@),
        ensures
            match task {
                Some(t) => *final(self) == *old(self) && ArithView::Host(t@)
                    == old(self)@.quotient(rhs@),
                None => ArithView::Done(final(self)@) == old(self)@.quotient(rhs@),
            },
    {
        match (&*self, &rhs) {
            (OwnedValue::Integer(a), OwnedValue::Integer(b)) => {
                let q = divide_integers(*a, *b);
                *self = OwnedValue::Integer(q);
                None
            },
            (OwnedValue::Integer(a), OwnedValue::Float(b)) => Some(
                FloatTask::Quotient(promote_integer(*a), *b),
            ),
            (OwnedValue::Float(a), OwnedValue::Integer(b)) => Some(
                FloatTask::Quotient(*a, promote_integer(*b)),
            ),
            (OwnedValue::Float(a), OwnedValue::Float(b)) => Some(FloatTask::Quotient(*a, *b)),
            _ => {
                *self = OwnedValue::Float(0);
                None
            },
        }
    }
}

} // verus!
