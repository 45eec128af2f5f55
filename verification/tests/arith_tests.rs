use limbo_values::arith::{Arith, FloatTask};
use limbo_values::text::{join, render_integer};
use limbo_values::value::{AggContext, OwnedRecord, OwnedValue};
use std::rc::Rc;

fn text(s: &str) -> OwnedValue {
    OwnedValue::Text(Rc::new(s.to_string()))
}

fn blob(b: &[u8]) -> OwnedValue {
    OwnedValue::Blob(Rc::new(b.to_vec()))
}

fn float(x: f64) -> OwnedValue {
    OwnedValue::Float(x.to_bits())
}

/// Does the work that the library leaves to its host.
fn finish(outcome: Arith) -> OwnedValue {
    match outcome {
        Arith::Done(v) => v,
        Arith::Host(FloatTask::Sum(a, b)) => float(f64::from_bits(a) + f64::from_bits(b)),
        Arith::Host(FloatTask::Quotient(a, b)) => float(f64::from_bits(a) / f64::from_bits(b)),
        Arith::Host(FloatTask::TextThenFloat(t, f)) => {
            OwnedValue::Text(Rc::new(join(&t, &format!("{:?}", f64::from_bits(f)))))
        }
        Arith::Host(FloatTask::FloatThenText(f, t)) => {
            OwnedValue::Text(Rc::new(join(&format!("{:?}", f64::from_bits(f)), &t)))
        }
    }
}

#[test]
fn addition_table() {
    assert_eq!(
        OwnedValue::Integer(2).add(OwnedValue::Integer(3)),
        Arith::Done(OwnedValue::Integer(5))
    );
    assert_eq!(finish(OwnedValue::Integer(2).add(float(3.0))), float(5.0));
    assert_eq!(finish(float(3.0).add(OwnedValue::Integer(2))), float(5.0));
    assert_eq!(finish(float(1.5).add(float(2.25))), float(3.75));
    assert_eq!(text("a").add(text("b")), Arith::Done(text("ab")));
    assert_eq!(text("a").add(OwnedValue::Integer(1)), Arith::Done(text("a1")));
    assert_eq!(OwnedValue::Integer(-12).add(text("a")), Arith::Done(text("-12a")));
    assert_eq!(finish(text("a").add(float(1.5))), text("a1.5"));
    assert_eq!(finish(float(3.0).add(text("a"))), text("3.0a"));
    assert_eq!(
        OwnedValue::Null.add(OwnedValue::Integer(5)),
        Arith::Done(OwnedValue::Integer(5))
    );
    assert_eq!(
        OwnedValue::Integer(5).add(OwnedValue::Null),
        Arith::Done(OwnedValue::Integer(5))
    );
    assert_eq!(OwnedValue::Null.add(OwnedValue::Null), Arith::Done(OwnedValue::Null));
    assert_eq!(text("t").add(OwnedValue::Null), Arith::Done(text("t")));
    assert_eq!(OwnedValue::Null.add(blob(&[1])), Arith::Done(blob(&[1])));
}

#[test]
fn addition_names_the_work_for_the_host() {
    assert_eq!(
        OwnedValue::Integer(2).add(float(3.0)),
        Arith::Host(FloatTask::Sum(2.0f64.to_bits(), 3.0f64.to_bits()))
    );
    assert_eq!(
        float(3.0).add(OwnedValue::Integer(-2)),
        Arith::Host(FloatTask::Sum(3.0f64.to_bits(), (-2.0f64).to_bits()))
    );
    assert_eq!(
        float(0.5).add(float(0.25)),
        Arith::Host(FloatTask::Sum(0.5f64.to_bits(), 0.25f64.to_bits()))
    );
    assert_eq!(
        text("a").add(float(0.5)),
        Arith::Host(FloatTask::TextThenFloat("a".to_string(), 0.5f64.to_bits()))
    );
    assert_eq!(
        float(0.5).add(text("a")),
        Arith::Host(FloatTask::FloatThenText(0.5f64.to_bits(), "a".to_string()))
    );
}

#[test]
fn addition_falls_back_to_zero() {
    let zero = Arith::Done(OwnedValue::Float(0));
    assert_eq!(blob(&[1]).add(blob(&[2])), zero);
    assert_eq!(text("a").add(blob(&[2])), zero);
    assert_eq!(blob(&[2]).add(OwnedValue::Integer(1)), zero);
    assert_eq!(OwnedValue::Integer(1).add(blob(&[2])), zero);
    assert_eq!(float(1.0).add(blob(&[2])), zero);
    let sum = OwnedValue::Agg(Box::new(AggContext::Sum(OwnedValue::Integer(1))));
    assert_eq!(sum.clone().add(OwnedValue::Integer(1)), zero);
    assert_eq!(OwnedValue::Integer(1).add(sum.clone()), zero);
    assert_eq!(sum.clone().add(OwnedValue::Null), Arith::Done(sum.clone()));
    let row = OwnedValue::Record(OwnedRecord::new(vec![]));
    assert_eq!(row.clone().add(text("a")), zero);
}

#[test]
fn integer_addition_must_not_overflow() {
    assert!(OwnedValue::Integer(i64::MAX).can_add(&OwnedValue::Integer(0)));
    assert!(!OwnedValue::Integer(i64::MAX).can_add(&OwnedValue::Integer(1)));
    assert!(!OwnedValue::Integer(i64::MIN).can_add(&OwnedValue::Integer(-1)));
    assert!(OwnedValue::Integer(i64::MIN).can_add(&OwnedValue::Integer(i64::MAX)));
    assert!(OwnedValue::Integer(i64::MAX).can_add(&float(1.0)));
    assert!(text("a").can_add(&OwnedValue::Integer(i64::MAX)));
    assert_eq!(
        OwnedValue::Integer(i64::MAX).add(OwnedValue::Integer(i64::MIN)),
        Arith::Done(OwnedValue::Integer(-1))
    );
}

#[test]
fn division_table() {
    assert_eq!(
        OwnedValue::Integer(7).div(OwnedValue::Integer(2)),
        Arith::Done(OwnedValue::Integer(3))
    );
    assert_eq!(
        OwnedValue::Integer(-7).div(OwnedValue::Integer(2)),
        Arith::Done(OwnedValue::Integer(-3))
    );
    assert_eq!(
        OwnedValue::Integer(7).div(OwnedValue::Integer(-2)),
        Arith::Done(OwnedValue::Integer(-3))
    );
    assert_eq!(
        OwnedValue::Integer(-7).div(OwnedValue::Integer(-2)),
        Arith::Done(OwnedValue::Integer(3))
    );
    assert_eq!(finish(OwnedValue::Integer(7).div(float(2.0))), float(3.5));
    assert_eq!(finish(float(7.0).div(OwnedValue::Integer(2))), float(3.5));
    assert_eq!(finish(float(1.0).div(float(4.0))), float(0.25));
    assert_eq!(finish(float(1.0).div(float(0.0))), float(f64::INFINITY));
    assert_eq!(
        OwnedValue::Integer(1).div(float(0.0)),
        Arith::Host(FloatTask::Quotient(1.0f64.to_bits(), 0))
    );
    let zero = Arith::Done(OwnedValue::Float(0));
    assert_eq!(text("a").div(text("b")), zero);
    assert_eq!(OwnedValue::Null.div(OwnedValue::Integer(1)), zero);
    assert_eq!(OwnedValue::Integer(1).div(OwnedValue::Null), zero);
    assert_eq!(blob(&[1]).div(float(1.0)), zero);
    assert_eq!(float(1.0).div(text("2")), zero);
}

#[test]
fn integer_division_matches_hardware() {
    let samples = [
        0i64,
        1,
        -1,
        2,
        -2,
        3,
        7,
        -7,
        100,
        -100,
        i64::MAX,
        i64::MIN,
        i64::MAX - 1,
        i64::MIN + 1,
        1 << 62,
        -(1 << 62),
    ];
    for a in samples {
        for b in samples {
            let lhs = OwnedValue::Integer(a);
            let rhs = OwnedValue::Integer(b);
            let defined = b != 0 && !(a == i64::MIN && b == -1);
            assert_eq!(lhs.can_divide(&rhs), defined, "{} by {}", a, b);
            if defined {
                assert_eq!(lhs.div(rhs), Arith::Done(OwnedValue::Integer(a / b)), "{} by {}", a, b);
            }
        }
    }
    assert!(OwnedValue::Integer(1).can_divide(&float(0.0)));
    assert!(text("a").can_divide(&OwnedValue::Integer(0)));
}

#[test]
fn adding_a_host_number() {
    assert_eq!(
        OwnedValue::Integer(2).add_integer(3),
        Arith::Done(OwnedValue::Integer(5))
    );
    assert_eq!(
        float(2.5).add_integer(3),
        Arith::Host(FloatTask::Sum(2.5f64.to_bits(), 3.0f64.to_bits()))
    );
    assert_eq!(
        OwnedValue::Integer(2).add_float(0.5f64.to_bits()),
        FloatTask::Sum(2.0f64.to_bits(), 0.5f64.to_bits())
    );
    assert_eq!(
        float(2.5).add_float(0.5f64.to_bits()),
        FloatTask::Sum(2.5f64.to_bits(), 0.5f64.to_bits())
    );
    assert!(OwnedValue::Integer(2).can_add_integer(3));
    assert!(!OwnedValue::Integer(i64::MAX).can_add_integer(1));
    assert!(float(1.0).can_add_integer(i64::MAX));
    assert!(!text("a").can_add_integer(1));
    assert!(!OwnedValue::Null.can_add_integer(1));
    assert!(OwnedValue::Integer(1).is_number());
    assert!(float(1.0).is_number());
    assert!(!text("1").is_number());
    assert!(!OwnedValue::Null.is_number());
}

#[test]
fn adding_in_place() {
    let mut v = OwnedValue::Integer(2);
    assert_eq!(v.add_assign(OwnedValue::Integer(3)), None);
    assert_eq!(v, OwnedValue::Integer(5));
    assert_eq!(v.add_assign(OwnedValue::Null), None);
    assert_eq!(v, OwnedValue::Integer(5));
    assert_eq!(
        v.add_assign(float(0.5)),
        Some(FloatTask::Sum(5.0f64.to_bits(), 0.5f64.to_bits()))
    );
    assert_eq!(v, OwnedValue::Integer(5));
    assert_eq!(v.add_assign_integer(-6), None);
    assert_eq!(v, OwnedValue::Integer(-1));
    let mut t = text("a");
    assert_eq!(t.add_assign(text("b")), None);
    assert_eq!(t, text("ab"));
    assert_eq!(t.add_assign(OwnedValue::Integer(7)), None);
    assert_eq!(t, text("ab7"));
    assert_eq!(
        t.add_assign(float(1.0)),
        Some(FloatTask::TextThenFloat("ab7".to_string(), 1.0f64.to_bits()))
    );
    assert_eq!(t, text("ab7"));
    assert_eq!(t.add_assign(blob(&[1])), None);
    assert_eq!(t, OwnedValue::Float(0));
    let mut n = OwnedValue::Null;
    assert_eq!(n.add_assign(text("x")), None);
    assert_eq!(n, text("x"));
    let mut f = float(1.0);
    assert_eq!(
        f.add_assign_integer(2),
        Some(FloatTask::Sum(1.0f64.to_bits(), 2.0f64.to_bits()))
    );
    assert_eq!(f, float(1.0));
}

#[test]
fn dividing_in_place() {
    let mut v = OwnedValue::Integer(7);
    assert_eq!(v.div_assign(OwnedValue::Integer(2)), None);
    assert_eq!(v, OwnedValue::Integer(3));
    assert_eq!(
        v.div_assign(float(2.0)),
        Some(FloatTask::Quotient(3.0f64.to_bits(), 2.0f64.to_bits()))
    );
    assert_eq!(v, OwnedValue::Integer(3));
    assert_eq!(v.div_assign(text("a")), None);
    assert_eq!(v, OwnedValue::Float(0));
    let mut f = float(1.0);
    assert_eq!(
        f.div_assign(OwnedValue::Integer(4)),
        Some(FloatTask::Quotient(1.0f64.to_bits(), 4.0f64.to_bits()))
    );
    assert_eq!(f, float(1.0));
}

#[test]
fn integers_render_in_decimal() {
    for i in [
        0i64,
        1,
        -1,
        9,
        10,
        -10,
        99,
        100,
        12345,
        -9876543210,
        i64::MAX,
        i64::MIN,
        i64::MIN + 1,
    ] {
        assert_eq!(render_integer(i), i.to_string());
    }
    assert_eq!(render_integer(i64::MIN), "-9223372036854775808");
    assert_eq!(join("ab", "cd"), "abcd");
    assert_eq!(join("", "é"), "é");
}
