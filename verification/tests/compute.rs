use template_eval::compute::{
    compute_and, compute_eq, compute_greater, compute_greater_eq, compute_less, compute_less_eq,
    compute_neq, compute_not, compute_or,
};
use template_eval::decimal::Decimal;
use template_eval::operand::{Convert, Object, Operand};

fn lit(s: &str) -> Operand {
    Operand::Literal(s.to_string())
}

fn dec(f: f64) -> Operand {
    Operand::Decimal(Decimal::new(f.to_bits(), f.to_string(), format!("{:?}", f)))
}

fn obj(n: &str) -> Operand {
    Operand::Object(Object { name: n.to_string() })
}

fn n(v: i64) -> Operand {
    Operand::Number(v)
}

fn truth(b: bool) -> Operand {
    Operand::Number(b as i64)
}

#[test]
fn and_or_on_each_kind() {
    assert_eq!(compute_and(lit("a"), lit("b")).unwrap(), n(1));
    assert_eq!(compute_and(lit("a"), lit("")).unwrap(), n(0));
    assert_eq!(compute_or(lit(""), lit("")).unwrap(), n(0));
    assert_eq!(compute_or(lit(""), lit("x")).unwrap(), n(1));
    assert_eq!(compute_and(n(5), n(-1)).unwrap(), n(1));
    assert_eq!(compute_and(n(5), n(0)).unwrap(), n(0));
    assert_eq!(compute_or(n(0), n(0)).unwrap(), n(0));
    assert_eq!(compute_or(n(0), n(7)).unwrap(), n(1));
    assert_eq!(compute_and(dec(0.5), dec(-0.0)).unwrap(), n(0));
    assert_eq!(compute_or(dec(0.0), dec(f64::NAN)).unwrap(), n(1));
}

#[test]
fn mixed_kinds_are_a_type_mismatch() {
    assert_eq!(compute_and(n(1), lit("a")).unwrap_err(), "Type mismatch : Number(1) Literal(\"a\")");
    assert!(compute_or(dec(1.0), n(1)).is_err());
    assert!(compute_eq(n(1), dec(1.0)).is_err());
    assert!(compute_less(obj("a"), obj("a")).is_err());
    assert!(compute_neq(lit("a"), obj("a")).is_err());
    assert!(compute_greater(n(1), lit("1")).is_err());
    assert!(compute_greater_eq(lit("1"), n(1)).is_err());
    assert!(compute_less_eq(dec(1.0), lit("1")).is_err());
}

#[test]
fn comparisons_of_literals_follow_string_order() {
    let words = ["", "a", "ab", "abc", "abd", "b", "B", "é", "z", "ü", "日本"];
    for x in words.iter() {
        for y in words.iter() {
            let (l, r) = (lit(x), lit(y));
            assert_eq!(compute_less(l.clone(), r.clone()).unwrap(), truth(x < y));
            assert_eq!(compute_less_eq(l.clone(), r.clone()).unwrap(), truth(x <= y));
            assert_eq!(compute_greater(l.clone(), r.clone()).unwrap(), truth(x > y));
            assert_eq!(compute_greater_eq(l.clone(), r.clone()).unwrap(), truth(x >= y));
            assert_eq!(compute_eq(l.clone(), r.clone()).unwrap(), truth(x == y));
            assert_eq!(compute_neq(l, r).unwrap(), truth(x != y));
        }
    }
}

#[test]
fn comparisons_of_numbers() {
    let values = [i64::MIN, -3, -1, 0, 1, 2, i64::MAX];
    for &x in values.iter() {
        for &y in values.iter() {
            assert_eq!(compute_less(n(x), n(y)).unwrap(), truth(x < y));
            assert_eq!(compute_less_eq(n(x), n(y)).unwrap(), truth(x <= y));
            assert_eq!(compute_greater(n(x), n(y)).unwrap(), truth(x > y));
            assert_eq!(compute_greater_eq(n(x), n(y)).unwrap(), truth(x >= y));
            assert_eq!(compute_eq(n(x), n(y)).unwrap(), truth(x == y));
            assert_eq!(compute_neq(n(x), n(y)).unwrap(), truth(x != y));
        }
    }
}

#[test]
fn comparisons_of_decimals_follow_ieee() {
    let values = [
        f64::NEG_INFINITY,
        -1.5e300,
        -2.5,
        -f64::MIN_POSITIVE,
        -0.0,
        0.0,
        5e-324,
        0.1,
        1.0,
        2.5,
        f64::MAX,
        f64::INFINITY,
        f64::NAN,
        -f64::NAN,
    ];
    for &x in values.iter() {
        for &y in values.iter() {
            assert_eq!(compute_less(dec(x), dec(y)).unwrap(), truth(x < y), "{} < {}", x, y);
            assert_eq!(compute_less_eq(dec(x), dec(y)).unwrap(), truth(x <= y), "{} <= {}", x, y);
            assert_eq!(compute_greater(dec(x), dec(y)).unwrap(), truth(x > y), "{} > {}", x, y);
            assert_eq!(compute_greater_eq(dec(x), dec(y)).unwrap(), truth(x >= y), "{} >= {}", x, y);
            assert_eq!(compute_eq(dec(x), dec(y)).unwrap(), truth(x == y), "{} == {}", x, y);
            assert_eq!(compute_neq(dec(x), dec(y)).unwrap(), truth(x != y), "{} != {}", x, y);
        }
        assert_eq!(compute_not(dec(x)).unwrap(), truth(x == 0.0));
        assert_eq!(dec(x).is_true(), x != 0.0);
    }
}

#[test]
fn not_negates_truth() {
    assert_eq!(compute_not(lit("")).unwrap(), n(1));
    assert_eq!(compute_not(lit("x")).unwrap(), n(0));
    assert_eq!(compute_not(n(0)).unwrap(), n(1));
    assert_eq!(compute_not(n(-4)).unwrap(), n(0));
    assert_eq!(compute_not(obj("a")).unwrap_err(), "Invalid operation NOT Object(Object { name: \"a\" })");
}

#[test]
fn is_true_and_to_str() {
    assert!(lit("x").is_true());
    assert!(!lit("").is_true());
    assert!(n(3).is_true());
    assert!(!n(0).is_true());
    assert_eq!(lit("abc").to_str(), "abc");
    for v in [0i64, 7, -7, 10, 1234567890, i64::MAX, i64::MIN] {
        assert_eq!(n(v).to_str(), v.to_string());
    }
    assert_eq!(dec(2.5).to_str(), "2.5");
}

#[test]
fn laws_on_examples() {
    // != is the negation of ==, > is < swapped, <= is < or ==
    let pairs = [(n(1), n(2)), (lit("b"), lit("a")), (dec(1.0), dec(f64::NAN)), (dec(0.0), dec(-0.0))];
    for (l, r) in pairs.iter() {
        let eq = compute_eq(l.clone(), r.clone()).unwrap();
        let neq = compute_neq(l.clone(), r.clone()).unwrap();
        assert_ne!(eq, neq);
        assert_eq!(compute_greater(l.clone(), r.clone()).unwrap(), compute_less(r.clone(), l.clone()).unwrap());
        assert_eq!(
            compute_greater_eq(l.clone(), r.clone()).unwrap(),
            compute_less_eq(r.clone(), l.clone()).unwrap()
        );
        let le = compute_less_eq(l.clone(), r.clone()).unwrap() == n(1);
        let lt = compute_less(l.clone(), r.clone()).unwrap() == n(1);
        assert_eq!(le, lt || eq == n(1));
        assert_eq!(compute_and(l.clone(), r.clone()).unwrap(), compute_and(r.clone(), l.clone()).unwrap());
        assert_eq!(compute_or(l.clone(), r.clone()).unwrap(), compute_or(r.clone(), l.clone()).unwrap());
    }
}

#[test]
fn error_texts_show_operands_as_debug_does() {
    assert_eq!(
        compute_less(dec(2.5), n(1)).unwrap_err(),
        "Type mismatch : Decimal(2.5) Number(1)"
    );
    assert_eq!(
        compute_eq(dec(1e20), lit("a\"b\\c\n")).unwrap_err(),
        format!("Type mismatch : Decimal({:?}) Literal({:?})", 1e20f64, "a\"b\\c\n")
    );
    assert_eq!(
        compute_greater(obj("x.y"), n(-7)).unwrap_err(),
        "Type mismatch : Object(Object { name: \"x.y\" }) Number(-7)"
    );
    assert_eq!(
        compute_not(obj("é\t")).unwrap_err(),
        format!("Invalid operation NOT Object(Object {{ name: {:?} }})", "é\t")
    );
}

#[test]
fn decimals_are_equal_by_value() {
    assert_eq!(dec(0.0), dec(-0.0));
    assert_ne!(dec(f64::NAN), dec(f64::NAN));
    assert_eq!(dec(1.5), dec(1.5));
    assert_ne!(dec(1.5), dec(2.5));
}
