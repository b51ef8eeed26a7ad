//! Scalar coercions, type tags, equality and ordering of the bridge
//! against a fresh host.

use std::cmp::Ordering;

use emlite::host::Host;
use emlite::val::{Val, NAN_BITS};

#[test]
fn i32_round_trip() {
    let mut host = Host::new();
    for i in [0, 1, -1, 7, i32::MAX, i32::MIN] {
        let v = Val::from_i32(&mut host, i);
        assert_eq!(v.as_i32(&host), i);
    }
}

#[test]
fn f64_round_trip_bit_for_bit() {
    let mut host = Host::new();
    for f in [0.0f64, -0.0, 1.5, -3.25, f64::INFINITY, f64::NEG_INFINITY, f64::NAN] {
        let v = Val::from_f64_bits(&mut host, f.to_bits());
        assert_eq!(v.as_f64_bits(&host), f.to_bits());
    }
}

#[test]
fn string_round_trip() {
    let mut host = Host::new();
    for s in ["", "hello", "Grüße, Welt", "line\nbreak"] {
        let v = Val::from_str(&mut host, s);
        assert_eq!(v.as_string(&host), s);
    }
}

#[test]
fn integers_coerce_to_their_exact_double_bits() {
    let mut host = Host::new();
    for i in [0, 1, -1, 3, 120, -7, i32::MAX, i32::MIN] {
        let v = Val::from_i32(&mut host, i);
        assert_eq!(v.as_f64_bits(&host), (i as f64).to_bits(), "encoding {i}");
    }
}

#[test]
fn non_numbers_coerce_to_nan_bits() {
    let mut host = Host::new();
    let v = Val::object(&mut host);
    assert_eq!(v.as_f64_bits(&host), NAN_BITS);
    assert!(f64::from_bits(v.as_f64_bits(&host)).is_nan());
    assert_eq!(Val::undefined().as_f64_bits(&host), NAN_BITS);
}

#[test]
fn doubles_truncate_toward_zero() {
    let mut host = Host::new();
    for (f, i) in [
        (0.0, 0),
        (-0.0, 0),
        (0.75, 0),
        (1.0, 1),
        (3.99, 3),
        (-3.99, -3),
        (-1.5, -1),
        (120.25, 120),
        (2147483647.0, i32::MAX),
        (-2147483648.0, i32::MIN),
        (2147483648.0, 0),
        (-2147483649.0, 0),
        (1e300, 0),
        (f64::NAN, 0),
        (f64::INFINITY, 0),
        (f64::NEG_INFINITY, 0),
    ] {
        let v = Val::from_f64_bits(&mut host, f.to_bits());
        assert_eq!(v.as_i32(&host), i, "truncating {f}");
    }
}

#[test]
fn one_host_number_line() {
    let mut host = Host::new();
    let int_one = Val::from_i32(&mut host, 1);
    let dbl_one = Val::from_f64_bits(&mut host, 1.0f64.to_bits());
    assert!(int_one.strictly_equals(&host, &dbl_one));
    assert!(dbl_one.strictly_equals(&host, &int_one));
    let int_zero = Val::from_i32(&mut host, 0);
    let neg_zero = Val::from_f64_bits(&mut host, (-0.0f64).to_bits());
    let pos_zero = Val::from_f64_bits(&mut host, 0.0f64.to_bits());
    assert!(int_zero.strictly_equals(&host, &neg_zero));
    assert!(pos_zero.strictly_equals(&host, &neg_zero));
    let dbl_half = Val::from_f64_bits(&mut host, 1.5f64.to_bits());
    assert!(!int_one.strictly_equals(&host, &dbl_half));
    let int_min = Val::from_i32(&mut host, i32::MIN);
    let dbl_min = Val::from_f64_bits(&mut host, (-2147483648.0f64).to_bits());
    assert!(int_min.strictly_equals(&host, &dbl_min));
}

#[test]
fn int_to_double_and_back() {
    let mut host = Host::new();
    for i in [0, 1, -1, 42, -2048, i32::MAX, i32::MIN] {
        let n = Val::from_i32(&mut host, i);
        let bits = n.as_f64_bits(&host);
        let d = Val::from_f64_bits(&mut host, bits);
        assert!(d.strictly_equals(&host, &n), "equality for {i}");
        assert_eq!(d.as_i32(&host), i, "truncating back {i}");
    }
}

#[test]
fn doubles_order_numerically() {
    let mut host = Host::new();
    let a = Val::from_f64_bits(&mut host, 1.5f64.to_bits());
    let b = Val::from_f64_bits(&mut host, 2.5f64.to_bits());
    let neg = Val::from_f64_bits(&mut host, (-1.0f64).to_bits());
    assert_eq!(a.partial_cmp(&host, &b), Some(Ordering::Less));
    assert_eq!(b.partial_cmp(&host, &a), Some(Ordering::Greater));
    assert_eq!(neg.partial_cmp(&host, &a), Some(Ordering::Less));
    assert_eq!(a.partial_cmp(&host, &a), Some(Ordering::Equal));
    let pos_zero = Val::from_f64_bits(&mut host, 0.0f64.to_bits());
    let neg_zero = Val::from_f64_bits(&mut host, (-0.0f64).to_bits());
    assert_eq!(pos_zero.partial_cmp(&host, &neg_zero), Some(Ordering::Equal));
    let nan = Val::from_f64_bits(&mut host, f64::NAN.to_bits());
    assert_eq!(nan.partial_cmp(&host, &a), None);
    assert_eq!(a.partial_cmp(&host, &nan), None);
}

#[test]
fn integers_format_in_decimal() {
    let mut host = Host::new();
    for (i, s) in [
        (0, "0"),
        (7, "7"),
        (-5, "-5"),
        (120, "120"),
        (i32::MAX, "2147483647"),
        (i32::MIN, "-2147483648"),
    ] {
        let v = Val::from_i32(&mut host, i);
        assert_eq!(v.as_string(&host), s);
    }
}

#[test]
fn text_parses_by_the_decimal_rule() {
    let mut host = Host::new();
    for (s, i) in [
        ("123", 123),
        ("-42", -42),
        ("0", 0),
        ("007", 7),
        ("2147483647", i32::MAX),
        ("-2147483648", i32::MIN),
        ("2147483648", 0),
        ("-2147483649", 0),
        ("", 0),
        ("-", 0),
        ("12x", 0),
        ("x12", 0),
        (" 12", 0),
        ("99999999999999999999", 0),
    ] {
        let v = Val::from_str(&mut host, s);
        assert_eq!(v.as_i32(&host), i, "coercing {s:?}");
    }
}

#[test]
fn booleans_and_null_coerce_to_integers() {
    let mut host = Host::new();
    let n = Val::null();
    assert_eq!(n.as_i32(&host), 0);
    let u = Val::undefined();
    assert_eq!(u.as_i32(&host), 0);
}

#[test]
fn fixed_words_stringify() {
    let mut host = Host::new();
    assert_eq!(Val::null().as_string(&host), "null");
    assert_eq!(Val::undefined().as_string(&host), "undefined");
    let o = Val::object(&mut host);
    assert_eq!(o.as_string(&host), "[object Object]");
    let f = Val::make_js_function(&mut host, 1);
    assert_eq!(f.as_string(&host), "function");
}

#[test]
fn type_tags() {
    let mut host = Host::new();
    let one = Val::from_i32(&mut host, 1);
    assert_eq!(one.type_of(&host), "number");
    let d = Val::from_f64_bits(&mut host, 2.5f64.to_bits());
    assert_eq!(d.type_of(&host), "number");
    let o = Val::object(&mut host);
    assert_eq!(o.type_of(&host), "object");
    assert_eq!(Val::undefined().type_of(&host), "undefined");
    assert_eq!(Val::null().type_of(&host), "object");
    let s = Val::from_str(&mut host, "s");
    assert_eq!(s.type_of(&host), "string");
    let a = Val::array(&mut host);
    assert_eq!(a.type_of(&host), "object");
    let f = Val::make_js_function(&mut host, 2);
    assert_eq!(f.type_of(&host), "function");
}

#[test]
fn strict_equality_is_reflexive_and_value_based() {
    let mut host = Host::new();
    let a = Val::from_i32(&mut host, 1);
    let b = Val::from_i32(&mut host, 1);
    let c = Val::from_i32(&mut host, 2);
    assert!(a.strictly_equals(&host, &a));
    assert!(a.strictly_equals(&host, &b));
    assert!(!a.strictly_equals(&host, &c));
    let s1 = Val::from_str(&mut host, "hi");
    let s2 = Val::from_str(&mut host, "hi");
    assert!(s1.strictly_equals(&host, &s2));
    let o1 = Val::object(&mut host);
    let o2 = Val::object(&mut host);
    assert!(o1.strictly_equals(&host, &o1));
    assert!(!o1.strictly_equals(&host, &o2));
    assert!(!a.strictly_equals(&host, &s1));
}

#[test]
fn ordering_mirrors_the_host() {
    let mut host = Host::new();
    let one = Val::from_i32(&mut host, 1);
    let two = Val::from_i32(&mut host, 2);
    assert_eq!(one.partial_cmp(&host, &two), Some(Ordering::Less));
    assert_eq!(two.partial_cmp(&host, &one), Some(Ordering::Greater));
    assert_eq!(one.partial_cmp(&host, &one), Some(Ordering::Equal));
    let a = Val::from_str(&mut host, "apple");
    let b = Val::from_str(&mut host, "banana");
    assert_eq!(a.partial_cmp(&host, &b), Some(Ordering::Less));
    assert_eq!(b.partial_cmp(&host, &a), Some(Ordering::Greater));
    // Incomparable shapes have no ordering at all.
    assert_eq!(one.partial_cmp(&host, &a), None);
}

#[test]
fn negation_follows_truthiness() {
    let mut host = Host::new();
    let zero = Val::from_i32(&mut host, 0);
    assert!(zero.not(&host));
    let one = Val::from_i32(&mut host, 1);
    assert!(!one.not(&host));
    let empty = Val::from_str(&mut host, "");
    assert!(empty.not(&host));
    let full = Val::from_str(&mut host, "x");
    assert!(!full.not(&host));
    assert!(Val::null().not(&host));
    assert!(Val::undefined().not(&host));
    let obj = Val::object(&mut host);
    assert!(!obj.not(&host));
    let nan = Val::from_f64_bits(&mut host, f64::NAN.to_bits());
    assert!(nan.not(&host));
    let neg_zero = Val::from_f64_bits(&mut host, (-0.0f64).to_bits());
    assert!(neg_zero.not(&host));
    let pi = Val::from_f64_bits(&mut host, 3.14f64.to_bits());
    assert!(!pi.not(&host));
}
