//! Handle lifecycle, property, array and invocation behaviour of the
//! bridge against a fresh host.

use emlite::console::Console;
use emlite::host::{Host, HostValue, NULL_HANDLE, UNDEFINED_HANDLE};
use emlite::val::Val;

#[test]
fn handle_wrap_round_trip() {
    let v = Val::from_handle(42);
    assert_eq!(v.as_handle(), 42);
    let w = Val::from_val(v);
    assert_eq!(w.as_handle(), 42);
}

#[test]
fn singletons_are_interned() {
    assert_eq!(Val::null().as_handle(), NULL_HANDLE);
    assert_eq!(Val::undefined().as_handle(), UNDEFINED_HANDLE);
}

#[test]
fn as_bool_is_a_handle_threshold() {
    let mut host = Host::new();
    assert!(!Val::null().as_bool());
    assert!(!Val::undefined().as_bool());
    // Even a zero integer tests true: the shortcut is structural, not
    // semantic truthiness.
    let zero = Val::from_i32(&mut host, 0);
    assert!(zero.as_bool());
}

#[test]
fn property_round_trip_int() {
    let mut host = Host::new();
    let obj = Val::object(&mut host);
    let v = Val::from_i32(&mut host, 7);
    obj.set(&mut host, "k", v);
    let r = obj.get(&mut host, "k");
    assert!(r.strictly_equals(&host, &v));
    assert_eq!(r.as_i32(&host), 7);
}

#[test]
fn property_round_trip_object_identity() {
    let mut host = Host::new();
    let obj = Val::object(&mut host);
    let inner = Val::object(&mut host);
    obj.set(&mut host, "child", inner);
    let r = obj.get(&mut host, "child");
    // A fresh handle, but the same host object.
    assert_ne!(r.as_handle(), inner.as_handle());
    assert!(r.strictly_equals(&host, &inner));
}

#[test]
fn has_own_property_flips_on_set() {
    let mut host = Host::new();
    let obj = Val::object(&mut host);
    let v = Val::from_str(&mut host, "x");
    assert!(!obj.has_own_property(&host, "k"));
    assert!(!obj.has(&host, "k"));
    obj.set(&mut host, "k", v);
    assert!(obj.has_own_property(&host, "k"));
    assert!(obj.has(&host, "k"));
}

#[test]
fn set_shadows_earlier_binding() {
    let mut host = Host::new();
    let obj = Val::object(&mut host);
    let a = Val::from_i32(&mut host, 1);
    let b = Val::from_i32(&mut host, 2);
    obj.set(&mut host, "k", a);
    obj.set(&mut host, "k", b);
    assert_eq!(obj.get(&mut host, "k").as_i32(&host), 2);
}

#[test]
fn missing_property_reads_undefined() {
    let mut host = Host::new();
    let obj = Val::object(&mut host);
    let r = obj.get(&mut host, "nothing");
    assert_eq!(r.type_of(&host), "undefined");
}

#[test]
fn array_length_is_derived_not_own() {
    let mut host = Host::new();
    let arr = Val::array(&mut host);
    let one = Val::from_i32(&mut host, 1);
    arr.push(&mut host, one);
    assert!(arr.has(&host, "length"));
    assert!(!arr.has_own_property(&host, "length"));
    assert_eq!(arr.get(&mut host, "length").as_i32(&host), 1);
}

#[test]
fn to_vec_i32_ordered() {
    let mut host = Host::new();
    let arr = Val::array(&mut host);
    for i in [1, 2, 3] {
        let v = Val::from_i32(&mut host, i);
        arr.push(&mut host, v);
    }
    assert_eq!(arr.to_vec_i32(&mut host), vec![1, 2, 3]);
}

#[test]
fn to_vec_i32_is_length_driven() {
    let mut host = Host::new();
    // An object that reports a length of 2 but stores nothing: extraction
    // ends exactly at the reported length.
    let obj = Val::object(&mut host);
    let two = Val::from_i32(&mut host, 2);
    obj.set(&mut host, "length", two);
    assert_eq!(obj.to_vec_i32(&mut host), vec![0, 0]);
}

#[test]
fn to_vec_f64_bits_ordered() {
    let mut host = Host::new();
    let arr = Val::array(&mut host);
    for f in [1.5f64, -0.25f64] {
        let v = Val::from_f64_bits(&mut host, f.to_bits());
        arr.push(&mut host, v);
    }
    let bits = arr.to_vec_f64_bits(&mut host);
    assert_eq!(bits.len(), 2);
    assert_eq!(f64::from_bits(bits[0]), 1.5);
    assert_eq!(f64::from_bits(bits[1]), -0.25);
}

#[test]
fn at_out_of_range_is_undefined() {
    let mut host = Host::new();
    let arr = Val::array(&mut host);
    let e = arr.at(&mut host, 5);
    assert_eq!(e.type_of(&host), "undefined");
}

#[test]
fn delete_of_fresh_value_succeeds() {
    let mut host = Host::new();
    let v = Val::from_i32(&mut host, 9);
    Val::delete(&mut host, v);
}

#[test]
fn throw_records_pending_exception() {
    let mut host = Host::new();
    let v = Val::from_str(&mut host, "boom");
    let h = v.as_handle();
    Val::throw(&mut host, v);
    assert_eq!(host.thrown, Some(h));
}

#[test]
fn calling_a_non_function_raises_type_error() {
    let mut host = Host::new();
    let n = Val::from_i32(&mut host, 3);
    let r = n.invoke(&mut host, &[]);
    assert_eq!(r.as_handle(), UNDEFINED_HANDLE);
    let e = host.thrown.expect("a host exception is pending");
    assert!(matches!(&host.slots[e as usize], HostValue::Text(t) if t == "TypeError"));
}

#[test]
fn set_on_non_object_is_silently_ignored() {
    let mut host = Host::new();
    let n = Val::from_i32(&mut host, 1);
    let v = Val::from_i32(&mut host, 2);
    n.set(&mut host, "k", v);
    assert!(!n.has(&host, "k"));
    assert_eq!(host.thrown, None);
}

#[test]
fn calling_a_missing_method_raises_type_error() {
    let mut host = Host::new();
    let obj = Val::object(&mut host);
    let r = obj.call(&mut host, "frobnicate", &[]);
    assert_eq!(r.as_handle(), UNDEFINED_HANDLE);
    let e = host.thrown.expect("a host exception is pending");
    assert!(matches!(&host.slots[e as usize], HostValue::Text(t) if t == "TypeError"));
}

#[test]
fn at_on_non_array_is_undefined() {
    let mut host = Host::new();
    let n = Val::from_i32(&mut host, 1);
    let e = n.at(&mut host, 0);
    assert_eq!(e.type_of(&host), "undefined");
}

#[test]
fn new_on_non_function_raises_type_error() {
    let mut host = Host::new();
    let n = Val::from_str(&mut host, "not a constructor");
    let r = n.new(&mut host, &[]);
    assert_eq!(r.as_handle(), UNDEFINED_HANDLE);
    assert!(host.thrown.is_some());
}

#[test]
fn new_constructs_an_instance() {
    let mut host = Host::new();
    let ctor = Val::make_js_function(&mut host, 0);
    let obj = ctor.new(&mut host, &[]);
    assert_eq!(obj.type_of(&host), "object");
    assert!(obj.instanceof(&host, ctor));
    let other = Val::object(&mut host);
    assert!(!other.instanceof(&host, ctor));
}

#[test]
fn invoking_a_native_callback_yields_undefined() {
    let mut host = Host::new();
    let f = Val::make_js_function(&mut host, 7);
    assert_eq!(f.type_of(&host), "function");
    let r = f.invoke(&mut host, &[]);
    assert_eq!(r.type_of(&host), "undefined");
    assert_eq!(host.thrown, None);
}

#[test]
fn await_resolves_to_the_value() {
    let mut host = Host::new();
    let v = Val::from_i32(&mut host, 5);
    let r = v.await_(&mut host);
    assert_ne!(r.as_handle(), v.as_handle());
    assert!(r.strictly_equals(&host, &v));
    assert_eq!(r.as_i32(&host), 5);
}

#[test]
fn global_reaches_the_console() {
    let mut host = Host::new();
    let console = Val::global(&mut host, "console");
    assert_eq!(console.type_of(&host), "object");
    let missing = Val::global(&mut host, "no_such_name");
    assert_eq!(missing.type_of(&host), "undefined");
}

#[test]
fn console_log_records_arguments_in_order() {
    let mut host = Host::new();
    let console = Console::get(&mut host);
    let a = Val::from_i32(&mut host, 1);
    let b = Val::from_str(&mut host, "two");
    console.log(&mut host, &[a, b]);
    assert_eq!(host.log, vec![a.as_handle(), b.as_handle()]);
    console.log(&mut host, &[b]);
    assert_eq!(host.log, vec![a.as_handle(), b.as_handle(), b.as_handle()]);
}

#[test]
fn console_wraps_the_global_console() {
    let mut host = Host::new();
    let console = Console::get(&mut host);
    let via_global = Val::global(&mut host, "console");
    let wrapped = Val::from_handle(console.as_handle());
    assert!(wrapped.strictly_equals(&host, &via_global));
}
