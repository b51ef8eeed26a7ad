//! The laws the bridge keeps, stated over the same spec functions its
//! contracts use, so that each composes directly with the operations'
//! `ensures` clauses.

use vstd::prelude::*;
use crate::host::{spec_eq_values, spec_lookup, Host, HostValue, Prop};
use crate::text;
use crate::val::{
    spec_coerce_f64_bits, spec_coerce_i32, spec_coerce_string, spec_type_tag, Val,
};

verus! {

/// Law: an integer survives the host round trip. A value built by
/// [`Val::from_i32`] carries `Int(i)`, and [`Val::as_i32`] coerces `Int(i)`
/// back to exactly `i`, for every 32-bit integer.
pub proof fn lemma_i32_round_trip(i: i32)
    ensures
        spec_coerce_i32(HostValue::Int(i)) == i as int,
{
}

/// Law: a floating point bit pattern survives the host round trip,
/// bit for bit. A value built by [`Val::from_f64_bits`] carries
/// `Double(bits)`, and [`Val::as_f64_bits`] hands exactly those bits back.
pub proof fn lemma_f64_bits_round_trip(bits: u64)
    ensures
        spec_coerce_f64_bits(HostValue::Double(bits)) == bits,
{
}

/// Law: text survives the host round trip. A value built by
/// [`Val::from_str`] carries the text itself, and [`Val::as_string`]
/// coerces it back character for character.
pub proof fn lemma_text_round_trip(s: String)
    ensures
        spec_coerce_string(HostValue::Text(s)) == s@,
{
}

/// Law: a property written is the property read. Writing binds the name at
/// the front of the object's bindings, and a first-match lookup then yields
/// exactly the written handle, while every other name resolves as before.
/// Together with [`lemma_strict_eq_reflexive`], a `get` straight after a
/// `set` is strictly equal to the value that was set.
pub proof fn lemma_prop_write_then_read(props: Seq<Prop>, p: Prop)
    ensures
        spec_lookup(props.insert(0, p), p.key@) == Some(p.val),
        forall|other: Seq<char>|
            other != p.key@ ==> spec_lookup(props.insert(0, p), other) == spec_lookup(
                props,
                other,
            ),
{
    let grown = props.insert(0, p);
    assert(grown.drop_first() =~= props);
}

/// Law: a freshly constructed object owns no property at all; only a
/// write makes `has_own_property` answer true.
pub proof fn lemma_empty_object_owns_nothing(host: Host, h: u32, name: Seq<char>)
    requires
        host.value_of(h) matches HostValue::Object(oid) && host.objects@[oid as int].props@.len()
            == 0,
    ensures
        !host.own_prop(h, name),
{
}

/// Law: strict host equality is reflexive on every value a constructor
/// can produce — only a released slot equals nothing, itself included.
pub proof fn lemma_strict_eq_reflexive(v: HostValue)
    requires
        !(v is Freed),
    ensures
        spec_eq_values(v, v),
{
}

/// Law: strict equality of host integers is value-based, not
/// identity-based: two separately constructed integers are strictly equal
/// exactly when the integers themselves are.
pub proof fn lemma_int_eq_value_based(x: i32, y: i32)
    ensures
        spec_eq_values(HostValue::Int(x), HostValue::Int(y)) <==> x == y,
{
}

/// Law: the host's type tags follow the value's shape: integers tag as
/// numbers, objects as objects, `undefined` as undefined.
pub proof fn lemma_type_tags(i: i32, oid: usize)
    ensures
        spec_type_tag(HostValue::Int(i)) == "number"@,
        spec_type_tag(HostValue::Object(oid)) == "object"@,
        spec_type_tag(HostValue::Undefined) == "undefined"@,
{
}

/// Law: the host's decimal text for an integer parses back to the same
/// integer: formatting and coercion to an integer are inverse on every
/// 32-bit value.
pub proof fn lemma_decimal_round_trip(i: i32)
    ensures
        text::spec_text_i32(text::spec_i32_text(i as int)) == i as int,
{
    text::lemma_text_of_i32_parses(i as int);
}

} // verus!
