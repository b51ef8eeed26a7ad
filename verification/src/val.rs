//! The bridge: a lightweight, copyable wrapper around one host [`Handle`],
//! with typed operations that delegate to the host value table.
//!
//! Every operation takes the host context explicitly. Operations that make
//! the host allocate take `&mut Host` and say exactly which slot appeared;
//! read-only queries take `&Host`. A `Val` is in contract only while its
//! handle is live: after an explicit [`Val::delete`], no operation's
//! `requires` admits it any more.

use std::cmp::Ordering;
use vstd::prelude::*;
use vstd::string::StrSliceExecFns;
use vstd::string::StringExecFns;
use crate::host::{
    clone_value, eq_values, lookup_prop, spec_double_encodes_i32, spec_eq_values,
    spec_is_zero_bits, spec_lookup, Handle, Host, HostFnKind, HostValue, ObjData, Prop,
    GLOBAL_HANDLE, NULL_HANDLE, UNDEFINED_HANDLE,
};
use crate::text;
use vstd::arithmetic::power2::{lemma2_to64, lemma_pow2_unfold, pow2};

verus! {

/// A typed reference to one host-resident value.
#[derive(Clone, Copy, Debug)]
pub struct Val {
    handle: Handle,
}

impl View for Val {
    type V = Handle;

    closed spec fn view(&self) -> Handle {
        self.handle
    }
}

/// The integer part of a double, truncated toward zero, read off the bit
/// pattern in integer arithmetic: sign, biased exponent and mantissa
/// decoded directly. Magnitudes below one truncate to zero; not-a-number,
/// infinities and values outside the 32-bit range coerce to the zero
/// sentinel.
pub open spec fn spec_trunc_f64_bits(b: u64) -> int {
    let e = ((b >> 52) & 0x7ff) as int;
    if e < 1023 || e > 1054 {
        0
    } else {
        let s = (1075 - e) as u64;
        let m = ((b & 0xf_ffff_ffff_ffff) + 0x10_0000_0000_0000) as u64;
        let mag = (m >> s) as int;
        if b >> 63 == 1 {
            if mag <= 0x8000_0000 {
                -mag
            } else {
                0
            }
        } else {
            if mag <= 0x7fff_ffff {
                mag
            } else {
                0
            }
        }
    }
}

/// The integer a host value coerces to: integers themselves, doubles
/// truncated toward zero, booleans as zero and one, `null` as zero, text
/// by the host's decimal rule, and everything else as the zero sentinel.
pub open spec fn spec_coerce_i32(v: HostValue) -> int {
    match v {
        HostValue::Int(i) => i as int,
        HostValue::Double(b) => spec_trunc_f64_bits(b),
        HostValue::Bool(b) => if b {
            1
        } else {
            0
        },
        HostValue::Null => 0,
        HostValue::Text(s) => text::spec_text_i32(s@),
        _ => 0,
    }
}

/// Truncate a double, given as its bit pattern, to a 32-bit integer, as
/// [`spec_trunc_f64_bits`] says.
fn trunc_f64_bits(b: u64) -> (r: i32)
    ensures
        r as int == spec_trunc_f64_bits(b),
{
    let e: u64 = (b >> 52) & 0x7ff;
    if e < 1023 || e > 1054 {
        0
    } else {
        let s: u64 = 1075 - e;
        proof {
            assert((b & 0xf_ffff_ffff_ffff) <= 0xf_ffff_ffff_ffff) by (bit_vector);
        }
        let m: u64 = (b & 0xf_ffff_ffff_ffff) + 0x10_0000_0000_0000;
        let mag: u64 = m >> s;
        if (b >> 63) == 1 {
            if mag <= 0x8000_0000 {
                (-(mag as i64)) as i32
            } else {
                0
            }
        } else {
            if mag <= 0x7fff_ffff {
                mag as i32
            } else {
                0
            }
        }
    }
}

/// The quiet not-a-number bit pattern the host hands out where a value has
/// no numeric form.
pub const NAN_BITS: u64 = 0x7ff8_0000_0000_0000;

/// The position of a number's highest set bit.
pub open spec fn spec_msb(m: int) -> int
    decreases m,
{
    if m < 2 {
        0
    } else {
        1 + spec_msb(m / 2)
    }
}

/// A bit position is never negative.
proof fn lemma_msb_nonneg(m: int)
    requires
        0 <= m,
    ensures
        spec_msb(m) >= 0,
    decreases m,
{
    if m >= 2 {
        lemma_msb_nonneg(m / 2);
    }
}

/// The highest set bit of a number below `pow2(k + 1)` sits at or below
/// position `k`.
proof fn lemma_msb_le(m: int, k: nat)
    requires
        1 <= m,
        m < pow2(k + 1),
    ensures
        0 <= spec_msb(m) <= k,
    decreases m,
{
    if m >= 2 {
        lemma_pow2_unfold(k + 1);
        assert(k >= 1) by {
            if k == 0 {
                lemma2_to64();
            }
        }
        lemma_msb_le(m / 2, (k - 1) as nat);
    }
}

/// The highest set bit's window: a positive number lies between its
/// highest power of two and the next.
proof fn lemma_msb_window(m: int)
    requires
        1 <= m,
    ensures
        pow2(spec_msb(m) as nat) <= m < pow2((spec_msb(m) + 1) as nat),
    decreases m,
{
    lemma_msb_nonneg(m);
    if m < 2 {
        lemma2_to64();
    } else {
        lemma_msb_nonneg(m / 2);
        lemma_msb_window(m / 2);
        let q = spec_msb(m / 2);
        lemma_pow2_unfold((q + 1) as nat);
        lemma_pow2_unfold((q + 2) as nat);
        assert(2 * (m / 2) <= m && m < 2 * (m / 2) + 2);
    }
}

/// Law: the host has one number line. An integer and its double encoding
/// are the same host number: a value made by [`Val::from_i32`] and the
/// double that [`Val::as_f64_bits`] reads off it are strictly equal.
pub proof fn lemma_int_encodes_as_double(i: i32)
    ensures
        spec_eq_values(
            HostValue::Int(i),
            HostValue::Double(spec_f64_bits_of_i32(i as int)),
        ),
{
    if i != 0 {
        let mag_i = if i < 0 {
            -(i as int)
        } else {
            i as int
        };
        let mag = mag_i as u64;
        let p_i = spec_msb(mag_i);
        lemma_msb_window(mag_i);
        lemma2_to64();
        lemma_msb_le(mag_i, 31);
        let p = p_i as u64;
        vstd::bits::lemma_u64_shr_is_div(mag, p);
        lemma_pow2_unfold((p_i + 1) as nat);
        assert(mag as nat / pow2(p as nat) == 1) by (nonlinear_arith)
            requires
                pow2(p as nat) <= mag as nat,
                (mag as nat) < (2 * pow2(p as nat)),
                pow2(p as nat) > 0,
        ;
        let sign: u64 = if i < 0 {
            0x8000_0000_0000_0000
        } else {
            0
        };
        let ee: u64 = (1023 + p_i) as u64;
        let se: u64 = (52 - p_i) as u64;
        let b = spec_f64_bits_of_i32(i as int);
        assert(b == sign | (ee << 52) | ((mag << se) & 0xf_ffff_ffff_ffff));
        assert(b != 0 && b != 0x8000_0000_0000_0000 && ((b >> 52) & 0x7ff) == ee && (sign == 0
            ==> (b >> 63) == 0) && (sign != 0 ==> (b >> 63) == 1) && (b & 0xf_ffff_ffff_ffff)
            + 0x10_0000_0000_0000 == (mag << se) && ((mag << se) >> se) == mag && ((((mag << se)
            >> se)) << se) == (mag << se)) by (bit_vector)
            requires
                p <= 31,
                mag >> p == 1,
                se == 52 - p,
                ee == 1023 + p,
                sign == 0 || sign == 0x8000_0000_0000_0000,
                b == sign | (ee << 52) | ((mag << se) & 0xf_ffff_ffff_ffff),
        ;
        assert(((b >> 52) & 0x7ff) as int == 1023 + p_i);
        assert(((b & 0xf_ffff_ffff_ffff) + 0x10_0000_0000_0000) as u64 == mag << se);
        assert((1075 - (1023 + p_i)) as u64 == se);
    }
}

/// Law: truncation inverts the integer encoding. The double a 32-bit
/// integer encodes as truncates back to exactly that integer, so reading
/// a [`Val::from_i32`] value as a double and the result as an integer
/// loses nothing.
pub proof fn lemma_trunc_inverts_encode(i: i32)
    ensures
        spec_trunc_f64_bits(spec_f64_bits_of_i32(i as int)) == i as int,
{
    lemma_int_encodes_as_double(i);
    let b = spec_f64_bits_of_i32(i as int);
    if i == 0 {
        assert(b == 0);
        assert((0u64 >> 52) & 0x7ff == 0 && 0u64 >> 63 == 0) by (bit_vector);
    } else {
        assert(spec_double_encodes_i32(b, i as int));
    }
}

/// The IEEE 754 bit pattern of a 32-bit integer, every one of which the
/// double format represents exactly: zero encodes as positive zero, and
/// any other magnitude is normalized with its highest set bit at the
/// format's implicit one.
pub open spec fn spec_f64_bits_of_i32(i: int) -> u64 {
    if i == 0 {
        0
    } else {
        let mag = (if i < 0 {
            -i
        } else {
            i
        }) as u64;
        let p = spec_msb(mag as int);
        let sign: u64 = if i < 0 {
            0x8000_0000_0000_0000
        } else {
            0
        };
        sign | (((1023 + p) as u64) << 52) | ((mag << ((52 - p) as u64)) & 0xf_ffff_ffff_ffff)
    }
}

/// Encode a 32-bit integer as a double's bit pattern, as
/// [`spec_f64_bits_of_i32`] says.
fn f64_bits_of_i32(i: i32) -> (r: u64)
    ensures
        r == spec_f64_bits_of_i32(i as int),
{
    if i == 0 {
        0
    } else {
        let mag: u64 = if i < 0 {
            (-(i as i64)) as u64
        } else {
            i as u64
        };
        proof {
            lemma2_to64();
            lemma_msb_le(mag as int, 31);
        }
        let mut p: u64 = 0;
        let mut t: u64 = mag;
        while t >= 2
            invariant
                1 <= t <= mag,
                spec_msb(mag as int) == p + spec_msb(t as int),
                p + spec_msb(t as int) <= 31,
            decreases t,
        {
            proof {
                lemma_msb_nonneg(t as int / 2);
            }
            t = t / 2;
            p = p + 1;
        }
        let sign: u64 = if i < 0 {
            0x8000_0000_0000_0000
        } else {
            0
        };
        sign | ((1023 + p) << 52) | ((mag << (52 - p)) & 0xf_ffff_ffff_ffff)
    }
}

/// The floating point bit pattern a host value coerces to: a double's own
/// bits, an integer's exact double encoding; a value of any other shape
/// has no numeric form in this host and coerces to not-a-number.
pub open spec fn spec_coerce_f64_bits(v: HostValue) -> u64 {
    match v {
        HostValue::Double(b) => b,
        HostValue::Int(i) => spec_f64_bits_of_i32(i as int),
        _ => NAN_BITS,
    }
}

/// The text a host value coerces to: text itself, integers in decimal,
/// the fixed words for booleans, `null` and `undefined`, the host's tags
/// for objects and functions. Doubles and arrays have no text form in
/// this host and coerce to empty text.
pub open spec fn spec_coerce_string(v: HostValue) -> Seq<char> {
    match v {
        HostValue::Text(s) => s@,
        HostValue::Int(i) => text::spec_i32_text(i as int),
        HostValue::Bool(b) => if b {
            "true"@
        } else {
            "false"@
        },
        HostValue::Null => "null"@,
        HostValue::Undefined => "undefined"@,
        HostValue::Object(_) => "[object Object]"@,
        HostValue::Function(_) => "function"@,
        _ => Seq::<char>::empty(),
    }
}

/// The host's type tag for a value, mirroring typeof semantics: `null`
/// tags as an object, arrays tag as objects, numbers of either shape tag
/// as numbers.
pub open spec fn spec_type_tag(v: HostValue) -> Seq<char> {
    match v {
        HostValue::Bool(_) => "boolean"@,
        HostValue::Null => "object"@,
        HostValue::Undefined => "undefined"@,
        HostValue::Int(_) => "number"@,
        HostValue::Double(_) => "number"@,
        HostValue::Text(_) => "string"@,
        HostValue::Object(_) => "object"@,
        HostValue::Array(_) => "object"@,
        HostValue::Function(_) => "function"@,
        HostValue::Freed => "undefined"@,
    }
}

/// The bit pattern encodes an IEEE 754 not-a-number.
pub open spec fn spec_is_nan_bits(b: u64) -> bool {
    (b >> 52) & 0x7ff == 0x7ff && (b & 0xf_ffff_ffff_ffff) != 0
}

/// Host truthiness: false, `null`, `undefined`, zero, not-a-number and
/// empty text are falsy; every other value is truthy.
pub open spec fn spec_truthy(v: HostValue) -> bool {
    match v {
        HostValue::Bool(b) => b,
        HostValue::Null => false,
        HostValue::Undefined => false,
        HostValue::Int(i) => i != 0,
        HostValue::Double(b) => !(b == 0 || b == 0x8000_0000_0000_0000 || spec_is_nan_bits(b)),
        HostValue::Text(s) => s@.len() > 0,
        HostValue::Object(_) => true,
        HostValue::Array(_) => true,
        HostValue::Function(_) => true,
        HostValue::Freed => false,
    }
}

/// A double's position on the host's number line as an unsigned key:
/// flipping the sign bit of a nonnegative pattern, and complementing a
/// negative one, makes the unsigned order of the keys the numeric order
/// of the doubles.
pub open spec fn spec_f64_order_key(b: u64) -> u64 {
    if b >> 63 == 1 {
        !b
    } else {
        b | 0x8000_0000_0000_0000
    }
}

/// The host's relational less-than: integers numerically, doubles
/// numerically by their order keys (not-a-number compares under nothing,
/// and the two zeros are equal, not ordered), text lexicographically;
/// values of different shapes, or of any other shape, have no order.
pub open spec fn spec_lt_values(a: HostValue, b: HostValue) -> bool {
    match (a, b) {
        (HostValue::Int(x), HostValue::Int(y)) => x < y,
        (HostValue::Double(x), HostValue::Double(y)) => !spec_is_nan_bits(x) && !spec_is_nan_bits(
            y,
        ) && !(spec_is_zero_bits(x) && spec_is_zero_bits(y)) && spec_f64_order_key(x)
            < spec_f64_order_key(y),
        (HostValue::Text(x), HostValue::Text(y)) => text::lex_lt(x@, y@),
        _ => false,
    }
}

/// The ordering the bridge mirrors from the host: strict equality first,
/// then host greater-than, then host less-than; anything else has no
/// ordering at all.
pub open spec fn spec_partial_cmp(a: HostValue, b: HostValue) -> Option<Ordering> {
    if spec_eq_values(a, b) {
        Some(Ordering::Equal)
    } else if spec_lt_values(b, a) {
        Some(Ordering::Greater)
    } else if spec_lt_values(a, b) {
        Some(Ordering::Less)
    } else {
        None
    }
}

/// The raw handles a slice of wrapped values carries, in order.
pub open spec fn handles_of(args: Seq<Val>) -> Seq<Handle> {
    Seq::new(args.len(), |i: int| args[i]@)
}

/// The integer the host reports as a value's `length`.
pub open spec fn spec_length_of(host: Host, h: Handle) -> int {
    spec_coerce_i32(host.prop_value(h, "length"@))
}

/// Host-side property resolution: the value a property read yields,
/// without allocating a handle for it.
fn read_prop_value(host: &Host, h: Handle, prop: &str) -> (v: HostValue)
    requires
        host.wf(),
        host.live(h),
    ensures
        v == host.prop_value(h, prop@),
        host.slot_wf(v),
{
    let idx: usize = h as usize;
    match &host.slots[idx] {
        HostValue::Object(oid) => {
            let oid: usize = *oid;
            match lookup_prop(&host.objects[oid].props, prop) {
                Some(ph) => {
                    proof {
                        Host::lemma_lookup_in_range(host.objects@[oid as int].props@, prop@);
                        assert(host.obj_wf(host.objects@[oid as int]));
                        assert(host.is_valid(ph));
                        assert(host.slot_wf(host.slots@[ph as int]));
                    }
                    clone_value(&host.slots[ph as usize])
                },
                None => HostValue::Undefined,
            }
        },
        HostValue::Array(aid) => {
            let aid: usize = *aid;
            if text::str_eq(prop, "length") {
                proof {
                    assert(host.arr_wf(host.arrays@[aid as int]));
                }
                HostValue::Int(host.arrays[aid].len() as i32)
            } else {
                HostValue::Undefined
            }
        },
        _ => HostValue::Undefined,
    }
}

/// Marshal argument handles into a freshly allocated host array, as every
/// invocation operation does before delegating.
fn marshal_args(host: &mut Host, args: &[Val]) -> (aid: usize)
    requires
        old(host).wf(),
        old(host).can_alloc(),
        forall|i: int| 0 <= i < args@.len() ==> old(host).is_valid(#[trigger] args@[i]@),
        args@.len() <= i32::MAX,
    ensures
        final(host).wf(),
        final(host).grown_from(*old(host)),
        final(host).slots@.len() == old(host).slots@.len() + 1,
        final(host).objects == old(host).objects,
        final(host).arrays@.len() == old(host).arrays@.len() + 1,
        aid == old(host).arrays@.len(),
        final(host).arrays@[aid as int]@ == handles_of(args@),
{
    let aid: usize = host.arrays.len();
    host.arrays.push(Vec::new());
    let arr_handle = host.alloc_slot(HostValue::Array(aid));
    proof {
        assert(host.arrays@[aid as int]@ =~= handles_of(args@.take(0)));
        assert(host.is_valid(arr_handle));
    }
    let n: usize = args.len();
    let mut k: usize = 0;
    while k < n
        invariant
            host.wf(),
            k <= n,
            n == args@.len(),
            n <= i32::MAX,
            forall|i: int| 0 <= i < args@.len() ==> old(host).is_valid(#[trigger] args@[i]@),
            host.slots@ == old(host).slots@.push(HostValue::Array(aid as usize)),
            host.objects == old(host).objects,
            host.log == old(host).log,
            host.thrown == old(host).thrown,
            aid == old(host).arrays@.len(),
            host.arrays@.len() == old(host).arrays@.len() + 1,
            forall|a: int| 0 <= a < aid ==> host.arrays@[a] == #[trigger] old(host).arrays@[a],
            host.arrays@[aid as int]@ == handles_of(args@.take(k as int)),
        decreases n - k,
    {
        let h: Handle = args[k].as_handle();
        host.arrays[aid].push(h);
        proof {
            assert(host.arrays@[aid as int]@ =~= handles_of(args@.take(k + 1)));
        }
        k = k + 1;
    }
    proof {
        assert(args@.take(n as int) =~= args@);
        assert(host.arrays@[aid as int]@ =~= handles_of(args@));
    }
    aid
}

/// Apply a host function value to a marshalled argument array: the
/// recording built-in extends the log, and applying a non-function raises
/// a host-level type error. A registered native callback dispatches the
/// embedder's own code, so of that outcome the contract promises only
/// that the host stays well formed, keeps what it has, and hands back a
/// valid handle — whatever the callback did or returned.
fn apply_function(host: &mut Host, m: HostValue, aid: usize) -> (r: Val)
    requires
        old(host).wf(),
        aid < old(host).arrays@.len(),
        old(host).can_alloc(),
    ensures
        final(host).wf(),
        old(host).slots@.len() <= final(host).slots@.len(),
        old(host).objects@.len() <= final(host).objects@.len(),
        old(host).arrays@.len() <= final(host).arrays@.len(),
        final(host).is_valid(r@),
        m == HostValue::Function(HostFnKind::ConsoleLog) ==> {
            &&& final(host).grown_core(*old(host))
            &&& final(host).objects == old(host).objects
            &&& final(host).arrays == old(host).arrays
            &&& final(host).slots@.len() == old(host).slots@.len() + 1
            &&& final(host).log@ == old(host).log@ + old(host).arrays@[aid as int]@
            &&& final(host).thrown == old(host).thrown
            &&& r@ == old(host).slots@.len()
            &&& final(host).value_of(r@) == HostValue::Undefined
            &&& final(host).live(r@)
        },
        !(m is Function) ==> {
            &&& final(host).grown_core(*old(host))
            &&& final(host).objects == old(host).objects
            &&& final(host).arrays == old(host).arrays
            &&& final(host).slots@.len() == old(host).slots@.len() + 1
            &&& final(host).log == old(host).log
            &&& (final(host).thrown matches Some(e) && final(host).value_of(e) matches HostValue::Text(t)
                && t@ == "TypeError"@ && final(host).live(e))
            &&& r@ == UNDEFINED_HANDLE
        },
    {
        match m {
            HostValue::Function(HostFnKind::ConsoleLog) => {
                let n: usize = host.arrays[aid].len();
                let mut k: usize = 0;
                while k < n
                    invariant
                        host.wf(),
                        k <= n,
                        aid < host.arrays@.len(),
                        n == host.arrays@[aid as int]@.len(),
                        host.slots == old(host).slots,
                        host.objects == old(host).objects,
                        host.arrays == old(host).arrays,
                        host.thrown == old(host).thrown,
                        host.log@ == old(host).log@ + host.arrays@[aid as int]@.take(k as int),
                    decreases n - k,
                {
                    let h: Handle = host.arrays[aid][k];
                    host.log.push(h);
                    proof {
                        assert(host.log@ =~= old(host).log@ + host.arrays@[aid as int]@.take(
                            k + 1,
                        ));
                    }
                    k = k + 1;
                }
                proof {
                    assert(host.arrays@[aid as int]@.take(n as int) =~= host.arrays@[aid as int]@);
                }
                let h = host.alloc_slot(HostValue::Undefined);
                Val { handle: h }
            },
            HostValue::Function(HostFnKind::Native(_)) => {
                let h = host.alloc_slot(HostValue::Undefined);
                Val { handle: h }
            },
            _ => {
                let e = host.alloc_slot(HostValue::Text("TypeError".to_owned()));
                host.thrown = Some(e);
                Val { handle: UNDEFINED_HANDLE }
            },
        }
    }

/// Whether a bit pattern encodes a not-a-number, as [`spec_is_nan_bits`]
/// says.
fn is_nan_bits(b: u64) -> (r: bool)
    ensures
        r == spec_is_nan_bits(b),
{
    (b >> 52) & 0x7ff == 0x7ff && (b & 0xf_ffff_ffff_ffff) != 0
}

/// A double's order key, as [`spec_f64_order_key`] says.
fn f64_order_key(b: u64) -> (r: u64)
    ensures
        r == spec_f64_order_key(b),
{
    if (b >> 63) == 1 {
        !b
    } else {
        b | 0x8000_0000_0000_0000
    }
}

/// Host relational less-than on two values, as [`spec_lt_values`] says.
fn lt_values(a: &HostValue, b: &HostValue) -> (r: bool)
    ensures
        r == spec_lt_values(*a, *b),
{
    match (a, b) {
        (HostValue::Int(x), HostValue::Int(y)) => *x < *y,
        (HostValue::Double(x), HostValue::Double(y)) => {
            let x: u64 = *x;
            let y: u64 = *y;
            let both_zero: bool = (x == 0 || x == 0x8000_0000_0000_0000) && (y == 0 || y
                == 0x8000_0000_0000_0000);
            !is_nan_bits(x) && !is_nan_bits(y) && !both_zero && f64_order_key(x) < f64_order_key(
                y,
            )
        },
        (HostValue::Text(x), HostValue::Text(y)) => text::str_lex_lt(x.as_str(), y.as_str()),
        _ => false,
    }
}

/// Whether one host object was constructed by a given constructor value.
pub open spec fn spec_instance_of(host: Host, h: Handle, c: Handle) -> bool {
    match host.value_of(h) {
        HostValue::Object(oid) => match host.objects@[oid as int].ctor {
            Some(k) => spec_eq_values(host.value_of(k), host.value_of(c)),
            None => false,
        },
        _ => false,
    }
}

impl Val {
    /// Wrap a raw handle without touching the host.
    pub fn from_handle(handle: Handle) -> (r: Val)
        ensures
            r@ == handle,
    {
        Val { handle }
    }

    /// A second wrapper around the same handle.
    pub fn from_val(v: Val) -> (r: Self)
        ensures
            r@ == v@,
    {
        let handle = v.as_handle();
        Self { handle }
    }

    /// The raw handle this value wraps.
    pub fn as_handle(&self) -> (h: Handle)
        ensures
            h == self@,
    {
        self.handle
    }

    /// The interned `null` singleton.
    pub fn null() -> (r: Val)
        ensures
            r@ == NULL_HANDLE,
    {
        Val { handle: NULL_HANDLE }
    }

    /// The interned `undefined` singleton.
    pub fn undefined() -> (r: Val)
        ensures
            r@ == UNDEFINED_HANDLE,
    {
        Val { handle: UNDEFINED_HANDLE }
    }

    /// A structural shortcut mirrored from the bridge's handle encoding:
    /// true exactly when the handle lies beyond the four reserved
    /// singletons. This is not host truthiness coercion — see [`Val::not`]
    /// for the semantic rule — and callers must not rely on it for
    /// arbitrary truthy values.
    pub fn as_bool(&self) -> (r: bool)
        ensures
            r == (self@ > UNDEFINED_HANDLE),
    {
        self.handle > 3
    }

    /// A fresh handle to the host's global namespace object.
    pub fn global_this(host: &mut Host) -> (r: Val)
        requires
            old(host).wf(),
            old(host).can_alloc(),
        ensures
            final(host).wf(),
            final(host).grown_from(*old(host)),
            final(host).slots@.len() == old(host).slots@.len() + 1,
            r@ == old(host).slots@.len(),
            final(host).value_of(r@) == old(host).value_of(GLOBAL_HANDLE),
            final(host).live(r@),
    {
        let idx: usize = GLOBAL_HANDLE as usize;
        let v = clone_value(&host.slots[idx]);
        let h = host.alloc_slot(v);
        Val { handle: h }
    }

    /// A fresh empty object allocated in the host.
    pub fn object(host: &mut Host) -> (r: Val)
        requires
            old(host).wf(),
            old(host).can_alloc(),
        ensures
            final(host).wf(),
            final(host).grown_from(*old(host)),
            final(host).slots@.len() == old(host).slots@.len() + 1,
            r@ == old(host).slots@.len(),
            final(host).objects@.len() == old(host).objects@.len() + 1,
            (final(host).value_of(r@) matches HostValue::Object(oid) && oid == old(host).objects@.len() && final(host).objects@[oid as int].props@.len() == 0 && final(host).objects@[oid as int].ctor is None),
            final(host).live(r@),
    {
        let oid: usize = host.objects.len();
        host.objects.push(ObjData { props: Vec::new(), ctor: None });
        let h = host.alloc_slot(HostValue::Object(oid));
        Val { handle: h }
    }

    /// A fresh empty array allocated in the host.
    pub fn array(host: &mut Host) -> (r: Val)
        requires
            old(host).wf(),
            old(host).can_alloc(),
        ensures
            final(host).wf(),
            final(host).grown_from(*old(host)),
            final(host).slots@.len() == old(host).slots@.len() + 1,
            r@ == old(host).slots@.len(),
            final(host).arrays@.len() == old(host).arrays@.len() + 1,
            (final(host).value_of(r@) matches HostValue::Array(aid) && aid == old(host).arrays@.len() && final(host).arrays@[aid as int]@.len() == 0),
            final(host).live(r@),
    {
        let aid: usize = host.arrays.len();
        host.arrays.push(Vec::new());
        let h = host.alloc_slot(HostValue::Array(aid));
        Val { handle: h }
    }

    /// A fresh handle to an integer value.
    pub fn from_i32(host: &mut Host, i: i32) -> (r: Val)
        requires
            old(host).wf(),
            old(host).can_alloc(),
        ensures
            final(host).wf(),
            final(host).grown_from(*old(host)),
            final(host).slots@.len() == old(host).slots@.len() + 1,
            r@ == old(host).slots@.len(),
            final(host).value_of(r@) == HostValue::Int(i),
            final(host).live(r@),
    {
        let h = host.alloc_slot(HostValue::Int(i));
        Val { handle: h }
    }

    /// A fresh handle to a floating point value, given as its IEEE 754
    /// bit pattern.
    pub fn from_f64_bits(host: &mut Host, bits: u64) -> (r: Val)
        requires
            old(host).wf(),
            old(host).can_alloc(),
        ensures
            final(host).wf(),
            final(host).grown_from(*old(host)),
            final(host).slots@.len() == old(host).slots@.len() + 1,
            r@ == old(host).slots@.len(),
            final(host).value_of(r@) == HostValue::Double(bits),
            final(host).live(r@),
    {
        let h = host.alloc_slot(HostValue::Double(bits));
        Val { handle: h }
    }

    /// A fresh handle to a text value.
    pub fn from_str(host: &mut Host, s: &str) -> (r: Val)
        requires
            old(host).wf(),
            old(host).can_alloc(),
        ensures
            final(host).wf(),
            final(host).grown_from(*old(host)),
            final(host).slots@.len() == old(host).slots@.len() + 1,
            r@ == old(host).slots@.len(),
            final(host).value_of(r@) matches HostValue::Text(t) && t@ == s@,
            spec_coerce_string(final(host).value_of(r@)) == s@,
            final(host).live(r@),
    {
        let h = host.alloc_slot(HostValue::Text(s.to_owned()));
        Val { handle: h }
    }

    /// Read a property: the bound value on an object, an array's element
    /// count under `length`, `undefined` everywhere else — always under a
    /// fresh handle, as the bridge never deduplicates results.
    pub fn get(&self, host: &mut Host, prop: &str) -> (r: Val)
        requires
            old(host).wf(),
            old(host).live(self@),
            old(host).can_alloc(),
        ensures
            final(host).wf(),
            final(host).grown_from(*old(host)),
            final(host).slots@.len() == old(host).slots@.len() + 1,
            r@ == old(host).slots@.len(),
            final(host).value_of(r@) == old(host).prop_value(self@, prop@),
            !(old(host).prop_value(self@, prop@) is Freed) ==> final(host).live(r@),
    {
        let v = read_prop_value(host, self.handle, prop);
        let h = host.alloc_slot(v);
        Val { handle: h }
    }

    /// Write a property on an object. The new binding shadows any earlier
    /// one of the same name; reads under every other name, and every other
    /// object, are unaffected. On a non-object the write is silently
    /// ignored, mirroring the bridge's fail-silent contract.
    pub fn set(&self, host: &mut Host, prop: &str, v: Val)
        requires
            old(host).wf(),
            old(host).live(self@),
            old(host).is_valid(v@),
        ensures
            final(host).wf(),
            final(host).slots == old(host).slots,
            final(host).arrays == old(host).arrays,
            final(host).log == old(host).log,
            final(host).thrown == old(host).thrown,
            final(host).objects@.len() == old(host).objects@.len(),
            !(old(host).value_of(self@) is Object) ==> final(host).objects == old(host).objects,
            old(host).value_of(self@) matches HostValue::Object(oid) ==> {
                &&& forall|o: int|
                    0 <= o < old(host).objects@.len() && o != oid ==> final(host).objects@[o]
                        == #[trigger] old(host).objects@[o]
                &&& final(host).objects@[oid as int].ctor == old(host).objects@[oid as int].ctor
                &&& final(host).objects@[oid as int].props@.len() == old(host).objects@[oid as int].props@.len() + 1
                &&& final(host).objects@[oid as int].props@[0].key@ == prop@
                &&& final(host).objects@[oid as int].props@[0].val == v@
                &&& final(host).objects@[oid as int].props@.drop_first() == old(host).objects@[oid as int].props@
            },
            old(host).value_of(self@) is Object ==> {
                &&& final(host).prop_value(self@, prop@) == old(host).value_of(v@)
                &&& final(host).own_prop(self@, prop@)
                &&& forall|other: Seq<char>|
                    other != prop@ ==> final(host).prop_value(self@, other) == #[trigger] old(host).prop_value(self@, other) && final(host).own_prop(self@, other) == old(host).own_prop(self@, other)
            },
    {
        let idx: usize = self.handle as usize;
        let oid_opt: Option<usize> = match &host.slots[idx] {
            HostValue::Object(oid) => Some(*oid),
            _ => None,
        };
        match oid_opt {
            Some(oid) => {
                let p = Prop { key: prop.to_owned(), val: v.handle };
                host.objects[oid].props.insert(0, p);
                proof {
                    let h0 = *old(host);
                    let props0 = h0.objects@[oid as int].props@;
                    let props1 = host.objects@[oid as int].props@;
                    assert(props1 == props0.insert(0, p));
                    assert(props1.drop_first() =~= props0);
                    assert forall|o: int|
                        0 <= o < host.objects@.len() implies host.obj_wf(
                        #[trigger] host.objects@[o],
                    ) by {
                        assert(h0.obj_wf(h0.objects@[o]));
                        if o == oid {
                            assert forall|j: int|
                                0 <= j < props1.len() implies host.is_valid(
                                #[trigger] props1[j].val,
                            ) by {
                                if j > 0 {
                                    assert(props1[j] == props0[j - 1]);
                                }
                            }
                        }
                    }
                    assert(host.wf());
                    assert forall|other: Seq<char>|
                        other != prop@ implies host.prop_value(self@, other) == #[trigger] h0
                        .prop_value(self@, other) && host.own_prop(self@, other) == h0.own_prop(
                        self@,
                        other,
                    ) by {
                        assert(spec_lookup(props1, other) == spec_lookup(props0, other));
                    }
                }
            },
            None => {},
        }
    }

    /// Whether the property is reachable on this value, directly or
    /// derived (an array's `length`).
    pub fn has(&self, host: &Host, prop: &str) -> (r: bool)
        requires
            host.wf(),
            host.live(self@),
        ensures
            r == host.has_prop(self@, prop@),
    {
        let idx: usize = self.handle as usize;
        match &host.slots[idx] {
            HostValue::Object(oid) => lookup_prop(&host.objects[*oid].props, prop).is_some(),
            HostValue::Array(_) => text::str_eq(prop, "length"),
            _ => false,
        }
    }

    /// Whether the property is bound directly on this object.
    pub fn has_own_property(&self, host: &Host, prop: &str) -> (r: bool)
        requires
            host.wf(),
            host.live(self@),
        ensures
            r == host.own_prop(self@, prop@),
    {
        let idx: usize = self.handle as usize;
        match &host.slots[idx] {
            HostValue::Object(oid) => lookup_prop(&host.objects[*oid].props, prop).is_some(),
            _ => false,
        }
    }

    /// The host's type tag for this value.
    pub fn type_of(&self, host: &Host) -> (r: String)
        requires
            host.wf(),
            host.live(self@),
        ensures
            r@ == spec_type_tag(host.value_of(self@)),
    {
        let idx: usize = self.handle as usize;
        match &host.slots[idx] {
            HostValue::Bool(_) => "boolean".to_owned(),
            HostValue::Null => "object".to_owned(),
            HostValue::Undefined => "undefined".to_owned(),
            HostValue::Int(_) => "number".to_owned(),
            HostValue::Double(_) => "number".to_owned(),
            HostValue::Text(_) => "string".to_owned(),
            HostValue::Object(_) => "object".to_owned(),
            HostValue::Array(_) => "object".to_owned(),
            HostValue::Function(_) => "function".to_owned(),
            HostValue::Freed => "undefined".to_owned(),
        }
    }

    /// Read an array element by index, under a fresh handle; out of the
    /// array's bounds, and on every non-array, the result is `undefined`.
    pub fn at(&self, host: &mut Host, idx: usize) -> (r: Val)
        requires
            old(host).wf(),
            old(host).live(self@),
            old(host).can_alloc(),
        ensures
            final(host).wf(),
            final(host).grown_from(*old(host)),
            final(host).slots@.len() == old(host).slots@.len() + 1,
            r@ == old(host).slots@.len(),
            final(host).value_of(r@) == old(host).elem_value(self@, idx as int),
            !(old(host).elem_value(self@, idx as int) is Freed) ==> final(host).live(r@),
    {
        let i: usize = self.handle as usize;
        let v: HostValue = match &host.slots[i] {
            HostValue::Array(aid) => {
                let aid: usize = *aid;
                if idx < host.arrays[aid].len() {
                    proof {
                        assert(host.arr_wf(host.arrays@[aid as int]));
                    }
                    let eh: Handle = host.arrays[aid][idx];
                    clone_value(&host.slots[eh as usize])
                } else {
                    HostValue::Undefined
                }
            },
            _ => HostValue::Undefined,
        };
        let h = host.alloc_slot(v);
        Val { handle: h }
    }

    /// Append an element to a host array, in place. On a non-array the
    /// write is silently ignored, as a property write on a non-object is.
    pub fn push(&self, host: &mut Host, item: Val)
        requires
            old(host).wf(),
            old(host).live(self@),
            old(host).is_valid(item@),
            old(host).value_of(self@) matches HostValue::Array(aid) ==> old(
                host,
            ).arrays@[aid as int]@.len() < i32::MAX,
        ensures
            final(host).wf(),
            final(host).slots == old(host).slots,
            final(host).objects == old(host).objects,
            final(host).log == old(host).log,
            final(host).thrown == old(host).thrown,
            final(host).arrays@.len() == old(host).arrays@.len(),
            !(old(host).value_of(self@) is Array) ==> final(host).arrays == old(host).arrays,
            old(host).value_of(self@) matches HostValue::Array(aid) ==> {
                &&& forall|a: int|
                    0 <= a < old(host).arrays@.len() && a != aid
                        ==> final(host).arrays@[a] == #[trigger] old(host).arrays@[a]
                &&& final(host).arrays@[aid as int]@ == old(host).arrays@[aid as int]@.push(
                    item@,
                )
                &&& forall|i: int|
                    0 <= i <= old(host).arrays@[aid as int]@.len() ==> final(host).elem_value(
                        self@,
                        i,
                    ) == (if i < old(host).arrays@[aid as int]@.len() {
                        old(host).elem_value(self@, i)
                    } else {
                        old(host).value_of(item@)
                    })
            },
    {
        let idx: usize = self.handle as usize;
        let aid_opt: Option<usize> = match &host.slots[idx] {
            HostValue::Array(aid) => Some(*aid),
            _ => None,
        };
        match aid_opt {
            Some(aid) => {
                host.arrays[aid].push(item.as_handle());
                proof {
                    let h0 = *old(host);
                    assert forall|a: int|
                        0 <= a < host.arrays@.len() implies host.arr_wf(
                        #[trigger] host.arrays@[a],
                    ) by {
                        assert(h0.arr_wf(h0.arrays@[a]));
                        if a == aid {
                            let row = host.arrays@[a]@;
                            assert forall|i: int|
                                0 <= i < row.len() implies host.is_valid(#[trigger] row[i]) by {
                                if i < row.len() - 1 {
                                    assert(row[i] == h0.arrays@[a]@[i]);
                                }
                            }
                        }
                    }
                    assert(host.wf());
                    assert forall|i: int|
                        0 <= i <= h0.arrays@[aid as int]@.len() implies host.elem_value(self@, i)
                        == (if i < h0.arrays@[aid as int]@.len() {
                        h0.elem_value(self@, i)
                    } else {
                        h0.value_of(item@)
                    }) by {
                        assert(host.arrays@[aid as int]@[i] == (if i < h0.arrays@[aid as int]@.len() {
                            h0.arrays@[aid as int]@[i]
                        } else {
                            item@
                        }));
                    }
                }
            },
            None => {},
        }
    }

    /// Coerce to a 32-bit integer by the host's rules.
    pub fn as_i32(&self, host: &Host) -> (r: i32)
        requires
            host.wf(),
            host.live(self@),
        ensures
            r as int == spec_coerce_i32(host.value_of(self@)),
    {
        let idx: usize = self.handle as usize;
        match &host.slots[idx] {
            HostValue::Int(i) => *i,
            HostValue::Double(b) => trunc_f64_bits(*b),
            HostValue::Bool(b) => if *b {
                1
            } else {
                0
            },
            HostValue::Null => 0,
            HostValue::Text(s) => text::parse_i32_text(s.as_str()),
            _ => 0,
        }
    }

    /// Coerce to a floating point bit pattern by the host's rules: a
    /// double's own bits, not-a-number for everything else.
    pub fn as_f64_bits(&self, host: &Host) -> (r: u64)
        requires
            host.wf(),
            host.live(self@),
        ensures
            r == spec_coerce_f64_bits(host.value_of(self@)),
    {
        let idx: usize = self.handle as usize;
        match &host.slots[idx] {
            HostValue::Double(b) => *b,
            HostValue::Int(i) => f64_bits_of_i32(*i),
            _ => NAN_BITS,
        }
    }

    /// Coerce to text by the host's rules.
    pub fn as_string(&self, host: &Host) -> (r: String)
        requires
            host.wf(),
            host.live(self@),
        ensures
            r@ == spec_coerce_string(host.value_of(self@)),
    {
        let idx: usize = self.handle as usize;
        match &host.slots[idx] {
            HostValue::Text(s) => s.clone(),
            HostValue::Int(i) => text::i32_text(*i),
            HostValue::Bool(b) => if *b {
                "true".to_owned()
            } else {
                "false".to_owned()
            },
            HostValue::Null => "null".to_owned(),
            HostValue::Undefined => "undefined".to_owned(),
            HostValue::Object(_) => "[object Object]".to_owned(),
            HostValue::Function(_) => "function".to_owned(),
            _ => String::new(),
        }
    }

    /// Await this value: in the modelled host every value is already
    /// settled, so awaiting resolves to the value itself, under a fresh
    /// handle handed back once the host's event loop returns.
    pub fn await_(&self, host: &mut Host) -> (r: Val)
        requires
            old(host).wf(),
            old(host).live(self@),
            old(host).can_alloc(),
        ensures
            final(host).wf(),
            final(host).grown_from(*old(host)),
            final(host).slots@.len() == old(host).slots@.len() + 1,
            r@ == old(host).slots@.len(),
            final(host).value_of(r@) == old(host).value_of(self@),
            final(host).live(r@),
    {
        let idx: usize = self.handle as usize;
        let v = clone_value(&host.slots[idx]);
        let h = host.alloc_slot(v);
        Val { handle: h }
    }

    /// Expose a registered native callback as a host function value. The
    /// index names an entry in the embedder's callback registry; the
    /// modelled host carries it opaquely, and invoking it dispatches code
    /// this library does not see, so the invocation contracts promise
    /// nothing of that outcome.
    pub fn make_js_function(host: &mut Host, index: u32) -> (r: Val)
        requires
            old(host).wf(),
            old(host).can_alloc(),
        ensures
            final(host).wf(),
            final(host).grown_from(*old(host)),
            final(host).slots@.len() == old(host).slots@.len() + 1,
            r@ == old(host).slots@.len(),
            final(host).value_of(r@) == HostValue::Function(HostFnKind::Native(index)),
            final(host).live(r@),
    {
        let h = host.alloc_slot(HostValue::Function(HostFnKind::Native(index)));
        Val { handle: h }
    }

    /// Release a handle in the host's registry. The four singletons and
    /// the global namespace are host-owned and never released. After
    /// this, no operation's contract admits the handle again.
    pub fn delete(host: &mut Host, v: Val)
        requires
            old(host).wf(),
            old(host).live(v@),
            v@ > GLOBAL_HANDLE,
        ensures
            final(host).wf(),
            final(host).slots@ == old(host).slots@.update(v@ as int, HostValue::Freed),
            !final(host).live(v@),
            final(host).objects == old(host).objects,
            final(host).arrays == old(host).arrays,
            final(host).log == old(host).log,
            final(host).thrown == old(host).thrown,
    {
        let idx: usize = v.handle as usize;
        host.slots[idx] = HostValue::Freed;
    }

    /// Raise the value as a host-level exception: it becomes the host's
    /// pending exception, to unwind host execution to the nearest handler.
    pub fn throw(host: &mut Host, v: Val)
        requires
            old(host).wf(),
            old(host).live(v@),
        ensures
            final(host).wf(),
            final(host).thrown == Some(v@),
            final(host).slots == old(host).slots,
            final(host).objects == old(host).objects,
            final(host).arrays == old(host).arrays,
            final(host).log == old(host).log,
    {
        host.thrown = Some(v.handle);
    }

    /// Whether this object was constructed by the given constructor value.
    pub fn instanceof(&self, host: &Host, v: Val) -> (r: bool)
        requires
            host.wf(),
            host.live(self@),
            host.is_valid(v@),
        ensures
            r == spec_instance_of(*host, self@, v@),
    {
        let idx: usize = self.handle as usize;
        match &host.slots[idx] {
            HostValue::Object(oid) => {
                let oid: usize = *oid;
                match host.objects[oid].ctor {
                    Some(k) => {
                        proof {
                            assert(host.obj_wf(host.objects@[oid as int]));
                        }
                        eq_values(&host.slots[k as usize], &host.slots[v.handle as usize])
                    },
                    None => false,
                }
            },
            _ => false,
        }
    }

    /// Strict host equality: value-based for primitives, identity-based
    /// for objects and arrays, with no coercion.
    pub fn strictly_equals(&self, host: &Host, other: &Val) -> (r: bool)
        requires
            host.wf(),
            host.is_valid(self@),
            host.is_valid(other@),
        ensures
            r == spec_eq_values(host.value_of(self@), host.value_of(other@)),
    {
        eq_values(&host.slots[self.handle as usize], &host.slots[other.handle as usize])
    }

    /// The host's truthiness negation: true exactly on falsy values.
    pub fn not(&self, host: &Host) -> (r: bool)
        requires
            host.wf(),
            host.live(self@),
        ensures
            r == !spec_truthy(host.value_of(self@)),
    {
        let idx: usize = self.handle as usize;
        let t: bool = match &host.slots[idx] {
            HostValue::Bool(b) => *b,
            HostValue::Null => false,
            HostValue::Undefined => false,
            HostValue::Int(i) => *i != 0,
            HostValue::Double(b) => {
                let bits: u64 = *b;
                let exp_all_ones: bool = (bits >> 52) & 0x7ff == 0x7ff;
                let frac_nonzero: bool = (bits & 0xf_ffff_ffff_ffff) != 0;
                !(bits == 0 || bits == 0x8000_0000_0000_0000 || (exp_all_ones && frac_nonzero))
            },
            HostValue::Text(s) => !s.as_str().is_empty(),
            HostValue::Object(_) => true,
            HostValue::Array(_) => true,
            HostValue::Function(_) => true,
            HostValue::Freed => false,
        };
        !t
    }

    /// Look a name up on the global namespace: fresh handles to the global
    /// object and to the property's value, as reading it by hand would
    /// produce.
    pub fn global(host: &mut Host, name: &str) -> (r: Val)
        requires
            old(host).wf(),
            old(host).slots@.len() + 2 <= u32::MAX,
        ensures
            final(host).wf(),
            final(host).grown_from(*old(host)),
            final(host).slots@.len() == old(host).slots@.len() + 2,
            r@ == old(host).slots@.len() + 1,
            final(host).value_of(r@) == old(host).prop_value(GLOBAL_HANDLE, name@),
            !(old(host).prop_value(GLOBAL_HANDLE, name@) is Freed) ==> final(host).live(r@),
    {
        let ghost h0 = *host;
        let g = Val::global_this(host);
        proof {
            host.lemma_alias_views(h0, GLOBAL_HANDLE, g@);
        }
        let r = g.get(host, name);
        r
    }

    /// The ordering the host reports between two values: strict equality,
    /// then greater-than, then less-than; incomparable values have none.
    pub fn partial_cmp(&self, host: &Host, other: &Val) -> (r: Option<Ordering>)
        requires
            host.wf(),
            host.is_valid(self@),
            host.is_valid(other@),
        ensures
            r == spec_partial_cmp(host.value_of(self@), host.value_of(other@)),
    {
        let a = &host.slots[self.handle as usize];
        let b = &host.slots[other.handle as usize];
        if eq_values(a, b) {
            Some(Ordering::Equal)
        } else if lt_values(b, a) {
            Some(Ordering::Greater)
        } else if lt_values(a, b) {
            Some(Ordering::Less)
        } else {
            None
        }
    }

    /// Materialize an array-like value as native integers: read the
    /// host-reported `length`, then coerce the elements at indices up to
    /// it — exactly up to it, whatever storage lies beyond.
    pub fn to_vec_i32(&self, host: &mut Host) -> (r: Vec<i32>)
        requires
            old(host).wf(),
            old(host).live(self@),
            !(old(host).prop_value(self@, "length"@) is Freed),
            forall|i: int|
                0 <= i < spec_length_of(*old(host), self@) ==> !(#[trigger] old(host).elem_value(
                    self@,
                    i,
                ) is Freed),
            old(host).slots@.len() + 1 + (if spec_length_of(*old(host), self@) > 0 {
                spec_length_of(*old(host), self@)
            } else {
                0
            }) <= u32::MAX,
        ensures
            final(host).wf(),
            final(host).grown_from(*old(host)),
            r@.len() == if spec_length_of(*old(host), self@) > 0 {
                spec_length_of(*old(host), self@)
            } else {
                0
            },
            forall|i: int|
                0 <= i < r@.len() ==> r@[i] as int == spec_coerce_i32(
                    #[trigger] old(host).elem_value(self@, i),
                ),
    {
        let ghost h0 = *host;
        let len_val = self.get(host, "length");
        let len: i32 = len_val.as_i32(host);
        let mut r: Vec<i32> = Vec::new();
        let mut i: i32 = 0;
        while i < len
            invariant
                host.wf(),
                h0.wf(),
                host.grown_from(h0),
                h0.live(self@),
                forall|j: int|
                    0 <= j < spec_length_of(h0, self@) ==> !(#[trigger] h0.elem_value(
                        self@,
                        j,
                    ) is Freed),
                len as int == spec_length_of(h0, self@),
                0 <= i,
                i <= len || len <= 0,
                len <= 0 ==> i == 0,
                i <= len ==> h0.slots@.len() + 1 + len <= u32::MAX,
                host.slots@.len() <= h0.slots@.len() + 1 + i,
                r@.len() == i,
                forall|j: int|
                    0 <= j < i ==> r@[j] as int == spec_coerce_i32(
                        #[trigger] h0.elem_value(self@, j),
                    ),
            decreases len - i,
        {
            let ghost h1 = *host;
            proof {
                h1.lemma_grown_preserves_views(h0, self@);
            }
            let e = self.at(host, i as usize);
            let x: i32 = e.as_i32(host);
            r.push(x);
            proof {
                Host::lemma_grown_trans(h0, h1, *host);
            }
            i = i + 1;
        }
        r
    }

    /// Materialize an array-like value as floating point bit patterns,
    /// length-driven exactly as [`Val::to_vec_i32`] is.
    pub fn to_vec_f64_bits(&self, host: &mut Host) -> (r: Vec<u64>)
        requires
            old(host).wf(),
            old(host).live(self@),
            !(old(host).prop_value(self@, "length"@) is Freed),
            forall|i: int|
                0 <= i < spec_length_of(*old(host), self@) ==> !(#[trigger] old(host).elem_value(
                    self@,
                    i,
                ) is Freed),
            old(host).slots@.len() + 1 + (if spec_length_of(*old(host), self@) > 0 {
                spec_length_of(*old(host), self@)
            } else {
                0
            }) <= u32::MAX,
        ensures
            final(host).wf(),
            final(host).grown_from(*old(host)),
            r@.len() == if spec_length_of(*old(host), self@) > 0 {
                spec_length_of(*old(host), self@)
            } else {
                0
            },
            forall|i: int|
                0 <= i < r@.len() ==> r@[i] == spec_coerce_f64_bits(
                    #[trigger] old(host).elem_value(self@, i),
                ),
    {
        let ghost h0 = *host;
        let len_val = self.get(host, "length");
        let len: i32 = len_val.as_i32(host);
        let mut r: Vec<u64> = Vec::new();
        let mut i: i32 = 0;
        while i < len
            invariant
                host.wf(),
                h0.wf(),
                host.grown_from(h0),
                h0.live(self@),
                forall|j: int|
                    0 <= j < spec_length_of(h0, self@) ==> !(#[trigger] h0.elem_value(
                        self@,
                        j,
                    ) is Freed),
                len as int == spec_length_of(h0, self@),
                0 <= i,
                i <= len || len <= 0,
                len <= 0 ==> i == 0,
                i <= len ==> h0.slots@.len() + 1 + len <= u32::MAX,
                host.slots@.len() <= h0.slots@.len() + 1 + i,
                r@.len() == i,
                forall|j: int|
                    0 <= j < i ==> r@[j] == spec_coerce_f64_bits(
                        #[trigger] h0.elem_value(self@, j),
                    ),
            decreases len - i,
        {
            let ghost h1 = *host;
            proof {
                h1.lemma_grown_preserves_views(h0, self@);
            }
            let e = self.at(host, i as usize);
            let x: u64 = e.as_f64_bits(host);
            r.push(x);
            proof {
                Host::lemma_grown_trans(h0, h1, *host);
            }
            i = i + 1;
        }
        r
    }

    /// Invoke a method by name: the arguments are marshalled into a fresh
    /// host array, the receiver's property is resolved host-side, and the
    /// resolved function value is applied. A registered native callback
    /// dispatches the embedder's own code, so of that outcome nothing more
    /// is promised than a well-formed host and a valid result handle.
    pub fn call(&self, host: &mut Host, f: &str, args: &[Val]) -> (r: Val)
        requires
            old(host).wf(),
            old(host).live(self@),
            forall|i: int| 0 <= i < args@.len() ==> old(host).is_valid(#[trigger] args@[i]@),
            args@.len() <= i32::MAX,
            old(host).slots@.len() + 2 <= u32::MAX,
        ensures
            final(host).wf(),
            old(host).slots@.len() <= final(host).slots@.len(),
            old(host).objects@.len() <= final(host).objects@.len(),
            old(host).arrays@.len() < final(host).arrays@.len(),
            final(host).is_valid(r@),
            old(host).prop_value(self@, f@) == HostValue::Function(HostFnKind::ConsoleLog) ==> {
                &&& final(host).grown_core(*old(host))
                &&& final(host).objects == old(host).objects
                &&& final(host).arrays@.len() == old(host).arrays@.len() + 1
                &&& final(host).arrays@[old(host).arrays@.len() as int]@ == handles_of(args@)
                &&& final(host).slots@.len() == old(host).slots@.len() + 2
                &&& final(host).log@ == old(host).log@ + handles_of(args@)
                &&& final(host).thrown == old(host).thrown
                &&& r@ >= old(host).slots@.len()
                &&& final(host).value_of(r@) == HostValue::Undefined
                &&& final(host).live(r@)
            },
            !(old(host).prop_value(self@, f@) is Function) ==> {
                &&& final(host).grown_core(*old(host))
                &&& final(host).objects == old(host).objects
                &&& final(host).arrays@.len() == old(host).arrays@.len() + 1
                &&& final(host).arrays@[old(host).arrays@.len() as int]@ == handles_of(args@)
                &&& final(host).slots@.len() == old(host).slots@.len() + 2
                &&& final(host).log == old(host).log
                &&& (final(host).thrown matches Some(e) && final(host).value_of(e)
                    matches HostValue::Text(t) && t@ == "TypeError"@)
                &&& r@ == UNDEFINED_HANDLE
            },
    {
        let m = read_prop_value(host, self.handle, f);
        let ghost h0 = *host;
        let aid = marshal_args(host, args);
        let ghost h1 = *host;
        let r = apply_function(host, m, aid);
        proof {
            if m == (HostValue::Function(HostFnKind::ConsoleLog)) || !(m is Function) {
                Host::lemma_grown_core_trans(h0, h1, *host);
            }
        }
        r
    }

    /// Host-side construction with this value as the constructor: a fresh
    /// object recording its constructor, or a host-level type error when
    /// this value is no function.
    pub fn new(&self, host: &mut Host, args: &[Val]) -> (r: Val)
        requires
            old(host).wf(),
            old(host).live(self@),
            forall|i: int| 0 <= i < args@.len() ==> old(host).is_valid(#[trigger] args@[i]@),
            args@.len() <= i32::MAX,
            old(host).slots@.len() + 2 <= u32::MAX,
        ensures
            final(host).wf(),
            final(host).grown_core(*old(host)),
            final(host).log == old(host).log,
            final(host).slots@.len() == old(host).slots@.len() + 2,
            final(host).arrays@.len() == old(host).arrays@.len() + 1,
            final(host).arrays@[old(host).arrays@.len() as int]@ == handles_of(args@),
            old(host).value_of(self@) is Function ==> {
                &&& final(host).thrown == old(host).thrown
                &&& final(host).objects@.len() == old(host).objects@.len() + 1
                &&& (final(host).value_of(r@) matches HostValue::Object(oid) && oid == old(host).objects@.len() && final(host).objects@[oid as int].props@.len() == 0 && final(host).objects@[oid as int].ctor == Some(self@))
                &&& r@ >= old(host).slots@.len()
                &&& final(host).live(r@)
                &&& spec_instance_of(*final(host), r@, self@)
            },
            !(old(host).value_of(self@) is Function) ==> {
                &&& final(host).objects == old(host).objects
                &&& (final(host).thrown matches Some(e) && final(host).value_of(e)
                    matches HostValue::Text(t) && t@ == "TypeError"@)
                &&& r@ == UNDEFINED_HANDLE
            },
    {
        let idx: usize = self.handle as usize;
        let is_fn: bool = match &host.slots[idx] {
            HostValue::Function(_) => true,
            _ => false,
        };
        let _aid = marshal_args(host, args);
        if is_fn {
            let oid: usize = host.objects.len();
            host.objects.push(ObjData { props: Vec::new(), ctor: Some(self.handle) });
            let h = host.alloc_slot(HostValue::Object(oid));
            proof {
                assert(host.value_of(self@) == old(host).value_of(self@));
            }
            Val { handle: h }
        } else {
            let e = host.alloc_slot(HostValue::Text("TypeError".to_owned()));
            host.thrown = Some(e);
            Val { handle: UNDEFINED_HANDLE }
        }
    }

    /// Call this value itself as a function over a freshly marshalled
    /// argument array. A registered native callback dispatches the
    /// embedder's own code, so of that outcome nothing more is promised
    /// than a well-formed host and a valid result handle.
    pub fn invoke(&self, host: &mut Host, args: &[Val]) -> (r: Val)
        requires
            old(host).wf(),
            old(host).live(self@),
            forall|i: int| 0 <= i < args@.len() ==> old(host).is_valid(#[trigger] args@[i]@),
            args@.len() <= i32::MAX,
            old(host).slots@.len() + 2 <= u32::MAX,
        ensures
            final(host).wf(),
            old(host).slots@.len() <= final(host).slots@.len(),
            old(host).objects@.len() <= final(host).objects@.len(),
            old(host).arrays@.len() < final(host).arrays@.len(),
            final(host).is_valid(r@),
            old(host).value_of(self@) == HostValue::Function(HostFnKind::ConsoleLog) ==> {
                &&& final(host).grown_core(*old(host))
                &&& final(host).objects == old(host).objects
                &&& final(host).arrays@.len() == old(host).arrays@.len() + 1
                &&& final(host).arrays@[old(host).arrays@.len() as int]@ == handles_of(args@)
                &&& final(host).slots@.len() == old(host).slots@.len() + 2
                &&& final(host).log@ == old(host).log@ + handles_of(args@)
                &&& final(host).thrown == old(host).thrown
                &&& r@ >= old(host).slots@.len()
                &&& final(host).value_of(r@) == HostValue::Undefined
                &&& final(host).live(r@)
            },
            !(old(host).value_of(self@) is Function) ==> {
                &&& final(host).grown_core(*old(host))
                &&& final(host).objects == old(host).objects
                &&& final(host).arrays@.len() == old(host).arrays@.len() + 1
                &&& final(host).arrays@[old(host).arrays@.len() as int]@ == handles_of(args@)
                &&& final(host).slots@.len() == old(host).slots@.len() + 2
                &&& final(host).log == old(host).log
                &&& (final(host).thrown matches Some(e) && final(host).value_of(e)
                    matches HostValue::Text(t) && t@ == "TypeError"@)
                &&& r@ == UNDEFINED_HANDLE
            },
    {
        let idx: usize = self.handle as usize;
        let m = clone_value(&host.slots[idx]);
        let ghost h0 = *host;
        let aid = marshal_args(host, args);
        let ghost h1 = *host;
        let r = apply_function(host, m, aid);
        proof {
            if m == (HostValue::Function(HostFnKind::ConsoleLog)) || !(m is Function) {
                Host::lemma_grown_core_trans(h0, h1, *host);
            }
        }
        r
    }
}

} // verus!
