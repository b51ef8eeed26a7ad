//! The host value model: a table of slots addressed by opaque handles,
//! together with the object, array and callback state behind them.
//!
//! The bridge in [`crate::val`] never inspects a handle's bits; every
//! operation goes through this table. Handles `0..=3` are interned
//! singletons (`false`, `true`, `null`, `undefined`); the global namespace
//! object sits at [`GLOBAL_HANDLE`]. All other handles are allocated by
//! pushing a fresh slot, and are released only by an explicit delete.

use vstd::prelude::*;

verus! {

/// An opaque key into the host's value table.
pub type Handle = u32;

/// Interned handle of the `false` singleton.
pub const FALSE_HANDLE: Handle = 0;

/// Interned handle of the `true` singleton.
pub const TRUE_HANDLE: Handle = 1;

/// Interned handle of the `null` singleton.
pub const NULL_HANDLE: Handle = 2;

/// Interned handle of the `undefined` singleton.
pub const UNDEFINED_HANDLE: Handle = 3;

/// Handle of the host's global namespace object.
pub const GLOBAL_HANDLE: Handle = 4;

/// What a host function value does when applied.
#[derive(Clone, Copy, PartialEq, Eq, Structural)]
pub enum HostFnKind {
    /// The built-in `console.log`: records its arguments in the host log.
    ConsoleLog,
    /// A callback registered by the embedder under a small integer index.
    /// Dispatching it back into native code is the embedder's affair: the
    /// bridge's contracts promise nothing of what applying it does or
    /// returns.
    Native(u32),
}

/// One value in the host's table.
pub enum HostValue {
    Bool(bool),
    Null,
    Undefined,
    Int(i32),
    /// A floating point number, held as its IEEE 754 bit pattern.
    Double(u64),
    Text(String),
    /// A reference into the host's object table.
    Object(usize),
    /// A reference into the host's array table.
    Array(usize),
    Function(HostFnKind),
    /// A released slot; using a handle to it is outside every contract.
    Freed,
}

/// One property binding on a host object. Later bindings for the same key
/// shadow earlier ones: a lookup takes the binding nearest the front.
pub struct Prop {
    pub key: String,
    pub val: Handle,
}

/// A host object's own state.
pub struct ObjData {
    pub props: Vec<Prop>,
    /// The constructor value this object was made with, if made by `new`.
    pub ctor: Option<Handle>,
}

/// The host: a value table plus the state its slots refer to.
pub struct Host {
    pub slots: Vec<HostValue>,
    pub objects: Vec<ObjData>,
    pub arrays: Vec<Vec<Handle>>,
    /// Arguments that `console.log` has received, in order.
    pub log: Vec<Handle>,
    /// The pending host exception, if one was thrown and not yet handled.
    pub thrown: Option<Handle>,
}

/// First-match lookup of a property binding by name.
pub open spec fn spec_lookup(props: Seq<Prop>, name: Seq<char>) -> Option<Handle>
    decreases props.len(),
{
    if props.len() == 0 {
        None
    } else if props[0].key@ == name {
        Some(props[0].val)
    } else {
        spec_lookup(props.drop_first(), name)
    }
}

/// The two IEEE 754 bit patterns of zero, which the host's equality does
/// not tell apart.
pub open spec fn spec_is_zero_bits(b: u64) -> bool {
    b == 0 || b == 0x8000_0000_0000_0000
}

/// The bit pattern encodes exactly the 32-bit integer `i`: either a zero,
/// or a normal double whose exponent puts the binary point at or beyond
/// every set mantissa bit, whose integer part is `i`'s magnitude and whose
/// sign is `i`'s sign.
pub open spec fn spec_double_encodes_i32(b: u64, i: int) -> bool {
    if spec_is_zero_bits(b) {
        i == 0
    } else {
        let e = ((b >> 52) & 0x7ff) as int;
        let s = (1075 - e) as u64;
        let m = ((b & 0xf_ffff_ffff_ffff) + 0x10_0000_0000_0000) as u64;
        let mag = (m >> s) as int;
        &&& 1023 <= e <= 1054
        &&& (m >> s) << s == m
        &&& if b >> 63 == 1 {
            i == -mag
        } else {
            i == mag
        }
    }
}

/// Whether a bit pattern encodes exactly the given integer, as
/// [`spec_double_encodes_i32`] says.
pub(crate) fn double_encodes_i32(b: u64, i: i32) -> (r: bool)
    ensures
        r == spec_double_encodes_i32(b, i as int),
{
    if b == 0 || b == 0x8000_0000_0000_0000 {
        i == 0
    } else {
        let e: u64 = (b >> 52) & 0x7ff;
        if e < 1023 || e > 1054 {
            return false;
        }
        let s: u64 = 1075 - e;
        proof {
            assert((b & 0xf_ffff_ffff_ffff) <= 0xf_ffff_ffff_ffff) by (bit_vector);
        }
        let m: u64 = (b & 0xf_ffff_ffff_ffff) + 0x10_0000_0000_0000;
        let mag: u64 = m >> s;
        if (mag << s) != m {
            return false;
        }
        if (b >> 63) == 1 {
            mag <= 0x8000_0000 && (i as i64) == -(mag as i64)
        } else {
            mag <= 0x7fff_ffff && (i as i64) == (mag as i64)
        }
    }
}

/// Strict equality of two host values: value-based for the primitives
/// (booleans, numbers, text by contents), identity-based for objects and
/// arrays; a released slot equals nothing. The host has one number line:
/// an integer and a double are equal exactly when the double encodes that
/// integer, and the two zero patterns are equal. Two doubles otherwise
/// compare by bits, so equality stays reflexive on every value, the
/// not-a-number patterns included.
pub open spec fn spec_eq_values(a: HostValue, b: HostValue) -> bool {
    match (a, b) {
        (HostValue::Bool(x), HostValue::Bool(y)) => x == y,
        (HostValue::Null, HostValue::Null) => true,
        (HostValue::Undefined, HostValue::Undefined) => true,
        (HostValue::Int(x), HostValue::Int(y)) => x == y,
        (HostValue::Double(x), HostValue::Double(y)) => x == y || (spec_is_zero_bits(x)
            && spec_is_zero_bits(y)),
        (HostValue::Int(x), HostValue::Double(y)) => spec_double_encodes_i32(y, x as int),
        (HostValue::Double(x), HostValue::Int(y)) => spec_double_encodes_i32(x, y as int),
        (HostValue::Text(x), HostValue::Text(y)) => x@ == y@,
        (HostValue::Object(x), HostValue::Object(y)) => x == y,
        (HostValue::Array(x), HostValue::Array(y)) => x == y,
        (HostValue::Function(x), HostValue::Function(y)) => x == y,
        _ => false,
    }
}

impl Host {
    /// The value a handle denotes.
    pub open spec fn value_of(self, h: Handle) -> HostValue {
        self.slots@[h as int]
    }

    /// The handle is within the table.
    pub open spec fn is_valid(self, h: Handle) -> bool {
        (h as int) < self.slots@.len()
    }

    /// The handle is within the table and its slot has not been released.
    pub open spec fn live(self, h: Handle) -> bool {
        self.is_valid(h) && !(self.value_of(h) is Freed)
    }

    /// Room for one more slot: handles are 32-bit keys.
    pub open spec fn can_alloc(self) -> bool {
        self.slots@.len() < u32::MAX
    }

    /// A slot value only refers to state the host actually has.
    pub open spec fn slot_wf(self, v: HostValue) -> bool {
        match v {
            HostValue::Object(oid) => oid < self.objects@.len(),
            HostValue::Array(aid) => aid < self.arrays@.len(),
            _ => true,
        }
    }

    /// An object's bindings and recorded constructor stay within the table.
    pub open spec fn obj_wf(self, d: ObjData) -> bool {
        &&& forall|i: int|
            0 <= i < d.props@.len() ==> self.is_valid(#[trigger] d.props@[i].val)
        &&& match d.ctor {
            Some(c) => self.is_valid(c),
            None => true,
        }
    }

    /// An array's elements stay within the table, and its length fits the
    /// host's 32-bit length reporting.
    pub open spec fn arr_wf(self, a: Vec<Handle>) -> bool {
        &&& a@.len() <= i32::MAX
        &&& forall|i: int| 0 <= i < a@.len() ==> self.is_valid(#[trigger] a@[i])
    }

    /// Well-formedness of the whole host: the interned singletons sit at
    /// their reserved handles, the global object exists, and every slot,
    /// object and array refers only to state within the host.
    pub open spec fn wf(self) -> bool {
        &&& 5 <= self.slots@.len() <= u32::MAX
        &&& self.value_of(FALSE_HANDLE) == HostValue::Bool(false)
        &&& self.value_of(TRUE_HANDLE) == HostValue::Bool(true)
        &&& self.value_of(NULL_HANDLE) == HostValue::Null
        &&& self.value_of(UNDEFINED_HANDLE) == HostValue::Undefined
        &&& self.value_of(GLOBAL_HANDLE) is Object
        &&& forall|i: int|
            0 <= i < self.slots@.len() ==> self.slot_wf(#[trigger] self.slots@[i])
        &&& forall|o: int|
            0 <= o < self.objects@.len() ==> self.obj_wf(#[trigger] self.objects@[o])
        &&& forall|a: int|
            0 <= a < self.arrays@.len() ==> self.arr_wf(#[trigger] self.arrays@[a])
    }

    /// The new host extends the old one: every slot, object and array the
    /// old host had is still there, unchanged, and the log and exception
    /// state is as it was. Steps that only allocate relate their before
    /// and after states this way.
    pub open spec fn grown_from(self, h0: Host) -> bool {
        &&& self.grown_core(h0)
        &&& self.log == h0.log
        &&& self.thrown == h0.thrown
    }

    /// As [`Host::grown_from`], but with the log and the pending exception
    /// left open: what an invocation step preserves.
    pub open spec fn grown_core(self, h0: Host) -> bool {
        &&& h0.slots@.len() <= self.slots@.len()
        &&& forall|i: int| 0 <= i < h0.slots@.len() ==> self.slots@[i] == #[trigger] h0.slots@[i]
        &&& h0.objects@.len() <= self.objects@.len()
        &&& forall|o: int| 0 <= o < h0.objects@.len() ==> self.objects@[o] == #[trigger] h0.objects@[o]
        &&& h0.arrays@.len() <= self.arrays@.len()
        &&& forall|a: int| 0 <= a < h0.arrays@.len() ==> self.arrays@[a] == #[trigger] h0.arrays@[a]
    }

    /// What a property read on `h` yields: the bound value on an object
    /// (or `undefined` when nothing is bound), the element count of an
    /// array under `length`, and `undefined` on everything else.
    pub open spec fn prop_value(self, h: Handle, name: Seq<char>) -> HostValue {
        match self.value_of(h) {
            HostValue::Object(oid) => match spec_lookup(self.objects@[oid as int].props@, name) {
                Some(ph) => self.value_of(ph),
                None => HostValue::Undefined,
            },
            HostValue::Array(aid) => if name == "length"@ {
                HostValue::Int(self.arrays@[aid as int]@.len() as i32)
            } else {
                HostValue::Undefined
            },
            _ => HostValue::Undefined,
        }
    }

    /// The name is bound directly on the object `h` refers to.
    pub open spec fn own_prop(self, h: Handle, name: Seq<char>) -> bool {
        match self.value_of(h) {
            HostValue::Object(oid) => spec_lookup(self.objects@[oid as int].props@, name) is Some,
            _ => false,
        }
    }

    /// The name is reachable on `h`: bound directly, or derived, as an
    /// array's `length` is.
    pub open spec fn has_prop(self, h: Handle, name: Seq<char>) -> bool {
        self.own_prop(h, name) || (self.value_of(h) is Array && name == "length"@)
    }

    /// What an indexed read on `h` yields: the element's value within an
    /// array's bounds, `undefined` everywhere else.
    pub open spec fn elem_value(self, h: Handle, idx: int) -> HostValue {
        match self.value_of(h) {
            HostValue::Array(aid) => if 0 <= idx < self.arrays@[aid as int]@.len() {
                self.value_of(self.arrays@[aid as int]@[idx])
            } else {
                HostValue::Undefined
            },
            _ => HostValue::Undefined,
        }
    }

    /// A fresh host: the four interned singletons, then the global
    /// namespace object, which carries a `console` object whose `log`
    /// property is the recording built-in.
    pub fn new() -> (h: Host)
        ensures
            h.wf(),
            h.log@.len() == 0,
            h.thrown is None,
            h.value_of(GLOBAL_HANDLE) == HostValue::Object(0),
            spec_lookup(h.objects@[0].props@, "console"@) == Some(5 as Handle),
            h.value_of(5) == HostValue::Object(1),
            spec_lookup(h.objects@[1].props@, "log"@) == Some(6 as Handle),
            h.value_of(6) == HostValue::Function(HostFnKind::ConsoleLog),
            h.slots@.len() == 7,
    {
        let global_props: Vec<Prop> = vec![
            Prop { key: "console".to_owned(), val: 5 },
            Prop { key: "globalThis".to_owned(), val: GLOBAL_HANDLE },
        ];
        let console_props: Vec<Prop> = vec![Prop { key: "log".to_owned(), val: 6 }];
        let objects: Vec<ObjData> = vec![
            ObjData { props: global_props, ctor: None },
            ObjData { props: console_props, ctor: None },
        ];
        let slots: Vec<HostValue> = vec![
            HostValue::Bool(false),
            HostValue::Bool(true),
            HostValue::Null,
            HostValue::Undefined,
            HostValue::Object(0),
            HostValue::Object(1),
            HostValue::Function(HostFnKind::ConsoleLog),
        ];
        let h = Host { slots, objects, arrays: Vec::new(), log: Vec::new(), thrown: None };
        proof {
            reveal_strlit("console");
            reveal_strlit("globalThis");
            reveal_strlit("log");
            assert(spec_lookup(h.objects@[0].props@, "console"@) == Some(5 as Handle));
            assert(spec_lookup(h.objects@[1].props@, "log"@) == Some(6 as Handle));
        }
        h
    }

    /// Growing the host changes nothing a pre-existing handle shows.
    pub proof fn lemma_grown_preserves_views(self, h0: Host, h: Handle)
        requires
            h0.wf(),
            self.grown_core(h0),
            h0.is_valid(h),
        ensures
            self.value_of(h) == h0.value_of(h),
            self.live(h) == h0.live(h),
            forall|name: Seq<char>| self.prop_value(h, name) == h0.prop_value(h, name),
            forall|name: Seq<char>| self.own_prop(h, name) == h0.own_prop(h, name),
            forall|name: Seq<char>| self.has_prop(h, name) == h0.has_prop(h, name),
            forall|idx: int| self.elem_value(h, idx) == h0.elem_value(h, idx),
    {
        assert(self.value_of(h) == h0.value_of(h));
        self.lemma_alias_views(h0, h, h);
    }

    /// An alias shows the same properties and elements: if a handle in the
    /// grown host carries the same value an old handle carried, every read
    /// through it agrees with the old host.
    pub proof fn lemma_alias_views(self, h0: Host, h: Handle, g: Handle)
        requires
            h0.wf(),
            self.grown_core(h0),
            h0.is_valid(h),
            self.is_valid(g),
            self.value_of(g) == h0.value_of(h),
        ensures
            forall|name: Seq<char>| self.prop_value(g, name) == h0.prop_value(h, name),
            forall|name: Seq<char>| self.own_prop(g, name) == h0.own_prop(h, name),
            forall|name: Seq<char>| self.has_prop(g, name) == h0.has_prop(h, name),
            forall|idx: int| self.elem_value(g, idx) == h0.elem_value(h, idx),
    {
        match h0.value_of(h) {
            HostValue::Object(oid) => {
                assert(h0.slot_wf(h0.slots@[h as int]));
                assert(self.objects@[oid as int] == h0.objects@[oid as int]);
                let props = h0.objects@[oid as int].props@;
                assert forall|name: Seq<char>|
                    self.prop_value(g, name) == h0.prop_value(h, name) by {
                    match spec_lookup(props, name) {
                        Some(ph) => {
                            Self::lemma_lookup_in_range(props, name);
                            assert(h0.obj_wf(h0.objects@[oid as int]));
                        },
                        None => {},
                    }
                }
            },
            HostValue::Array(aid) => {
                assert(h0.slot_wf(h0.slots@[h as int]));
                assert(self.arrays@[aid as int] == h0.arrays@[aid as int]);
                assert(h0.arr_wf(h0.arrays@[aid as int]));
                assert forall|idx: int|
                    self.elem_value(g, idx) == h0.elem_value(h, idx) by {
                    if 0 <= idx < h0.arrays@[aid as int]@.len() {
                        assert(h0.is_valid(h0.arrays@[aid as int]@[idx]));
                    }
                }
            },
            _ => {},
        }
    }

    /// A looked-up binding is one of the object's own bindings.
    pub proof fn lemma_lookup_in_range(props: Seq<Prop>, name: Seq<char>)
        ensures
            spec_lookup(props, name) matches Some(ph) ==> exists|i: int|
                0 <= i < props.len() && #[trigger] props[i].val == ph,
        decreases props.len(),
    {
        if props.len() > 0 && !(props[0].key@ == name) {
            Self::lemma_lookup_in_range(props.drop_first(), name);
            if spec_lookup(props, name) is Some {
                let i = choose|i: int|
                    0 <= i < props.drop_first().len() && #[trigger] props.drop_first()[i].val
                        == spec_lookup(props, name)->Some_0;
                assert(props[i + 1].val == spec_lookup(props, name)->Some_0);
            }
        }
    }

    /// Core growth is transitive too, with the log and exception state
    /// left open at each step.
    pub proof fn lemma_grown_core_trans(h0: Host, h1: Host, h2: Host)
        requires
            h1.grown_core(h0),
            h2.grown_core(h1),
        ensures
            h2.grown_core(h0),
    {
    }

    /// Growing is transitive: two allocation-only steps make one.
    pub proof fn lemma_grown_trans(h0: Host, h1: Host, h2: Host)
        requires
            h1.grown_from(h0),
            h2.grown_from(h1),
        ensures
            h2.grown_from(h0),
    {
    }

    /// Push one fresh slot and hand back its handle.
    pub(crate) fn alloc_slot(&mut self, v: HostValue) -> (h: Handle)
        requires
            old(self).wf(),
            old(self).can_alloc(),
            old(self).slot_wf(v),
        ensures
            final(self).wf(),
            final(self).grown_from(*old(self)),
            final(self).slots@ == old(self).slots@.push(v),
            final(self).objects == old(self).objects,
            final(self).arrays == old(self).arrays,
            h == old(self).slots@.len(),
            final(self).value_of(h) == v,
            final(self).is_valid(h),
    {
        let h: usize = self.slots.len();
        self.slots.push(v);
        h as Handle
    }
}

/// First-match lookup of a property binding, as [`spec_lookup`] says.
pub(crate) fn lookup_prop(props: &Vec<Prop>, name: &str) -> (r: Option<Handle>)
    ensures
        r == spec_lookup(props@, name@),
{
    let name_s: String = name.to_owned();
    let n: usize = props.len();
    let mut i: usize = 0;
    proof {
        assert(props@.skip(0) =~= props@);
    }
    while i < n
        invariant
            n == props@.len(),
            i <= n,
            name_s@ == name@,
            spec_lookup(props@, name@) == spec_lookup(props@.skip(i as int), name@),
        decreases n - i,
    {
        let p = &props[i];
        proof {
            assert(props@.skip(i as int)[0] == props@[i as int]);
        }
        if p.key == name_s {
            return Some(p.val);
        }
        proof {
            assert(props@.skip(i as int).drop_first() =~= props@.skip(i + 1));
        }
        i = i + 1;
    }
    proof {
        assert(props@.skip(n as int) =~= Seq::<Prop>::empty());
    }
    None
}

/// A deep copy of one host value.
pub(crate) fn clone_value(v: &HostValue) -> (r: HostValue)
    ensures
        r == *v,
{
    match v {
        HostValue::Bool(b) => HostValue::Bool(*b),
        HostValue::Null => HostValue::Null,
        HostValue::Undefined => HostValue::Undefined,
        HostValue::Int(i) => HostValue::Int(*i),
        HostValue::Double(b) => HostValue::Double(*b),
        HostValue::Text(s) => HostValue::Text(s.clone()),
        HostValue::Object(oid) => HostValue::Object(*oid),
        HostValue::Array(aid) => HostValue::Array(*aid),
        HostValue::Function(k) => HostValue::Function(*k),
        HostValue::Freed => HostValue::Freed,
    }
}

/// Strict equality of two host values, as [`spec_eq_values`] says.
pub(crate) fn eq_values(a: &HostValue, b: &HostValue) -> (r: bool)
    ensures
        r == spec_eq_values(*a, *b),
{
    match (a, b) {
        (HostValue::Bool(x), HostValue::Bool(y)) => *x == *y,
        (HostValue::Null, HostValue::Null) => true,
        (HostValue::Undefined, HostValue::Undefined) => true,
        (HostValue::Int(x), HostValue::Int(y)) => *x == *y,
        (HostValue::Double(x), HostValue::Double(y)) => *x == *y || ((*x == 0 || *x
            == 0x8000_0000_0000_0000) && (*y == 0 || *y == 0x8000_0000_0000_0000)),
        (HostValue::Int(x), HostValue::Double(y)) => double_encodes_i32(*y, *x),
        (HostValue::Double(x), HostValue::Int(y)) => double_encodes_i32(*x, *y),
        (HostValue::Text(x), HostValue::Text(y)) => *x == *y,
        (HostValue::Object(x), HostValue::Object(y)) => *x == *y,
        (HostValue::Array(x), HostValue::Array(y)) => *x == *y,
        (HostValue::Function(x), HostValue::Function(y)) => *x == *y,
        _ => false,
    }
}

} // verus!
