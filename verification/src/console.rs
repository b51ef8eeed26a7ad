//! A typed helper over the host's `console` value, built strictly on the
//! bridge's primitive operations.

use vstd::prelude::*;
use crate::host::{Handle, Host, HostFnKind, HostValue, GLOBAL_HANDLE};
use crate::val::{handles_of, Val};

verus! {

/// The host's `console` value, looked up on the global namespace.
#[derive(Clone, Copy, Debug)]
pub struct Console {
    val: Val,
}

impl View for Console {
    type V = Handle;

    closed spec fn view(&self) -> Handle {
        self.val@
    }
}

impl Console {
    /// Look `console` up on the global namespace.
    pub fn get(host: &mut Host) -> (c: Console)
        requires
            old(host).wf(),
            old(host).slots@.len() + 2 <= u32::MAX,
        ensures
            final(host).wf(),
            final(host).grown_from(*old(host)),
            c@ == old(host).slots@.len() + 1,
            final(host).value_of(c@) == old(host).prop_value(GLOBAL_HANDLE, "console"@),
            !(old(host).prop_value(GLOBAL_HANDLE, "console"@) is Freed) ==> final(host).live(c@),
    {
        Console { val: Val::global(host, "console") }
    }

    /// Invoke the console's `log` method on the arguments. On a host whose
    /// `console.log` is the recording built-in, the argument handles are
    /// appended to the host log, in order. A host whose `log` is a native
    /// callback dispatches the embedder's code, so nothing more is promised
    /// of that outcome.
    pub fn log(&self, host: &mut Host, args: &[Val])
        requires
            old(host).wf(),
            old(host).live(self@),
            forall|i: int| 0 <= i < args@.len() ==> old(host).is_valid(#[trigger] args@[i]@),
            args@.len() <= i32::MAX,
            old(host).slots@.len() + 2 <= u32::MAX,
        ensures
            final(host).wf(),
            old(host).slots@.len() <= final(host).slots@.len(),
            old(host).objects@.len() <= final(host).objects@.len(),
            old(host).prop_value(self@, "log"@) == HostValue::Function(HostFnKind::ConsoleLog)
                ==> final(host).grown_core(*old(host)) && final(host).log@ == old(host).log@
                + handles_of(args@) && final(host).thrown == old(host).thrown,
            !(old(host).prop_value(self@, "log"@) is Function) ==> final(host).grown_core(
                *old(host),
            ) && final(host).log == old(host).log && final(host).thrown is Some,
    {
        self.val.call(host, "log", args);
    }

    /// The raw handle of the console value.
    pub fn as_handle(&self) -> (h: Handle)
        ensures
            h == self@,
    {
        self.val.as_handle()
    }
}

} // verus!
