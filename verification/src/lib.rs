//! A typed bridge to a JavaScript-like host value system.
//!
//! Every value the bridge touches lives in a host-side value table and is
//! referred to by an opaque integer [`host::Handle`]. The [`val::Val`] wrapper
//! carries exactly one handle and offers typed operations (property get/set,
//! invocation, construction, coercion, comparison) that delegate to the host.
//!
//! The host itself is modelled explicitly by [`host::Host`]: a value table
//! together with object, array and function state, passed to every operation
//! as an explicit context. This keeps the bridge testable against simulated
//! hosts and lets every operation carry an exact contract over the host model.
//! An embedding that talks to a real foreign host supplies the same operation
//! set over the foreign boundary instead.

pub mod host;
pub mod text;
pub mod val;
pub mod console;
pub mod laws;
