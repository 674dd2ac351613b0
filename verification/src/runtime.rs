//! The host-runtime attachment point.
//!
//! Process-wide, at most one live attachment: set when the native module
//! is loaded, cleared when it is unloaded. Every component that calls
//! back into host code checks this handle first and falls back
//! gracefully when it is absent. Repeated detach notifications are
//! harmless no-ops.

use vstd::prelude::*;

verus! {

/// The single attachment point to the host's managed runtime.
pub struct HostRuntimeHandle<R> {
    current: Option<R>,
}

impl<R> View for HostRuntimeHandle<R> {
    type V = Option<R>;

    closed spec fn view(&self) -> Option<R> {
        self.current
    }
}

impl<R> HostRuntimeHandle<R> {
    /// A fresh handle: nothing is attached.
    pub fn new() -> (r: Self)
        ensures
            r@ is None,
    {
        HostRuntimeHandle { current: None }
    }

    /// Whether the host runtime is attached.
    pub fn is_attached(&self) -> (r: bool)
        ensures
            r == (self@ is Some),
    {
        self.current.is_some()
    }

    /// The attached runtime, if any.
    pub fn attached(&self) -> (r: Option<&R>)
        ensures
            match r {
                Some(rt) => self@ == Some(*rt),
                None => self@ is None,
            },
    {
        self.current.as_ref()
    }

    /// Attaches `runtime`. The handle is set exactly once per load: a
    /// second attach is rejected, hands the offered runtime back, and
    /// leaves the existing attachment untouched.
    pub fn attach(&mut self, runtime: R) -> (r: Result<(), R>)
        ensures
            old(self)@ is None ==> r is Ok && final(self)@ == Some(runtime),
            old(self)@ is Some ==> final(self)@ == old(self)@ && r == Err::<(), R>(runtime),
    {
        if self.current.is_some() {
            Err(runtime)
        } else {
            self.current = Some(runtime);
            Ok(())
        }
    }

    /// Detaches and hands back the attachment, if any. Idempotent:
    /// detaching an empty handle is a no-op.
    pub fn detach(&mut self) -> (r: Option<R>)
        ensures
            final(self)@ is None,
            r == old(self)@,
    {
        self.current.take()
    }
}

} // verus!
