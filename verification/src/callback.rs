//! The protect-socket callback registry.
//!
//! At most one decision callback is registered at a time: a durable
//! reference to a host-side target plus the name of the method to call
//! on it. A decision is only attempted while a registration is present
//! and the host runtime is attached; in every other case, and whenever
//! an attempted call fails to complete, the verdict is the safe default:
//! the socket is treated as not specially protected (`false`).

use vstd::prelude::*;

verus! {

/// A live registration: the host-side target kept alive for the
/// registration's duration, and the name of the decision method on it.
pub struct CallbackRegistration<T> {
    pub target: T,
    pub method_name: String,
}

/// Why a registration attempt was rejected.
#[derive(Clone, Copy, PartialEq, Eq, Structural, Debug)]
pub enum RegisterError {
    /// The method name was empty.
    EmptyMethodName,
}

/// The process-wide callback slot: empty, or holding one registration.
pub struct CallbackRegistry<T> {
    current: Option<CallbackRegistration<T>>,
}

/// The verdict of one protect-socket decision, given the registry
/// contents, whether the host runtime is attached, and what the
/// attempted host call (if any) came back with: `Some(b)` for a
/// completed call returning `b`, `None` for a call that failed or was
/// never attempted. Without a registration and an attached runtime, and
/// whenever the call did not complete, the verdict is the safe default
/// `false`: the socket is not specially protected.
pub open spec fn protect_result<T>(
    registered: Option<(T, Seq<char>)>,
    attached: bool,
    outcome: Option<bool>,
) -> bool {
    if registered is Some && attached {
        outcome == Some(true)
    } else {
        false
    }
}

/// What `register` does to the slot: an empty name is rejected and
/// changes nothing; otherwise the new registration fully replaces
/// whatever was there.
pub open spec fn register_transition<T>(
    registered: Option<(T, Seq<char>)>,
    target: T,
    name: Seq<char>,
) -> (Option<(T, Seq<char>)>, bool) {
    if name.len() == 0 {
        (registered, false)
    } else {
        (Some((target, name)), true)
    }
}

impl<T> View for CallbackRegistry<T> {
    type V = Option<(T, Seq<char>)>;

    closed spec fn view(&self) -> Option<(T, Seq<char>)> {
        match self.current {
            Some(reg) => Some((reg.target, reg.method_name@)),
            None => None,
        }
    }
}

impl<T> CallbackRegistry<T> {
    /// A fresh registry: nothing is registered.
    pub fn new() -> (r: Self)
        ensures
            r@ is None,
    {
        CallbackRegistry { current: None }
    }

    /// Whether a callback is currently registered.
    pub fn is_registered(&self) -> (r: bool)
        ensures
            r == (self@ is Some),
    {
        self.current.is_some()
    }

    /// The current registration, if any.
    pub fn registration(&self) -> (r: Option<&CallbackRegistration<T>>)
        ensures
            match r {
                Some(reg) => self@ == Some((reg.target, reg.method_name@)),
                None => self@ is None,
            },
    {
        self.current.as_ref()
    }

    /// Registers `target` and `method_name`, handing any prior
    /// registration back to the caller so its durable reference can be
    /// released. An empty method name is rejected and the prior
    /// registration, if any, stays in place untouched.
    pub fn register(&mut self, target: T, method_name: String) -> (r: Result<
        Option<CallbackRegistration<T>>,
        RegisterError,
    >)
        ensures
            (final(self)@, r is Ok) == register_transition(old(self)@, target, method_name@),
            r matches Err(e) ==> e == RegisterError::EmptyMethodName,
            r matches Ok(prior) ==> match prior {
                Some(reg) => old(self)@ == Some((reg.target, reg.method_name@)),
                None => old(self)@ is None,
            },
    {
        if method_name.as_str().is_empty() {
            Err(RegisterError::EmptyMethodName)
        } else {
            let prior = self.current.take();
            self.current = Some(CallbackRegistration { target, method_name });
            Ok(prior)
        }
    }

    /// Clears the slot, handing any registration back so its durable
    /// reference can be released. Safe to call when nothing is
    /// registered.
    pub fn unregister(&mut self) -> (r: Option<CallbackRegistration<T>>)
        ensures
            final(self)@ is None,
            match r {
                Some(reg) => old(self)@ == Some((reg.target, reg.method_name@)),
                None => old(self)@ is None,
            },
    {
        self.current.take()
    }

    /// Whether a decision call into the host should be attempted at all:
    /// only with a registration present and the runtime attached.
    pub fn should_invoke(&self, attached: bool) -> (r: bool)
        ensures
            r == (self@ is Some && attached),
    {
        self.current.is_some() && attached
    }

    /// The verdict of one decision, from the registry contents, the
    /// runtime attachment, and the outcome of the attempted host call
    /// (`None` when no call completed). Never blocks and never fails:
    /// every path yields a boolean.
    pub fn protect_socket_verdict(&self, attached: bool, outcome: Option<bool>) -> (r: bool)
        ensures
            r == protect_result(self@, attached, outcome),
    {
        if self.current.is_some() && attached {
            match outcome {
                Some(b) => b,
                None => false,
            }
        } else {
            false
        }
    }
}

/// Without a registration, or without an attached runtime, the verdict
/// is the safe default `false`, whatever the host call would have said.
pub proof fn lemma_safe_default<T>(
    registered: Option<(T, Seq<char>)>,
    attached: bool,
    outcome: Option<bool>,
)
    ensures
        registered is None ==> !protect_result(registered, attached, outcome),
        !attached ==> !protect_result(registered, attached, outcome),
{
}

/// A new registration fully supersedes the prior one: after an accepted
/// `register`, the slot and every verdict drawn from it are the same
/// whatever was registered before, so the prior target is never invoked
/// again.
pub proof fn lemma_registration_supersedes<T>(
    prior_a: Option<(T, Seq<char>)>,
    prior_b: Option<(T, Seq<char>)>,
    target: T,
    name: Seq<char>,
    attached: bool,
    outcome: Option<bool>,
)
    requires
        name.len() > 0,
    ensures
        register_transition(prior_a, target, name).0 == register_transition(prior_b, target, name).0,
        protect_result(register_transition(prior_a, target, name).0, attached, outcome)
            == protect_result(Some((target, name)), attached, outcome),
{
}

} // verus!
