//! The per-handle engine lifecycle registry.
//!
//! Each addressable engine instance is keyed by a small non-negative
//! integer handle chosen by the caller. A slot is `Running` exactly when
//! the registry maps its handle to a live engine resource; at most one
//! live resource exists per handle at any time, and the resource is owned
//! by the slot. The registry is a state machine per handle:
//! `Stopped -> run -> Running`, `Running -> stop -> Stopped`,
//! `Running -> reload -> Running` (the resource is replaced in place),
//! and every rejected transition leaves the registry unchanged.
//!
//! The registry itself is single-threaded (`&mut self`); the boundary
//! serializes access to it, so two transitions never interleave.

use vstd::prelude::*;
use std::collections::HashMap;

verus! {

broadcast use vstd::std_specs::hash::group_hash_axioms;

/// What `run` does to the registry: the handle must be free; a run on an
/// occupied handle changes nothing and is rejected.
pub open spec fn run_transition<E>(m: Map<usize, E>, handle: usize, engine: E) -> (Map<usize, E>, bool) {
    if m.contains_key(handle) {
        (m, false)
    } else {
        (m.insert(handle, engine), true)
    }
}

/// What `stop` does to the registry: a running handle is vacated; a stop
/// on a free handle is a no-op that reports not-running.
pub open spec fn stop_transition<E>(m: Map<usize, E>, handle: usize) -> (Map<usize, E>, bool) {
    if m.contains_key(handle) {
        (m.remove(handle), true)
    } else {
        (m, false)
    }
}

/// What `reload` does to the registry: the resource of a running handle
/// is replaced in place; a reload of a free handle changes nothing and is
/// rejected.
pub open spec fn reload_transition<E>(m: Map<usize, E>, handle: usize, replacement: E) -> (
    Map<usize, E>,
    bool,
) {
    if m.contains_key(handle) {
        (m.insert(handle, replacement), true)
    } else {
        (m, false)
    }
}

/// The table of engine slots, keyed by handle. `E` is the opaque engine
/// resource a running slot owns.
pub struct EngineRegistry<E> {
    slots: HashMap<usize, E>,
}

impl<E> View for EngineRegistry<E> {
    type V = Map<usize, E>;

    closed spec fn view(&self) -> Map<usize, E> {
        self.slots@
    }
}

impl<E> EngineRegistry<E> {
    /// A fresh registry: no handle is running.
    pub fn new() -> (r: Self)
        ensures
            r@ == Map::<usize, E>::empty(),
            forall|h: usize| !r@.contains_key(h),
    {
        EngineRegistry { slots: HashMap::new() }
    }

    /// Whether the slot of `handle` holds a live engine.
    pub fn is_running(&self, handle: usize) -> (r: bool)
        ensures
            r == self@.contains_key(handle),
    {
        self.slots.contains_key(&handle)
    }

    /// The engine resource of `handle`, if the slot is running.
    pub fn engine(&self, handle: usize) -> (r: Option<&E>)
        ensures
            match r {
                Some(e) => self@.contains_key(handle) && *e == self@[handle],
                None => !self@.contains_key(handle),
            },
    {
        self.slots.get(&handle)
    }

    /// Starts `engine` under `handle`. If the handle is already running,
    /// the existing instance is left untouched and the offered engine is
    /// handed back to the caller.
    pub fn run(&mut self, handle: usize, engine: E) -> (r: Result<(), E>)
        ensures
            (final(self)@, r is Ok) == run_transition(old(self)@, handle, engine),
            r is Ok <==> !old(self)@.contains_key(handle),
            r is Ok ==> final(self)@ == old(self)@.insert(handle, engine),
            r matches Err(e) ==> e == engine && final(self)@ == old(self)@,
    {
        if self.slots.contains_key(&handle) {
            Err(engine)
        } else {
            let _prior = self.slots.insert(handle, engine);
            Ok(())
        }
    }

    /// Stops the engine of `handle`, handing the vacated resource back to
    /// the caller for teardown. A stop of a free handle is a no-op.
    pub fn stop(&mut self, handle: usize) -> (r: Option<E>)
        ensures
            (final(self)@, r is Some) == stop_transition::<E>(old(self)@, handle),
            r is Some <==> old(self)@.contains_key(handle),
            !final(self)@.contains_key(handle),
            r matches Some(e) ==> e == old(self)@[handle] && final(self)@ == old(self)@.remove(
                handle,
            ),
            r is None ==> final(self)@ == old(self)@,
    {
        let r = self.slots.remove(&handle);
        proof {
            if !old(self)@.contains_key(handle) {
                assert(old(self)@.remove(handle) =~= old(self)@);
            }
        }
        r
    }

    /// Replaces the engine of a running `handle` with `replacement`,
    /// handing the superseded resource back for teardown. If the handle
    /// is not running, the replacement is handed back and nothing
    /// changes: a failed reload never leaves the slot half torn down.
    pub fn reload(&mut self, handle: usize, replacement: E) -> (r: Result<E, E>)
        ensures
            (final(self)@, r is Ok) == reload_transition(old(self)@, handle, replacement),
            r is Ok <==> old(self)@.contains_key(handle),
            r matches Ok(e) ==> e == old(self)@[handle] && final(self)@ == old(self)@.insert(
                handle,
                replacement,
            ),
            r matches Err(e) ==> e == replacement && final(self)@ == old(self)@,
    {
        if self.slots.contains_key(&handle) {
            match self.slots.remove(&handle) {
                Some(prior) => {
                    let _shadowed = self.slots.insert(handle, replacement);
                    proof {
                        assert(self.slots@ =~= old(self)@.insert(handle, replacement));
                    }
                    Ok(prior)
                },
                None => Err(replacement),
            }
        } else {
            Err(replacement)
        }
    }
}

/// A handle is not running in a fresh registry; it is running immediately
/// after an accepted `run`, and no longer running after an accepted
/// `stop`.
pub proof fn lemma_lifecycle_round_trip<E>(m: Map<usize, E>, handle: usize, engine: E)
    requires
        !m.contains_key(handle),
    ensures
        run_transition(m, handle, engine).1,
        run_transition(m, handle, engine).0.contains_key(handle),
        stop_transition(run_transition(m, handle, engine).0, handle).1,
        !stop_transition(run_transition(m, handle, engine).0, handle).0.contains_key(handle),
        stop_transition(run_transition(m, handle, engine).0, handle).0 == m,
{
    let m1 = run_transition(m, handle, engine).0;
    assert(stop_transition(m1, handle).0 =~= m);
}

/// A second `run` on a handle whose `run` was just accepted is rejected
/// and changes nothing: across any sequence of calls a handle owns at
/// most one live resource.
pub proof fn lemma_second_run_rejected<E>(m: Map<usize, E>, handle: usize, first: E, second: E)
    requires
        run_transition(m, handle, first).1,
    ensures
        run_transition(run_transition(m, handle, first).0, handle, second)
            == (run_transition(m, handle, first).0, false),
{
}

/// An accepted `reload` keeps the handle running and puts exactly the
/// replacement resource in its slot; a rejected one changes nothing.
pub proof fn lemma_reload_in_place<E>(m: Map<usize, E>, handle: usize, replacement: E)
    ensures
        m.contains_key(handle) ==> reload_transition(m, handle, replacement).1
            && reload_transition(m, handle, replacement).0.contains_key(handle)
            && reload_transition(m, handle, replacement).0[handle] == replacement
            && reload_transition(m, handle, replacement).0.dom() == m.dom(),
        !m.contains_key(handle) ==> reload_transition(m, handle, replacement) == (m, false),
{
    if m.contains_key(handle) {
        assert(m.insert(handle, replacement).dom() =~= m.dom());
    }
}

/// Transitions on distinct handles are independent: a `run` on one handle
/// and a `stop` on another commute, each is accepted in either order
/// exactly as it would be alone, and neither disturbs the other's slot.
pub proof fn lemma_distinct_handles_independent<E>(
    m: Map<usize, E>,
    run_handle: usize,
    engine: E,
    stop_handle: usize,
)
    requires
        run_handle != stop_handle,
    ensures
        run_transition(m, run_handle, engine).1 == !m.contains_key(run_handle),
        stop_transition(run_transition(m, run_handle, engine).0, stop_handle).1 == m.contains_key(
            stop_handle,
        ),
        stop_transition(run_transition(m, run_handle, engine).0, stop_handle).0
            == run_transition(stop_transition(m, stop_handle).0, run_handle, engine).0,
{
    let after_run = run_transition(m, run_handle, engine).0;
    let after_stop = stop_transition(m, stop_handle).0;
    if !m.contains_key(run_handle) {
        if m.contains_key(stop_handle) {
            assert(after_run.remove(stop_handle) =~= after_stop.insert(run_handle, engine));
        }
    } else {
        if m.contains_key(stop_handle) {
            assert(stop_transition(after_run, stop_handle).0 =~= run_transition(
                after_stop,
                run_handle,
                engine,
            ).0);
        }
    }
}

} // verus!
