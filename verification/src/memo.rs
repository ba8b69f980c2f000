//! One-time-built, shared derived fields.
//!
//! A [`MemoSig`] owns the signal of one derived field of one entity. The
//! signal is constructed at most once per field per entity; once built it is
//! never rebuilt or discarded, and every later request observes the same
//! stored signal, so all subscribers share one underlying computation.
//! Builds happen under an exclusive borrow of the graph, which is what
//! serializes two simultaneous first requests into a single build.

use vstd::prelude::*;
use crate::sig::Sig;

verus! {

/// A memoized derived field: a build-once cell for a signal, together with
/// a count of how many times a build has happened.
pub struct MemoSig {
    built: Option<Sig>,
    builds: u32,
}

impl MemoSig {
    /// The stored signal, if one has been built.
    pub closed spec fn stored(self) -> Option<Sig> {
        self.built
    }

    /// How many times this field's builder has run.
    pub closed spec fn times_built(self) -> u32 {
        self.builds
    }

    /// The build-once guard: the builder has run at most once, and exactly
    /// once when a signal is stored.
    pub open spec fn inv(self) -> bool {
        &&& self.times_built() <= 1
        &&& (self.stored() is Some <==> self.times_built() == 1)
    }

    /// A fresh field: nothing built yet.
    pub fn new() -> (r: MemoSig)
        ensures
            r.stored() is None,
            r.times_built() == 0,
            r.inv(),
    {
        MemoSig { built: None, builds: 0 }
    }

    /// Whether the field's signal has been built.
    pub fn is_built(&self) -> (r: bool)
        ensures
            r == (self.stored() is Some),
    {
        self.built.is_some()
    }

    /// How many times the builder has run.
    pub fn build_count(&self) -> (r: u32)
        ensures
            r == self.times_built(),
    {
        self.builds
    }

    /// Store the one built signal. May only happen while nothing is stored.
    pub fn init(&mut self, e: Sig)
        requires
            old(self).stored() is None,
            old(self).inv(),
        ensures
            final(self).stored() == Some(e),
            final(self).times_built() == 1,
            final(self).inv(),
    {
        self.built = Some(e);
        self.builds = self.builds + 1;
    }

    /// Borrow the stored signal. Every caller sees the same one.
    pub fn get(&self) -> (r: &Sig)
        requires
            self.stored() is Some,
        ensures
            Some(*r) == self.stored(),
    {
        self.built.as_ref().unwrap()
    }
}

/// Requesting a memoized field again changes nothing and hands back the very
/// signal stored by the first request: observers attached through either
/// request follow one signal and see identical value sequences.
pub proof fn lemma_memo_idempotent(m: MemoSig, e: Sig)
    requires
        m.inv(),
        m.stored() == Some(e),
    ensures
        m.times_built() == 1,
        forall|e2: Sig| m.stored() == Some(e2) ==> e2 == e,
{
}

} // verus!
