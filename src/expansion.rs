//! The coefficients of a continued-fraction expansion, collected one term at
//! a time up to a fixed number of terms.

use vstd::prelude::*;

use crate::convergent::{checked_convergents, convergents_fit, denominator, numerator};

verus! {

/// The most coefficients an expansion holds: it stops there whether or not
/// it has converged.
pub const MAX_TERMS: usize = 16;

/// A continued-fraction expansion in progress.
///
/// The caller computes each coefficient (the floor of the current value) and
/// whether the expansion has converged (its fractional part is within the
/// tolerance), and hands both to [`Expansion::push`]. The expansion is
/// complete once a converged term has come, or once it holds
/// [`MAX_TERMS`] coefficients.
pub struct Expansion {
    terms: Vec<u64>,
    converged: bool,
}

impl View for Expansion {
    type V = Seq<u64>;

    /// The coefficients taken so far, in order.
    closed spec fn view(&self) -> Seq<u64> {
        self.terms@
    }
}

impl Expansion {
    /// Whether the last coefficient taken was marked as converged.
    pub closed spec fn has_converged(&self) -> bool {
        self.converged
    }

    /// No more than [`MAX_TERMS`] coefficients, and none after a converged one.
    pub open spec fn wf(&self) -> bool {
        &&& self@.len() <= MAX_TERMS
        &&& self.has_converged() ==> self@.len() > 0
    }

    /// Whether the expansion takes no further coefficient.
    pub open spec fn complete(&self) -> bool {
        self.has_converged() || self@.len() == MAX_TERMS
    }

    /// An expansion with no coefficient yet.
    pub fn new() -> (e: Self)
        ensures
            e@ == Seq::<u64>::empty(),
            !e.has_converged(),
            e.wf(),
    {
        Expansion { terms: Vec::new(), converged: false }
    }

    /// Whether the expansion takes no further coefficient.
    pub fn is_complete(&self) -> (r: bool)
        ensures
            r == self.complete(),
    {
        self.converged || self.terms.len() == MAX_TERMS
    }

    /// Offers the next coefficient `term`, with `converged` telling whether
    /// the expansion stops after it. A complete expansion refuses it and stays
    /// as it is; otherwise the term is appended. Returns whether it was taken.
    pub fn push(&mut self, term: u64, converged: bool) -> (taken: bool)
        requires
            old(self).wf(),
        ensures
            taken == !old(self).complete(),
            taken ==> final(self)@ == old(self)@.push(term) && final(self).has_converged()
                == converged,
            !taken ==> final(self)@ == old(self)@ && final(self).has_converged() == old(
                self,
            ).has_converged(),
            final(self).wf(),
            final(self)@.len() <= MAX_TERMS,
    {
        if self.is_complete() {
            false
        } else {
            self.terms.push(term);
            self.converged = converged;
            true
        }
    }

    /// The coefficients taken so far.
    pub fn terms(&self) -> (r: &[u64])
        ensures
            r@ == self@,
    {
        self.terms.as_slice()
    }

    /// The convergent `(p, q)` of the coefficients taken so far, or `None`
    /// where the convergent of some prefix of them does not fit in a `u64`.
    pub fn convergent(&self) -> (r: Option<(u64, u64)>)
        ensures
            r is Some <==> convergents_fit(self@),
            r matches Some(pq) ==> pq.0 == numerator(self@) && pq.1 == denominator(self@),
    {
        checked_convergents(self.terms.as_slice())
    }
}

} // verus!
