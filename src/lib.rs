//! Rational reconstruction by continued fractions.
//!
//! A real number is expanded, term by term, into the coefficients of a
//! continued fraction `[a0; a1, a2, ...]`; the final convergent of that
//! expansion is the fraction `p / q` that approximates the number.
//!
//! The floating-point steps of the expansion (taking the floor, the
//! fractional part and its reciprocal) stay with the caller, which hands
//! each coefficient to [`Expansion`]. Everything done on the coefficients is
//! verified here: the cap on their number and the convergent recurrence.

mod convergent;
mod expansion;

pub use convergent::{
    checked_convergents, convergents_fit, denominator, find_convergents, numerator,
};
pub use expansion::{Expansion, MAX_TERMS};
