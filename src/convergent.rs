//! The convergent `p / q` of a finite continued fraction `[a0; a1, ..., an]`.

use vstd::prelude::*;

verus! {

/// Numerator of the convergent of the coefficients `s`: 1 for no
/// coefficient, `a0` for one, and `an * p(a0..an-1) + p(a0..an-2)` otherwise.
pub open spec fn numerator(s: Seq<u64>) -> nat
    decreases s.len(),
{
    if s.len() == 0 {
        1
    } else if s.len() == 1 {
        s[0] as nat
    } else {
        s.last() as nat * numerator(s.take(s.len() - 1)) + numerator(s.take(s.len() - 2))
    }
}

/// Denominator of the convergent of the coefficients `s`: 0 for no
/// coefficient, 1 for one, and `an * q(a0..an-1) + q(a0..an-2)` otherwise.
pub open spec fn denominator(s: Seq<u64>) -> nat
    decreases s.len(),
{
    if s.len() == 0 {
        0
    } else if s.len() == 1 {
        1
    } else {
        s.last() as nat * denominator(s.take(s.len() - 1)) + denominator(s.take(s.len() - 2))
    }
}

/// The convergent of every prefix of `s` (the empty one included) has a
/// numerator and a denominator that fit in a `u64`.
pub open spec fn convergents_fit(s: Seq<u64>) -> bool {
    forall|k: int|
        0 <= k <= s.len() ==> #[trigger] numerator(s.take(k)) <= u64::MAX && denominator(s.take(k))
            <= u64::MAX
}

/// One step of the recurrence: the convergent of the first `k + 1`
/// coefficients from those of the first `k` and `k - 1`.
proof fn lemma_step(s: Seq<u64>, k: int)
    requires
        1 <= k < s.len(),
    ensures
        numerator(s.take(k + 1)) == s[k] as nat * numerator(s.take(k)) + numerator(s.take(k - 1)),
        denominator(s.take(k + 1)) == s[k] as nat * denominator(s.take(k)) + denominator(
            s.take(k - 1),
        ),
{
    let t = s.take(k + 1);
    assert(t.take(t.len() - 1) =~= s.take(k));
    assert(t.take(t.len() - 2) =~= s.take(k - 1));
}

/// The convergent `(p, q)` of the coefficients in `vec`, or `None` where the
/// convergent of some prefix of them does not fit in a `u64`.
///
/// The coefficients are read once, from the first: the numerator and
/// denominator of each prefix follow from those of the two before it.
pub fn checked_convergents(vec: &[u64]) -> (r: Option<(u64, u64)>)
    ensures
        r is Some <==> convergents_fit(vec@),
        r matches Some(pq) ==> pq.0 == numerator(vec@) && pq.1 == denominator(vec@),
{
    let s = Ghost(vec@);
    // convergent of the first `k` coefficients, and of the first `k - 1`
    let mut p: u64 = 1;
    let mut q: u64 = 0;
    let mut p_prev: u64 = 0;
    let mut q_prev: u64 = 1;
    let mut k: usize = 0;
    assert(s@.take(0) =~= Seq::<u64>::empty());
    while k < vec.len()
        invariant
            s@ == vec@,
            0 <= k <= vec.len(),
            p == numerator(s@.take(k as int)),
            q == denominator(s@.take(k as int)),
            k == 0 ==> p_prev == 0 && q_prev == 1,
            k > 0 ==> p_prev == numerator(s@.take(k - 1)) && q_prev == denominator(
                s@.take(k - 1),
            ),
            forall|j: int|
                0 <= j <= k ==> #[trigger] numerator(s@.take(j)) <= u64::MAX && denominator(
                    s@.take(j),
                ) <= u64::MAX,
        decreases vec.len() - k,
    {
        let a = vec[k];
        proof {
            if k == 0 {
                assert(s@.take(1) =~= seq![a]);
                assert(a as nat * p as nat == a as nat) by (nonlinear_arith)
                    requires
                        p == 1,
                ;
                assert(a as nat * q as nat == 0) by (nonlinear_arith)
                    requires
                        q == 0,
                ;
            } else {
                lemma_step(s@, k as int);
            }
            assert(numerator(s@.take(k + 1)) == a as nat * p as nat + p_prev as nat);
            assert(denominator(s@.take(k + 1)) == a as nat * q as nat + q_prev as nat);
        }
        let next_p = match a.checked_mul(p) {
            Some(ap) => ap.checked_add(p_prev),
            None => None,
        };
        let next_q = match a.checked_mul(q) {
            Some(aq) => aq.checked_add(q_prev),
            None => None,
        };
        match (next_p, next_q) {
            (Some(np), Some(nq)) => {
                p_prev = p;
                q_prev = q;
                p = np;
                q = nq;
                k = k + 1;
            },
            _ => {
                proof {
                    assert(a as nat * p as nat <= numerator(s@.take(k + 1))) by (nonlinear_arith)
                        requires
                            numerator(s@.take(k + 1)) == a as nat * p as nat + p_prev as nat,
                    ;
                    assert(a as nat * q as nat <= denominator(s@.take(k + 1))) by (nonlinear_arith)
                        requires
                            denominator(s@.take(k + 1)) == a as nat * q as nat + q_prev as nat,
                    ;
                    assert(!(numerator(s@.take(k + 1)) <= u64::MAX && denominator(s@.take(k + 1))
                        <= u64::MAX));
                }
                return None;
            },
        }
    }
    assert(s@.take(k as int) =~= s@);
    Some((p, q))
}

/// The convergent `(p, q)` of the coefficients in `vec`: the numerator and
/// denominator that the continued fraction `[vec[0]; vec[1], ...]` reduces
/// to, without reduction to lowest terms.
pub fn find_convergents(vec: &[u64]) -> (r: (u64, u64))
    requires
        convergents_fit(vec@),
    ensures
        r.0 == numerator(vec@),
        r.1 == denominator(vec@),
{
    match checked_convergents(vec) {
        Some(pq) => pq,
        None => (0, 0),
    }
}

} // verus!
