//! The least amount of fuel that a computation needs.
use vstd::prelude::*;

verus! {

/// The least `n` with `p(n)`, where there is one.
pub open spec fn least(p: spec_fn(nat) -> bool) -> nat {
    choose|n: nat| #[trigger] p(n) && forall|m: nat| m < n ==> !#[trigger] p(m)
}

/// Where `p` holds somewhere, it holds at `least(p)`, and nowhere below it.
pub proof fn lemma_least(p: spec_fn(nat) -> bool, n: nat)
    requires
        p(n),
    ensures
        p(least(p)),
        least(p) <= n,
        forall|m: nat| m < least(p) ==> !#[trigger] p(m),
{
    lemma_least_exists(p, n);
    let l = least(p);
    if l > n {
        assert(!p(n));
    }
}

proof fn lemma_least_exists(p: spec_fn(nat) -> bool, n: nat)
    requires
        p(n),
    ensures
        exists|k: nat| #[trigger] p(k) && forall|m: nat| m < k ==> !#[trigger] p(m),
    decreases n,
{
    if exists|m: nat| m < n && #[trigger] p(m) {
        let m = choose|m: nat| m < n && #[trigger] p(m);
        lemma_least_exists(p, m);
    } else {
        assert(p(n) && forall|m: nat| m < n ==> !#[trigger] p(m));
    }
}

} // verus!
