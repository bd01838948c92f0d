//! Small facts about `%` on rolling counters, shared by the transport
//! primitives: both the latest-value register and the bounded ring step
//! their sequence counters modulo a fixed bound.

use vstd::arithmetic::div_mod::{
    lemma_add_mod_noop, lemma_mod_equivalence, lemma_mod_self_0, lemma_small_mod,
};
use vstd::prelude::*;

verus! {

/// Taking `% m` of a value already reduced modulo `m` and stepped by one
/// is the same as stepping first and reducing once.
pub(crate) proof fn lemma_mod_step(x: int, m: int)
    requires
        m >= 2,
        x >= 0,
    ensures
        (x % m + 1) % m == (x + 1) % m,
{
    lemma_small_mod(1nat, m as nat);
    lemma_add_mod_noop(x, 1, m);
}

/// Within the half-open window `[1, m]`, only `m` itself reduces to zero.
pub(crate) proof fn lemma_mod_zero_in_window(e: int, m: int)
    requires
        1 <= e <= m,
    ensures
        (e % m == 0) <==> (e == m),
{
    if e == m {
        lemma_mod_self_0(m);
    } else {
        lemma_small_mod(e as nat, m as nat);
    }
}

/// Two values less than `m` apart have equal residues only when equal.
pub(crate) proof fn lemma_mod_ne_in_window(a: int, b: int, m: int)
    requires
        m >= 1,
        0 <= a <= b,
        b - a < m,
    ensures
        (a % m == b % m) <==> (a == b),
{
    lemma_mod_equivalence(b, a, m);
    lemma_small_mod((b - a) as nat, m as nat);
}

} // verus!
