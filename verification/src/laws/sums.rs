//! Totals, and what is left of them in a number that cannot grow without end.

use crate::transfer::capped_sum;
use vstd::prelude::*;

verus! {

/// What numbers add up to.
pub open spec fn total(ns: Seq<u64>) -> nat
    decreases ns.len(),
{
    if ns.len() == 0 {
        0
    } else {
        total(ns.drop_last()) + ns.last() as nat
    }
}

/// A number, or the largest there is room for.
pub open spec fn capped(n: nat) -> u64 {
    if n > u64::MAX {
        u64::MAX
    } else {
        n as u64
    }
}

/// A number, or zero where there is none.
pub open spec fn number(n: Option<u64>) -> u64 {
    if n is Some {
        n->0
    } else {
        0
    }
}

/// How many numbers there are among values that may hold one.
pub open spec fn how_many(flags: Seq<bool>) -> nat
    decreases flags.len(),
{
    if flags.len() == 0 {
        0
    } else {
        how_many(flags.drop_last()) + if flags.last() {
            1nat
        } else {
            0nat
        }
    }
}

/// Adding to a capped total caps the larger one.
pub proof fn lemma_capped_sum(n: nat, m: u64)
    ensures
        capped_sum(capped(n), m) == capped(n + m as nat),
{
}

/// No number is larger than what it is added to.
pub proof fn lemma_total_covers(ns: Seq<u64>, i: int)
    requires
        0 <= i < ns.len(),
    ensures
        ns[i] <= total(ns),
    decreases ns.len(),
{
    if i < ns.len() - 1 {
        lemma_total_covers(ns.drop_last(), i);
    }
}

/// There are never more of some than of all; and there are none exactly where no value is one.
pub proof fn lemma_how_many(flags: Seq<bool>)
    ensures
        how_many(flags) <= flags.len(),
        how_many(flags) == 0 <==> forall|i: int| 0 <= i < flags.len() ==> !#[trigger] flags[i],
    decreases flags.len(),
{
    if flags.len() > 0 {
        let rest = flags.drop_last();
        lemma_how_many(rest);
        if how_many(flags) == 0 {
            assert forall|i: int| 0 <= i < flags.len() implies !#[trigger] flags[i] by {
                if i < rest.len() {
                    assert(rest[i] == flags[i]);
                }
            }
        }
        if forall|i: int| 0 <= i < flags.len() ==> !#[trigger] flags[i] {
            assert forall|i: int| 0 <= i < rest.len() implies !#[trigger] rest[i] by {
                assert(rest[i] == flags[i]);
            }
            assert(!flags[flags.len() - 1]);
        }
    }
}

} // verus!
