//! How the capacity of a growable sequence grows: from nothing to 4 slots,
//! and from there by doubling until the need is met.
use vstd::prelude::*;

verus! {

/// How far `cap` is from `need`, or zero where it has reached it.
pub open spec fn shortfall(cap: nat, need: nat) -> nat {
    if cap < need {
        (need - cap) as nat
    } else {
        0
    }
}

/// `cap` doubled until it is at least `need`. Nothing doubles zero.
pub open spec fn doubled_until(cap: nat, need: nat) -> nat
    decreases shortfall(cap, need),
{
    if cap == 0 || cap >= need {
        cap
    } else {
        doubled_until(2 * cap, need)
    }
}

/// The capacity of a growable sequence of capacity `cap` once it has room
/// for `need` elements: `cap` where that is enough, else `cap` doubled until
/// it is, starting from 4 where `cap` is zero.
pub open spec fn grown_capacity(cap: nat, need: nat) -> nat {
    if cap >= need {
        cap
    } else if cap == 0 {
        doubled_until(4, need)
    } else {
        doubled_until(cap, need)
    }
}

/// Doubling reaches the need and passes through each double on the way.
pub proof fn lemma_doubled_until(cap: nat, need: nat)
    requires
        cap > 0,
    ensures
        doubled_until(cap, need) >= cap,
        doubled_until(cap, need) >= need,
        cap < need ==> doubled_until(cap, need) == doubled_until(2 * cap, need) && 2 * cap
            <= doubled_until(cap, need),
    decreases shortfall(cap, need),
{
    if cap < need {
        lemma_doubled_until(2 * cap, need);
    }
}

/// A need that the doubled capacity exceeds can grow by one and changes
/// nothing.
pub proof fn lemma_doubled_until_has_room(cap: nat, need: nat)
    requires
        cap > 0,
        doubled_until(cap, need) > need,
    ensures
        doubled_until(cap, need + 1) == doubled_until(cap, need),
    decreases shortfall(cap, need),
{
    if cap < need {
        lemma_doubled_until_has_room(2 * cap, need);
    }
}

/// A need that the doubled capacity meets exactly takes one more doubling
/// when it grows by one.
pub proof fn lemma_doubled_until_is_full(cap: nat, need: nat)
    requires
        cap > 0,
        doubled_until(cap, need) == need,
    ensures
        doubled_until(cap, need + 1) == 2 * need,
    decreases shortfall(cap, need),
{
    if cap < need {
        lemma_doubled_until(2 * cap, need);
        lemma_doubled_until_is_full(2 * cap, need);
    } else {
        assert(doubled_until(2 * cap, need + 1) == 2 * cap);
    }
}

/// A greater need is met by no smaller capacity.
pub proof fn lemma_doubled_until_grows_with_need(cap: nat, less: nat, need: nat)
    requires
        cap > 0,
        less <= need,
    ensures
        doubled_until(cap, less) <= doubled_until(cap, need),
    decreases shortfall(cap, need),
{
    lemma_doubled_until(cap, need);
    if cap < need {
        lemma_doubled_until(2 * cap, need);
        if cap < less {
            lemma_doubled_until_grows_with_need(2 * cap, less, need);
        }
    }
}

/// A greater need is met by no smaller grown capacity.
pub proof fn lemma_grown_capacity_grows_with_need(cap: nat, less: nat, need: nat)
    requires
        less <= need,
    ensures
        grown_capacity(cap, less) <= grown_capacity(cap, need),
        grown_capacity(cap, less) >= less,
        grown_capacity(cap, less) >= cap,
{
    lemma_doubled_until(4, need);
    lemma_doubled_until(4, less);
    lemma_doubled_until_grows_with_need(4, less, need);
    if cap > 0 {
        lemma_doubled_until(cap, need);
        lemma_doubled_until(cap, less);
        lemma_doubled_until_grows_with_need(cap, less, need);
    }
}

/// The capacity of a sequence of `len` elements and capacity `cap` after a
/// push: as it was while a slot is free, else 4 where it was zero, else twice
/// what it was.
pub open spec fn capacity_after_push(cap: nat, len: nat) -> nat {
    if len < cap {
        cap
    } else if cap == 0 {
        4
    } else {
        2 * cap
    }
}

/// The capacity of a sequence that was empty and without a block after `n`
/// pushes.
pub open spec fn capacity_after_pushes(n: nat) -> nat
    decreases n,
{
    if n == 0 {
        0
    } else {
        capacity_after_push(capacity_after_pushes((n - 1) as nat), (n - 1) as nat)
    }
}

/// Room for one element more is what a push makes: the capacity that holds
/// `need + 1` elements is the capacity that holds `need` elements after a
/// push onto those `need`.
pub proof fn law_reserve_one_more_is_push(cap: nat, need: nat)
    ensures
        grown_capacity(cap, need + 1) == capacity_after_push(grown_capacity(cap, need), need),
{
    lemma_doubled_until(4, need);
    lemma_doubled_until(4, 4);
    if cap > 0 {
        lemma_doubled_until(cap, need);
        lemma_doubled_until(2 * cap, need + 1);
    }
    if cap < need {
        let start: nat = if cap == 0 {
            4
        } else {
            cap
        };
        if doubled_until(start, need) > need {
            lemma_doubled_until_has_room(start, need);
        } else {
            lemma_doubled_until_is_full(start, need);
        }
    } else if cap == need {
        if cap == 0 {
            assert(doubled_until(4, 1) == 4);
        } else {
            assert(doubled_until(cap, cap + 1) == doubled_until(2 * cap, cap + 1));
        }
    }
}

/// Pushed onto from empty, a sequence has the capacities 0, 4, 8, 16 and so
/// on: after `n` pushes, the first of 4, 8, 16, ... that holds `n` elements.
pub proof fn law_pushes_double_capacity(n: nat)
    requires
        n > 0,
    ensures
        capacity_after_pushes(n) == doubled_until(4, n),
        capacity_after_pushes(n) >= n,
        capacity_after_pushes(n) == grown_capacity(0, n),
    decreases n,
{
    lemma_doubled_until(4, n);
    if n == 1 {
        assert(capacity_after_pushes(0) == 0);
    } else {
        let m = (n - 1) as nat;
        law_pushes_double_capacity(m);
        lemma_doubled_until(4, m);
        if doubled_until(4, m) > m {
            lemma_doubled_until_has_room(4, m);
        } else {
            lemma_doubled_until_is_full(4, m);
        }
    }
}

/// The grown capacity is no tight fit and no leap: it holds the need, and
/// where the block had to grow from a capacity of its own, half of it would
/// not have held the need.
pub proof fn law_growth_stops_at_first_fit(cap: nat, need: nat)
    requires
        0 < cap < need,
    ensures
        grown_capacity(cap, need) >= need,
        grown_capacity(cap, need) < 2 * need,
    decreases shortfall(cap, need),
{
    lemma_doubled_until(cap, need);
    if 2 * cap < need {
        law_growth_stops_at_first_fit(2 * cap, need);
    }
}

} // verus!
