use vstd::prelude::*;

verus! {

/// `2` raised to the power `k`.
pub open spec fn pow2(k: nat) -> nat
    decreases k,
{
    if k == 0 {
        1
    } else {
        2 * pow2((k - 1) as nat)
    }
}

/// How far `capacity` still is from `required` (zero once it is reached): the measure
/// that each doubling lowers.
pub open spec fn doubling_gap(capacity: nat, required: nat) -> nat {
    if capacity < required {
        (required - capacity) as nat
    } else {
        0
    }
}

/// The capacity reached by doubling `capacity` until it holds `required` items.
/// A capacity that already holds them is kept as it is.
pub open spec fn grown(capacity: nat, required: nat) -> nat
    decreases doubling_gap(capacity, required),
{
    if capacity == 0 || capacity >= required {
        capacity
    } else {
        grown(2 * capacity, required)
    }
}

/// `r` is `capacity` doubled some number of times.
pub open spec fn is_doubling_of(capacity: nat, r: nat) -> bool {
    exists|k: nat| r == capacity * pow2(k)
}

/// Returns the capacity an instance buffer must have to hold `required` instances:
/// `capacity` itself if it is enough, else `capacity` doubled until it is. Growing is
/// only asked for counts that fit in half the address space, as every count of
/// allocated items does.
pub fn grown_capacity(capacity: usize, required: usize) -> (r: usize)
    requires
        capacity > 0,
        required <= capacity || required <= usize::MAX / 2,
    ensures
        r == grown(capacity as nat, required as nat),
{
    proof {
        lemma_grown_bound(capacity as nat, required as nat);
    }
    let mut c: usize = capacity;
    while c < required
        invariant
            c > 0,
            grown(c as nat, required as nat) == grown(capacity as nat, required as nat),
            grown(capacity as nat, required as nat) <= usize::MAX,
        decreases doubling_gap(c as nat, required as nat),
    {
        proof {
            lemma_grown_at_least(2 * c as nat, required as nat);
        }
        c = c * 2;
    }
    c
}

/// Growing never lowers a capacity.
pub proof fn lemma_grown_at_least(capacity: nat, required: nat)
    ensures
        grown(capacity, required) >= capacity,
    decreases doubling_gap(capacity, required),
{
    if capacity != 0 && capacity < required {
        lemma_grown_at_least(2 * capacity, required);
    }
}

/// A positive capacity grown to hold `required` items is at most twice `required`,
/// unless it was already larger.
pub proof fn lemma_grown_bound(capacity: nat, required: nat)
    requires
        capacity > 0,
    ensures
        grown(capacity, required) <= capacity || grown(capacity, required) < 2 * required,
    decreases doubling_gap(capacity, required),
{
    if capacity < required {
        lemma_grown_bound(2 * capacity, required);
    }
}

/// Growing a positive capacity `c` to hold `n` items yields the smallest power-of-two
/// multiple of `c` that is at least `n`.
pub proof fn lemma_grown_is_smallest_doubling(c: nat, n: nat)
    requires
        c > 0,
    ensures
        is_doubling_of(c, grown(c, n)),
        grown(c, n) >= n,
        forall|k: nat| #[trigger] (c * pow2(k)) >= n ==> grown(c, n) <= c * pow2(k),
    decreases doubling_gap(c, n),
{
    if c >= n {
        assert(pow2(0) == 1);
        assert(c == c * pow2(0));
        assert forall|k: nat| #[trigger] (c * pow2(k)) >= n implies grown(c, n) <= c * pow2(k) by {
            lemma_pow2_positive(k);
            assert(c <= c * pow2(k)) by (nonlinear_arith)
                requires
                    pow2(k) >= 1,
            ;
        }
    } else {
        lemma_grown_is_smallest_doubling(2 * c, n);
        let g = grown(c, n);
        let k0 = choose|k: nat| g == (2 * c) * pow2(k);
        assert(g == c * pow2(k0 + 1)) by (nonlinear_arith)
            requires
                g == (2 * c) * pow2(k0),
                pow2(k0 + 1) == 2 * pow2(k0),
        ;
        assert forall|k: nat| #[trigger] (c * pow2(k)) >= n implies g <= c * pow2(k) by {
            if k == 0 {
                assert(pow2(0) == 1);
            } else {
                let j = (k - 1) as nat;
                assert(c * pow2(k) == (2 * c) * pow2(j)) by (nonlinear_arith)
                    requires
                        pow2(k) == 2 * pow2(j),
                ;
            }
        }
    }
}

/// `2^k` is positive.
pub proof fn lemma_pow2_positive(k: nat)
    ensures
        pow2(k) >= 1,
    decreases k,
{
    if k > 0 {
        lemma_pow2_positive((k - 1) as nat);
    }
}

/// Successive growth requests never shrink a capacity, and a request for no more items
/// than an earlier one leaves the capacity that the earlier one produced unchanged.
pub proof fn lemma_grown_monotone(c: nat, n: nat, m: nat)
    requires
        c > 0,
    ensures
        grown(grown(c, n), m) >= grown(c, n),
        grown(c, n) >= c,
        m <= n ==> grown(grown(c, n), m) == grown(c, n),
{
    lemma_grown_at_least(c, n);
    lemma_grown_at_least(grown(c, n), m);
    lemma_grown_is_smallest_doubling(c, n);
}

} // verus!
