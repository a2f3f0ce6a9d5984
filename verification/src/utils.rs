//! Index arithmetic for the circular buffer: reduction from the extended
//! index domain to physical slots, cyclic distance, and the projection of a
//! half-open range of positions onto at most two linear storage ranges.

use vstd::prelude::*;

verus! {

/// Reduces `x` into `[0, m)`, assuming `0 <= x < 2 * m`.
pub open spec fn wrap_at(x: int, m: int) -> int {
    if x >= m {
        x - m
    } else {
        x
    }
}

/// Distance from `a` forward to `b` in a cyclic domain of size `m`,
/// assuming both lie in `[0, m)`.
pub open spec fn cyc_dist(a: int, b: int, m: int) -> int {
    if b >= a {
        b - a
    } else {
        b + m - a
    }
}

/// The extended-domain position reached from `i` after advancing by `k`,
/// for a buffer of capacity `c` (the extended domain has size `2 * c`).
pub open spec fn ext_next(i: int, k: int, c: int) -> int {
    if i + k >= 2 * c {
        i + k - 2 * c
    } else {
        i + k
    }
}

/// The physical slots covered by the range of `count` positions starting at
/// extended-domain position `start`, in order.
pub open spec fn projected(cap: int, start: int, count: int) -> Seq<int> {
    Seq::new(count as nat, |i: int| wrap_at(wrap_at(start, cap) + i, cap))
}

/// Cyclic distance from `p` to the slot `k` positions past `p` is `k`.
pub proof fn lemma_cyc_dist_of_wrap(p: int, k: int, c: int)
    requires
        1 <= c,
        0 <= p < c,
        0 <= k < c,
    ensures
        cyc_dist(p, wrap_at(p + k, c), c) == k,
{
}

/// Cyclic advance composes: stepping by `a` and then by `b` is stepping by
/// `a + b`, as long as `a + b` does not exceed a full lap.
pub proof fn lemma_wrap_add(p: int, a: int, b: int, c: int)
    requires
        1 <= c,
        0 <= p < c,
        0 <= a,
        0 <= b,
        a + b <= c,
    ensures
        p + a + b >= c ==> wrap_at(wrap_at(p + a, c) + b, c) == p + a + b - c,
        p + a + b < c ==> wrap_at(wrap_at(p + a, c) + b, c) == p + a + b,
{
}

/// Computes the two linear storage ranges covered by `count` consecutive
/// positions starting at extended-domain position `start`, splitting exactly
/// where the range wraps past the end of storage. The second range is empty
/// when no wrap occurs; together the two ranges list exactly the physical
/// slots of the projected positions, in order.
pub fn ranges(capacity: usize, start: usize, count: usize) -> (r: ((usize, usize), (usize, usize)))
    requires
        1 <= capacity,
        2 * capacity <= usize::MAX,
        start < 2 * capacity,
        count <= capacity,
    ensures
        r.0.0 <= r.0.1 <= capacity,
        r.1.0 == 0,
        r.1.1 <= r.0.0,
        (r.0.1 - r.0.0) + (r.1.1 - r.1.0) == count,
        forall|i: int|
            0 <= i < r.0.1 - r.0.0 ==> #[trigger] projected(capacity as int, start as int, count as int)[i] == r.0.0 + i,
        forall|i: int|
            0 <= i < r.1.1 - r.1.0 ==> #[trigger] projected(capacity as int, start as int, count as int)[(r.0.1 - r.0.0) + i] == r.1.0 + i,
{
    let pstart = if start >= capacity {
        start - capacity
    } else {
        start
    };
    if count <= capacity - pstart {
        ((pstart, pstart + count), (0, 0))
    } else {
        ((pstart, capacity), (0, count - (capacity - pstart)))
    }
}

} // verus!
