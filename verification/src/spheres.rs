//! How the GPU storage for the sphere list is sized and when it must grow.

use vstd::prelude::*;
use vstd::arithmetic::power::pow;
use vstd::arithmetic::power2::{is_pow2, is_pow2_equiv, pow2};

verus! {

/// `n` is a power of two.
pub open spec fn is_power_of_two(n: nat) -> bool
    decreases n,
{
    if n == 0 {
        false
    } else if n == 1 {
        true
    } else {
        n % 2 == 0 && is_power_of_two(n / 2)
    }
}

/// The recursive definition agrees with the one of vstd.
proof fn lemma_power_of_two_agrees(n: nat)
    ensures
        is_power_of_two(n) == is_pow2(n as int),
    decreases n,
{
    reveal(is_pow2);
    if n > 1 {
        lemma_power_of_two_agrees(n / 2);
    }
}

/// `n` is a power of two exactly when it is `2^k` for some `k`.
pub proof fn lemma_power_of_two_is_a_power(n: nat)
    ensures
        is_power_of_two(n) <==> exists|k: nat| #[trigger] pow2(k) == n,
{
    lemma_power_of_two_agrees(n);
    is_pow2_equiv(n as int);
    if is_power_of_two(n) {
        let k = choose|i: nat| pow(2, i) == n as int;
        assert(pow2(k) == n);
    }
    if exists|k: nat| #[trigger] pow2(k) == n {
        let k = choose|k: nat| #[trigger] pow2(k) == n;
        vstd::arithmetic::power::lemma_pow_positive(2, k);
        assert(pow(2, k) == n as int);
    }
}

/// `p` is the smallest power of two that is at least `n`.
pub open spec fn is_next_power_of_two(n: nat, p: nat) -> bool {
    &&& is_power_of_two(p)
    &&& n <= p
    &&& p == 1 || p / 2 < n
}

/// The smallest power of two that is at least `n` (1 for 0).
/// The result must fit: `n` is at most `usize::MAX / 2 + 1`, the largest
/// power of two of `usize`.
pub fn next_power_of_two(n: usize) -> (p: usize)
    requires
        n <= usize::MAX / 2 + 1,
    ensures
        is_next_power_of_two(n as nat, p as nat),
        exists|k: nat| #[trigger] pow2(k) == p,
        n <= p,
        p == 1 || p < 2 * n,
{
    let mut p: usize = 1;
    while p < n
        invariant
            n <= usize::MAX / 2 + 1,
            1 <= p,
            is_power_of_two(p as nat),
            p == 1 || p / 2 < n,
        decreases usize::MAX - p,
    {
        assert(is_power_of_two((p * 2) as nat));
        p = p * 2;
    }
    proof {
        lemma_power_of_two_is_a_power(p as nat);
    }
    p
}

/// Of two powers of two, `b` is at least `a` as soon as it exceeds `a / 2`.
proof fn lemma_power_of_two_above_half(a: nat, b: nat)
    requires
        is_power_of_two(a),
        is_power_of_two(b),
        a / 2 < b,
    ensures
        a <= b,
    decreases a,
{
    if a > 1 && b > 1 {
        let a2 = a / 2;
        let b2 = b / 2;
        if a2 > 1 {
            lemma_power_of_two_above_half(a2, b2);
        }
    }
}

/// No power of two that holds `n` is smaller than the next power of two of `n`.
pub proof fn lemma_next_power_of_two_is_least(n: nat, p: nat, q: nat)
    requires
        is_next_power_of_two(n, p),
        is_power_of_two(q),
        n <= q,
    ensures
        p <= q,
{
    if p > 1 {
        lemma_power_of_two_above_half(p, q);
    }
}

/// The next power of two of `n` is unique.
pub proof fn lemma_next_power_of_two_unique(n: nat, p: nat, q: nat)
    requires
        is_next_power_of_two(n, p),
        is_next_power_of_two(n, q),
    ensures
        p == q,
{
    lemma_next_power_of_two_is_least(n, p, q);
    lemma_next_power_of_two_is_least(n, q, p);
}


/// How many spheres the GPU storage buffer has room for, and whether the bind
/// group that points at that buffer must be rebuilt.
pub struct SphereCapacity {
    /// Number of spheres the current storage buffer holds.
    pub capacity: usize,
    /// Set when the storage buffer was (re)created since the bind group was built.
    pub needs_bind_group_update: bool,
}

/// Room for `count` spheres when the storage is first made: a buffer is never
/// empty, so at least one.
pub open spec fn spec_initial_capacity(count: nat) -> nat {
    if count > 1 {
        count
    } else {
        1
    }
}

/// The step of `update` from `old` on `count` spheres to `new`, where
/// `reallocate` says whether a new storage buffer is made: when the spheres
/// no longer fit, the capacity becomes the next power of two of the count and
/// the bind group must be rebuilt; otherwise nothing changes.
pub open spec fn update_step(old: SphereCapacity, count: nat, new: SphereCapacity, reallocate: bool) -> bool {
    if count > old.capacity {
        &&& reallocate
        &&& is_next_power_of_two(count, new.capacity as nat)
        &&& new.needs_bind_group_update
    } else {
        &&& !reallocate
        &&& new == old
    }
}

impl SphereCapacity {
    /// A buffer always has room for at least one sphere.
    pub open spec fn wf(self) -> bool {
        self.capacity >= 1
    }

    /// The capacity of a new sphere world of `count` spheres: room for all of
    /// them and at least one, with the bind group still to be built.
    pub fn new(count: usize) -> (s: Self)
        ensures
            s.capacity == spec_initial_capacity(count as nat),
            s.needs_bind_group_update,
            s.wf(),
            s.capacity >= count,
            s.capacity >= 1,
            count >= 1 ==> s.capacity == count,
    {
        let capacity = if count > 1 {
            count
        } else {
            1
        };
        SphereCapacity { capacity, needs_bind_group_update: true }
    }

    /// Makes room for `count` spheres before they are written to the GPU.
    /// Returns whether the storage buffer must be made anew, with room for
    /// `self.capacity` spheres.
    pub fn update(&mut self, count: usize) -> (reallocate: bool)
        requires
            count > old(self).capacity ==> count <= usize::MAX / 2 + 1,
        ensures
            update_step(*old(self), count as nat, *final(self), reallocate),
            reallocate <==> count > old(self).capacity,
            !reallocate ==> *final(self) == *old(self),
            reallocate ==> {
                &&& final(self).needs_bind_group_update
                &&& count <= final(self).capacity < 2 * count
                &&& exists|k: nat| #[trigger] pow2(k) == final(self).capacity
            },
    {
        if count > self.capacity {
            self.capacity = next_power_of_two(count);
            self.needs_bind_group_update = true;
            proof {
                lemma_power_of_two_is_a_power(self.capacity as nat);
            }
            true
        } else {
            false
        }
    }

    /// Like `update`, but returns `None`, with `self` unchanged, when the
    /// next power of two of `count` overflows `usize`.
    pub fn try_update(&mut self, count: usize) -> (reallocate: Option<bool>)
        ensures
            reallocate is None <==> (count > old(self).capacity && count > usize::MAX / 2 + 1),
            reallocate is None ==> *final(self) == *old(self),
            reallocate matches Some(r) ==> update_step(*old(self), count as nat, *final(self), r),
    {
        if count > self.capacity && count > usize::MAX / 2 + 1 {
            None
        } else {
            Some(self.update(count))
        }
    }

    /// Size in bytes of a storage buffer with room for `self.capacity`
    /// spheres of `element_size` bytes each.
    pub fn buffer_size(&self, element_size: usize) -> (size: u64)
        requires
            self.capacity * element_size <= usize::MAX,
        ensures
            size == self.capacity * element_size,
    {
        (self.capacity * element_size) as u64
    }
}

/// The first storage buffer has room for every sphere it is made for, and for
/// no more than that unless there are none: it holds exactly `max(count, 1)`.
pub proof fn lemma_initial_capacity_holds_all(count: nat)
    ensures
        spec_initial_capacity(count) >= count,
        spec_initial_capacity(count) >= 1,
        count >= 1 ==> spec_initial_capacity(count) == count,
        count == 0 ==> spec_initial_capacity(count) == 1,
{
}

/// After an update the buffer has room for every sphere, its capacity never
/// shrinks, the state stays well formed, a grown buffer is less than twice
/// the count, a new buffer always asks for a new bind group, and a pending
/// bind-group rebuild is never dropped.
pub proof fn lemma_update_holds_all(old: SphereCapacity, count: nat, new: SphereCapacity, reallocate: bool)
    requires
        old.wf(),
        update_step(old, count, new, reallocate),
    ensures
        new.capacity >= count,
        new.capacity >= old.capacity,
        new.wf(),
        reallocate ==> new.capacity < 2 * count,
        reallocate ==> new.needs_bind_group_update,
        old.needs_bind_group_update ==> new.needs_bind_group_update,
{
}

/// A grown buffer has room for `2^k` spheres, the least power of two that
/// holds them all: `2^(k-1) < count <= 2^k`.
pub proof fn lemma_grown_capacity_is_least_power(old: SphereCapacity, count: nat, new: SphereCapacity)
    requires
        update_step(old, count, new, true),
    ensures
        exists|k: nat| #[trigger] pow2(k) == new.capacity,
        count <= new.capacity,
        forall|k: nat| count <= #[trigger] pow2(k) ==> new.capacity <= pow2(k),
{
    lemma_power_of_two_is_a_power(new.capacity as nat);
    assert forall|k: nat| count <= #[trigger] pow2(k) implies new.capacity <= pow2(k) by {
        lemma_power_of_two_is_a_power(pow2(k));
        lemma_next_power_of_two_is_least(count, new.capacity as nat, pow2(k));
    }
}

/// An update on a count that the capacity already holds changes nothing, so
/// a second update on the same count never reallocates.
pub proof fn lemma_update_idempotent(
    s0: SphereCapacity,
    count: nat,
    s1: SphereCapacity,
    r1: bool,
    s2: SphereCapacity,
    r2: bool,
)
    requires
        s0.wf(),
        update_step(s0, count, s1, r1),
        update_step(s1, count, s2, r2),
    ensures
        !r2,
        s2 == s1,
{
}

/// The next state of an update is determined by the old state and the count.
pub proof fn lemma_update_deterministic(
    old: SphereCapacity,
    count: nat,
    s1: SphereCapacity,
    r1: bool,
    s2: SphereCapacity,
    r2: bool,
)
    requires
        update_step(old, count, s1, r1),
        update_step(old, count, s2, r2),
    ensures
        s1 == s2,
        r1 == r2,
{
    if count > old.capacity {
        lemma_next_power_of_two_unique(count, s1.capacity as nat, s2.capacity as nat);
    }
}

} // verus!
