//! The connection governor: a counted pool of permits that bounds how many
//! probes have a network call outstanding at once.

use vstd::prelude::*;

verus! {

/// One step in the life of a pool.
#[derive(Clone, Copy, Debug, PartialEq, Eq, Structural)]
pub enum PoolOp {
    /// A probe asks for a permit.
    Acquire,
    /// A probe that ended gives its permit back.
    Release,
}

/// Permits out after one more step: a permit is handed out only while fewer
/// than `capacity` are out, and handing one back when none is out changes
/// nothing.
pub open spec fn pool_step(capacity: nat, in_use: nat, op: PoolOp) -> nat {
    match op {
        PoolOp::Acquire => if in_use < capacity {
            in_use + 1
        } else {
            in_use
        },
        PoolOp::Release => if in_use > 0 {
            (in_use - 1) as nat
        } else {
            0
        },
    }
}

/// Permits out after a run of steps on a fresh pool.
pub open spec fn pool_after(capacity: nat, ops: Seq<PoolOp>) -> nat
    decreases ops.len(),
{
    if ops.len() == 0 {
        0
    } else {
        pool_step(capacity, pool_after(capacity, ops.drop_last()), ops.last())
    }
}

/// Whatever the probes do and in whatever order, at no moment are more
/// permits out than the pool has.
pub proof fn lemma_pool_never_exceeds(capacity: nat, ops: Seq<PoolOp>)
    ensures
        forall|k: int| 0 <= k <= ops.len() ==> #[trigger] pool_after(capacity, ops.take(k)) <= capacity,
{
    assert forall|k: int| 0 <= k <= ops.len() implies #[trigger] pool_after(capacity, ops.take(k))
        <= capacity by {
        lemma_pool_bounded(capacity, ops.take(k));
    }
}

proof fn lemma_pool_bounded(capacity: nat, ops: Seq<PoolOp>)
    ensures
        pool_after(capacity, ops) <= capacity,
    decreases ops.len(),
{
    if ops.len() > 0 {
        lemma_pool_bounded(capacity, ops.drop_last());
    }
}

/// A pool of `capacity` permits.
#[derive(Debug)]
pub struct PermitPool {
    capacity: usize,
    in_use: usize,
}

impl PermitPool {
    #[verifier::type_invariant]
    spec fn within_capacity(self) -> bool {
        self.in_use <= self.capacity
    }

    pub closed spec fn spec_capacity(&self) -> usize {
        self.capacity
    }

    pub closed spec fn spec_in_use(&self) -> usize {
        self.in_use
    }

    /// A pool with every permit in.
    pub fn new(capacity: usize) -> (pool: PermitPool)
        ensures
            pool.capacity() == capacity,
            pool.in_use() == 0,
    {
        PermitPool { capacity, in_use: 0 }
    }

    #[verifier::when_used_as_spec(spec_capacity)]
    pub fn capacity(&self) -> (r: usize)
        ensures
            r == self.spec_capacity(),
    {
        self.capacity
    }

    /// Number of permits that are out; never more than the capacity.
    #[verifier::when_used_as_spec(spec_in_use)]
    pub fn in_use(&self) -> (r: usize)
        ensures
            r == self.spec_in_use(),
            r <= self.capacity(),
    {
        proof {
            use_type_invariant(self);
        }
        self.in_use
    }

    /// Takes a permit if one is in. The caller that gets none waits and asks
    /// again.
    pub fn try_acquire(&mut self) -> (granted: bool)
        ensures
            granted == (old(self).in_use() < old(self).capacity()),
            final(self).capacity() == old(self).capacity(),
            final(self).in_use() == pool_step(
                old(self).capacity() as nat,
                old(self).in_use() as nat,
                PoolOp::Acquire,
            ),
            final(self).in_use() <= final(self).capacity(),
    {
        proof {
            use_type_invariant(&*self);
        }
        if self.in_use < self.capacity {
            self.in_use = self.in_use + 1;
            true
        } else {
            false
        }
    }

    /// Gives a permit back.
    pub fn release(&mut self)
        ensures
            final(self).capacity() == old(self).capacity(),
            final(self).in_use() == pool_step(
                old(self).capacity() as nat,
                old(self).in_use() as nat,
                PoolOp::Release,
            ),
            final(self).in_use() <= final(self).capacity(),
    {
        proof {
            use_type_invariant(&*self);
        }
        if self.in_use > 0 {
            self.in_use = self.in_use - 1;
        }
    }
}

} // verus!
