//! Counting permits, as the two download semaphores grant them. A counter
//! can be resized while tasks are in flight: new room is available at once,
//! removed room disappears only as holders release.
use vstd::prelude::*;

verus! {

pub struct PermitCounter {
    pub limit: u32,
    pub held: u32,
}

impl PermitCounter {
    /// In a counter that was never shrunk below its holders, the holders
    /// never exceed the limit.
    pub open spec fn wf(self) -> bool {
        self.held <= self.limit
    }

    pub fn new(limit: u32) -> (r: PermitCounter)
        ensures
            r.wf(),
            r.limit == limit,
            r.held == 0,
    {
        PermitCounter { limit, held: 0 }
    }

    /// Grant a permit when room is left; never blocks.
    pub fn try_acquire(&mut self) -> (granted: bool)
        ensures
            granted == (old(self).held < old(self).limit),
            granted ==> final(self).held == old(self).held + 1,
            !granted ==> final(self).held == old(self).held,
            final(self).limit == old(self).limit,
            old(self).wf() ==> final(self).wf(),
    {
        if self.held < self.limit {
            self.held = self.held + 1;
            true
        } else {
            false
        }
    }

    /// A holder finished.
    pub fn release(&mut self)
        requires
            old(self).held > 0,
        ensures
            final(self).held == old(self).held - 1,
            final(self).limit == old(self).limit,
            old(self).wf() ==> final(self).wf(),
    {
        self.held = self.held - 1;
    }

    /// Change the limit without draining holders: the holders keep their
    /// permits even when the new limit lies below them.
    pub fn resize(&mut self, limit: u32)
        ensures
            final(self).limit == limit,
            final(self).held == old(self).held,
    {
        self.limit = limit;
    }
}

/// The permit operations, abstractly, for stating the concurrency cap over
/// whole histories.
pub enum PermitOp {
    Acquire,
    Release,
    Resize { limit: u32 },
}

/// The state reached from `(limit, held)` after one operation; mirrors the
/// executable counter exactly.
pub open spec fn permit_step(limit: int, held: int, op: PermitOp) -> (int, int) {
    match op {
        PermitOp::Acquire => if held < limit {
            (limit, held + 1)
        } else {
            (limit, held)
        },
        PermitOp::Release => if held > 0 {
            (limit, held - 1)
        } else {
            (limit, held)
        },
        PermitOp::Resize { limit: n } => (n as int, held),
    }
}

pub open spec fn permit_run(limit: int, held: int, ops: Seq<PermitOp>) -> (int, int)
    decreases ops.len(),
{
    if ops.len() == 0 {
        (limit, held)
    } else {
        let s = permit_step(limit, held, ops[0]);
        permit_run(s.0, s.1, ops.drop_first())
    }
}

/// The concurrency cap: starting within the limit, any history of permit
/// acquisitions and releases that never resizes the counter keeps the
/// number of holders at or under the limit — and keeps the limit itself.
/// (A resize below the current holders breaks the bound until enough
/// holders release; such histories are excluded here.)
pub proof fn lemma_concurrency_cap(limit: int, held: int, ops: Seq<PermitOp>)
    requires
        0 <= held <= limit,
        forall|i: int| 0 <= i < ops.len() ==> !(#[trigger] ops[i] is Resize),
    ensures
        permit_run(limit, held, ops).0 == limit,
        0 <= permit_run(limit, held, ops).1 <= limit,
    decreases ops.len(),
{
    if ops.len() > 0 {
        assert(!(ops[0] is Resize));
        let s = permit_step(limit, held, ops[0]);
        assert(forall|i: int|
            0 <= i < ops.drop_first().len() ==> !(#[trigger] ops.drop_first()[i] is Resize));
        lemma_concurrency_cap(s.0, s.1, ops.drop_first());
    }
}

} // verus!
