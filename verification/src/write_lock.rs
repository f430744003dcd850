//! The write-lock protocol: catalog-mutating statements either acquire the
//! single exclusive write lock immediately or are pushed onto a FIFO queue of
//! deferred entries. Each grant of the lock resumes exactly the entry at the
//! head of the queue; arrival order is the fairness contract.

use vstd::prelude::*;

use crate::catalog::PlanValidity;
use crate::coord::Coordinator;
use crate::error::AdapterError;
use crate::message::Action;
use crate::statement::{RawStatement, Statement};

verus! {

/// A fully planned statement waiting for the write lock.
#[derive(Clone, Debug)]
pub struct DeferredPlan {
    /// The client context the outcome is reported to.
    pub conn_id: u64,
    /// The plan to resume once the lock is granted.
    pub plan: Statement,
    /// The dependency snapshot to re-check before resuming.
    pub validity: PlanValidity,
    /// The original statement, kept for re-planning on staleness.
    pub original_stmt: RawStatement,
}

/// An entry of the deferred write queue: either a planned statement or a
/// pending group-commit request.
#[derive(Clone, Debug)]
pub enum Deferred {
    Plan(DeferredPlan),
    GroupCommit,
}

/// The entry a grant of the write lock resumes: the head of the deferred
/// queue, if any.
pub open spec fn granted_entry(q: Seq<Deferred>) -> Option<Deferred> {
    if q.len() > 0 {
        Some(q[0])
    } else {
        None
    }
}

/// The deferred queue after one grant: the head is consumed, nothing else
/// moves.
pub open spec fn after_grant(q: Seq<Deferred>) -> Seq<Deferred> {
    if q.len() > 0 {
        q.drop_first()
    } else {
        q
    }
}

/// The deferred queue after `n` grants.
pub open spec fn after_grants(q: Seq<Deferred>, n: nat) -> Seq<Deferred>
    decreases n,
{
    if n == 0 {
        q
    } else {
        after_grant(after_grants(q, (n - 1) as nat))
    }
}

/// The entries the first `n` grants resume, in the order they are resumed.
pub open spec fn resumed_by_grants(q: Seq<Deferred>, n: nat) -> Seq<Deferred>
    decreases n,
{
    if n == 0 {
        Seq::empty()
    } else {
        let before = after_grants(q, (n - 1) as nat);
        if before.len() > 0 {
            resumed_by_grants(q, (n - 1) as nat).push(before[0])
        } else {
            resumed_by_grants(q, (n - 1) as nat)
        }
    }
}

/// FIFO fairness of the write lock: for any sequence of statements deferred
/// while the lock is held, granting the lock `n` times resumes exactly the
/// first `n` entries, in their original arrival order, and leaves the rest
/// queued in order.
pub proof fn lemma_write_lock_grants_fifo(q: Seq<Deferred>, n: nat)
    requires
        n <= q.len(),
    ensures
        resumed_by_grants(q, n) =~= q.take(n as int),
        after_grants(q, n) =~= q.skip(n as int),
    decreases n,
{
    if n > 0 {
        lemma_write_lock_grants_fifo(q, (n - 1) as nat);
    }
}

impl Coordinator {
    /// Handles a grant of the exclusive write lock: pops exactly the entry at
    /// the head of the deferred queue and resumes it. A popped plan whose
    /// validity check fails is retired with the staleness error, and no other
    /// entry is consumed by this grant. A popped plan that is still valid
    /// resumes sequencing with an empty dependency-resolution set: write
    /// statements track only plan dependencies, which were just re-validated.
    /// A popped group-commit request initiates group commit carrying the
    /// now-owned lock. With no deferred entry the grant is a no-op and the
    /// guard's destruction alone releases the lock.
    pub fn message_write_lock_grant(&mut self) -> (actions: Vec<Action>)
        ensures
            write_lock_grant_outcome(*old(self), *final(self), actions@),
            old(self).wf() ==> final(self).wf(),
    {
        let ghost o = *old(self);
        let actions = self.write_lock_grant_inner();
        proof {
            if o.wf() {
                crate::controller::lemma_watch_registry_transfer(o, *self);
                assert(self.wf());
            }
        }
        actions
    }

    /// The body of the grant handler, stated over the outcome predicate.
    fn write_lock_grant_inner(&mut self) -> (actions: Vec<Action>)
        ensures
            write_lock_grant_outcome(*old(self), *final(self), actions@),
    {
        let mut actions: Vec<Action> = Vec::new();
        if self.write_lock_wait_group.len() > 0 {
            let ready = self.write_lock_wait_group.remove(0);
            match ready {
                Deferred::Plan(mut ready) => {
                    match ready.validity.check(&self.catalog) {
                        Err(e) => {
                            actions.push(Action::Retire {
                                conn_id: ready.conn_id,
                                result: Err(e),
                            });
                        },
                        Ok(()) => {
                            let resolved_ids: Vec<u64> = Vec::new();
                            actions.push(Action::Sequence {
                                conn_id: ready.conn_id,
                                plan: ready.plan,
                                resolved_ids,
                            });
                        },
                    }
                },
                Deferred::GroupCommit => {
                    actions.push(Action::GroupCommitInitiate { holding_lock: true });
                },
            }
        }
        actions
    }
}

/// The outcome of one grant of the write lock: exactly the head of the
/// deferred queue is consumed and resumed — retired with its staleness error,
/// resumed with an empty dependency-resolution set, or turned into a group
/// commit holding the lock — and a grant over an empty queue does nothing.
pub open spec fn write_lock_grant_outcome(
    o: Coordinator,
    s: Coordinator,
    actions: Seq<Action>,
) -> bool {
    &&& s.write_lock_wait_group@ =~= after_grant(o.write_lock_wait_group@)
    &&& crate::coord::eq_except_write_queue(s, o)
    &&& match granted_entry(o.write_lock_wait_group@) {
                None => actions.len() == 0,
                Some(entry) => match entry {
                    Deferred::Plan(p) => {
                        if p.validity.spec_valid(o.catalog) {
                            &&& actions.len() == 1
                            &&& actions[0] matches Action::Sequence {
                                conn_id,
                                plan,
                                resolved_ids,
                            } && conn_id == p.conn_id && plan == p.plan && resolved_ids@.len()
                                == 0
                        } else {
                            &&& actions.len() == 1
                            &&& actions[0] matches Action::Retire { conn_id, result }
                                && conn_id == p.conn_id && (result matches Err(
                                AdapterError::StaleDependency(d),
                            ) && !o.catalog.has_object(d)
                                && p.validity.dependency_ids@.contains(d))
                        }
                    },
                    Deferred::GroupCommit => {
                        &&& actions.len() == 1
                        &&& actions[0] matches Action::GroupCommitInitiate { holding_lock }
                            && holding_lock == true
                    },
                },
            }
}

} // verus!

