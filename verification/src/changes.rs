//! Ordered, fail-fast planning of a batch change.
//!
//! A changeset is turned into a plan of single-RRset PATCH operations in the
//! fixed order delete, update-old, update-new, create; every delete therefore
//! stands in the plan before every create. A [`BatchRun`] hands the
//! operations out one at a time and, once a failure is recorded, never hands
//! out another: entries after the failing one are not attempted, and entries
//! already applied are not rolled back.

use crate::dns::{Changes, Endpoint};
use crate::pdns::{build_delete_rrset, build_rrset, is_delete_rrset_for, rrset_matches_endpoint, RrSet};
use vstd::prelude::*;

verus! {

/// One planned backend mutation: the endpoint name whose zone must be
/// resolved, and the single RRset to PATCH into that zone.
pub struct PatchOp {
    pub fqdn: String,
    pub rrset: RrSet,
}

/// `op` deletes `ep`'s record set: it resolves the zone by `ep`'s name and
/// PATCHes the deletion RRset.
pub open spec fn op_deletes(op: PatchOp, ep: Endpoint) -> bool {
    op.fqdn@ == ep.dns_name@ && is_delete_rrset_for(op.rrset, ep)
}

/// `op` replaces `ep`'s record set: it resolves the zone by `ep`'s name and
/// PATCHes the replacement RRset built with `default_ttl`.
pub open spec fn op_replaces(op: PatchOp, ep: Endpoint, default_ttl: u32) -> bool {
    op.fqdn@ == ep.dns_name@ && rrset_matches_endpoint(op.rrset, ep, default_ttl, "REPLACE"@)
}

/// The ordered mutation plan for a changeset: a deletion per `delete` entry,
/// then a deletion per `update_old` entry, then a replacement per
/// `update_new` entry, then a replacement per `create` entry — one PATCH
/// operation per endpoint, never batched.
pub fn plan_changes(changes: &Changes, default_ttl: u32) -> (plan: Vec<PatchOp>)
    ensures
        plan@.len() == changes.delete@.len() + changes.update_old@.len()
            + changes.update_new@.len() + changes.create@.len(),
        forall|i: int|
            0 <= i < changes.delete@.len() ==> op_deletes(plan@[i], changes.delete@[i]),
        forall|i: int|
            0 <= i < changes.update_old@.len() ==> op_deletes(
                plan@[changes.delete@.len() + i],
                changes.update_old@[i],
            ),
        forall|i: int|
            0 <= i < changes.update_new@.len() ==> op_replaces(
                plan@[changes.delete@.len() + changes.update_old@.len() + i],
                changes.update_new@[i],
                default_ttl,
            ),
        forall|i: int|
            0 <= i < changes.create@.len() ==> op_replaces(
                plan@[changes.delete@.len() + changes.update_old@.len()
                    + changes.update_new@.len() + i],
                changes.create@[i],
                default_ttl,
            ),
{
    let mut plan: Vec<PatchOp> = Vec::new();
    let mut k: usize = 0;
    while k < changes.delete.len()
        invariant
            k <= changes.delete.len(),
            plan@.len() == k,
            forall|i: int| 0 <= i < k ==> op_deletes(plan@[i], changes.delete@[i]),
        decreases changes.delete.len() - k,
    {
        let ep = &changes.delete[k];
        plan.push(PatchOp { fqdn: ep.dns_name.clone(), rrset: build_delete_rrset(ep) });
        k += 1;
    }
    let d = plan.len();
    let mut k: usize = 0;
    while k < changes.update_old.len()
        invariant
            k <= changes.update_old.len(),
            d == changes.delete@.len(),
            plan@.len() == d + k,
            forall|i: int| 0 <= i < d ==> op_deletes(plan@[i], changes.delete@[i]),
            forall|i: int| 0 <= i < k ==> op_deletes(plan@[d + i], changes.update_old@[i]),
        decreases changes.update_old.len() - k,
    {
        let ep = &changes.update_old[k];
        plan.push(PatchOp { fqdn: ep.dns_name.clone(), rrset: build_delete_rrset(ep) });
        k += 1;
    }
    let du = plan.len();
    let mut k: usize = 0;
    while k < changes.update_new.len()
        invariant
            k <= changes.update_new.len(),
            d == changes.delete@.len(),
            du == d + changes.update_old@.len(),
            plan@.len() == du + k,
            forall|i: int| 0 <= i < d ==> op_deletes(plan@[i], changes.delete@[i]),
            forall|i: int|
                0 <= i < changes.update_old@.len() ==> op_deletes(
                    plan@[d + i],
                    changes.update_old@[i],
                ),
            forall|i: int|
                0 <= i < k ==> op_replaces(plan@[du + i], changes.update_new@[i], default_ttl),
        decreases changes.update_new.len() - k,
    {
        let ep = &changes.update_new[k];
        plan.push(PatchOp { fqdn: ep.dns_name.clone(), rrset: build_rrset(ep, default_ttl, "REPLACE") });
        k += 1;
    }
    let dun = plan.len();
    let mut k: usize = 0;
    while k < changes.create.len()
        invariant
            k <= changes.create.len(),
            d == changes.delete@.len(),
            du == d + changes.update_old@.len(),
            dun == du + changes.update_new@.len(),
            plan@.len() == dun + k,
            forall|i: int| 0 <= i < d ==> op_deletes(plan@[i], changes.delete@[i]),
            forall|i: int|
                0 <= i < changes.update_old@.len() ==> op_deletes(
                    plan@[d + i],
                    changes.update_old@[i],
                ),
            forall|i: int|
                0 <= i < changes.update_new@.len() ==> op_replaces(
                    plan@[du + i],
                    changes.update_new@[i],
                    default_ttl,
                ),
            forall|i: int|
                0 <= i < k ==> op_replaces(plan@[dun + i], changes.create@[i], default_ttl),
        decreases changes.create.len() - k,
    {
        let ep = &changes.create[k];
        plan.push(PatchOp { fqdn: ep.dns_name.clone(), rrset: build_rrset(ep, default_ttl, "REPLACE") });
        k += 1;
    }
    plan
}

/// A fail-fast run over a mutation plan. Operations are handed out strictly
/// in plan order; recording a failure aborts the run for good: afterwards no
/// operation is ever handed out again, while the operations already applied
/// stay applied (there is no rollback).
pub struct BatchRun {
    pub plan: Vec<PatchOp>,
    pub next: usize,
    pub failed: bool,
}

impl BatchRun {
    /// The run's bookkeeping stays inside the plan.
    pub open spec fn wf(self) -> bool {
        self.next <= self.plan@.len()
    }

    /// Start a run at the beginning of the plan.
    pub fn start(plan: Vec<PatchOp>) -> (r: BatchRun)
        ensures
            r.wf(),
            r.plan == plan,
            r.next == 0,
            !r.failed,
    {
        BatchRun { plan, next: 0, failed: false }
    }

    /// The next operation to attempt: `None` once the plan is exhausted, and
    /// `None` — forever — once a failure was recorded.
    pub fn next_op(&self) -> (r: Option<&PatchOp>)
        requires
            self.wf(),
        ensures
            match r {
                Some(op) => !self.failed && self.next < self.plan@.len() && *op
                    == self.plan@[self.next as int],
                None => self.failed || self.next == self.plan@.len(),
            },
    {
        if self.failed || self.next >= self.plan.len() {
            None
        } else {
            Some(&self.plan[self.next])
        }
    }

    /// Record that the current operation was applied.
    pub fn advance(&mut self)
        requires
            old(self).wf(),
            !old(self).failed,
            old(self).next < old(self).plan@.len(),
        ensures
            final(self).wf(),
            final(self).plan == old(self).plan,
            final(self).next == old(self).next + 1,
            !final(self).failed,
    {
        let n = self.plan.len();
        proof {
            assert(self.next < n);
        }
        self.next = self.next + 1;
    }

    /// Record that the current operation failed: the run aborts, and
    /// [`BatchRun::next_op`] returns `None` from here on.
    pub fn fail(&mut self)
        requires
            old(self).wf(),
        ensures
            final(self).wf(),
            final(self).plan == old(self).plan,
            final(self).next == old(self).next,
            final(self).failed,
    {
        self.failed = true;
    }
}

} // verus!
