//! The bounded connection-lease model behind the pooled database read.
//!
//! The pool hands out at most `max` leases at a time. Asking for a lease when
//! all are out never fails: the caller is told to wait, and the pool is left
//! exactly as it was, so the same request succeeds once any holder gives its
//! lease back. Giving a lease back always frees one. The running process
//! performs the waiting and the actual connections; this model carries the
//! counting argument that bounds concurrent leases and shows a full pool
//! unblocks after a release.

use vstd::prelude::*;

use crate::numeric::int_chars;
use crate::respond::Response;
use crate::respond::query_from_db_response;

verus! {

/// A bounded lease counter: `leased` of at most `max` handles are out.
pub struct LeasePool {
    pub max: usize,
    pub leased: usize,
}

/// What asking for a lease yields: a lease, or the instruction to wait until
/// one is given back. Exhaustion is never an error.
#[derive(Clone, Copy, Debug, PartialEq, Eq, Structural)]
pub enum AcquireOutcome {
    Granted,
    MustWait,
}

impl LeasePool {
    /// The pool's invariant: it was built for at least one lease, and never
    /// has more out than that bound.
    pub open spec fn wf(self) -> bool {
        1 <= self.max && self.leased <= self.max
    }

    /// Whether a lease is free to grant.
    pub open spec fn can_grant(self) -> bool {
        self.leased < self.max
    }

    /// A fresh pool with the given bound and no lease out.
    pub fn new(max: usize) -> (r: LeasePool)
        requires
            max >= 1,
        ensures
            r.wf(),
            r.max == max,
            r.leased == 0,
    {
        LeasePool { max, leased: 0 }
    }

    /// Asks for a lease. With a lease free, it is granted and counted; with
    /// the pool exhausted, the caller must wait and the pool is unchanged —
    /// never an error, so a waiting request is served once a lease returns.
    pub fn acquire(&mut self) -> (r: AcquireOutcome)
        requires
            old(self).wf(),
        ensures
            final(self).wf(),
            final(self).max == old(self).max,
            old(self).can_grant() ==> r == AcquireOutcome::Granted && final(self).leased == old(
                self,
            ).leased + 1,
            !old(self).can_grant() ==> r == AcquireOutcome::MustWait && *final(self) == *old(
                self,
            ),
    {
        if self.leased < self.max {
            self.leased = self.leased + 1;
            AcquireOutcome::Granted
        } else {
            AcquireOutcome::MustWait
        }
    }

    /// Gives a lease back. Every exit path of a request returns its lease,
    /// so this always finds one out.
    pub fn release(&mut self)
        requires
            old(self).wf(),
            old(self).leased >= 1,
        ensures
            final(self).wf(),
            final(self).max == old(self).max,
            final(self).leased == old(self).leased - 1,
    {
        self.leased = self.leased - 1;
    }
}

/// The one fixed statement the pooled read executes: it evaluates one plus
/// one and returns a single integer row.
pub fn fixed_query_text() -> (r: &'static str)
    ensures
        r@ == "select 1 + 1"@,
{
    "select 1 + 1"
}

/// The executor protocol over the model: take a lease, answer from the
/// backend's result, and give the lease back before returning — on success
/// and on every error path alike, so no branch can leak a handle. A request
/// that finds the pool exhausted gets no answer yet: it waits, and the pool
/// stands untouched for it.
pub fn run_pooled_read(pool: &mut LeasePool, backend: Result<i32, String>) -> (r: Option<
    Response,
>)
    requires
        old(pool).wf(),
    ensures
        final(pool).leased == old(pool).leased && final(pool).max == old(pool).max,
        (r is Some) == old(pool).can_grant(),
        r matches Some(resp) ==> {
            &&& (backend matches Ok(n) ==> resp matches Response::Text(b) && b@ == int_chars(
                n as int,
            ))
            &&& (backend matches Err(m) ==> resp matches Response::Status(s, b) && s == 500
                && b == m)
        },
{
    match pool.acquire() {
        AcquireOutcome::Granted => {
            let resp = query_from_db_response(backend);
            pool.release();
            Some(resp)
        },
        AcquireOutcome::MustWait => None,
    }
}

/// Law: one full acquire/release round leaves the pool exactly as it was —
/// the lease is observably back, and a later request is granted whenever the
/// earlier one was.
pub proof fn lemma_lease_roundtrip(p: LeasePool)
    requires
        p.wf(),
        p.can_grant(),
    ensures
        ({
            let q = LeasePool { max: p.max, leased: (p.leased + 1) as usize };
            &&& q.wf()
            &&& LeasePool { max: q.max, leased: (q.leased - 1) as usize } == p
        }),
{
}

/// Law: a request against an exhausted pool waits rather than fails, and
/// proceeds as soon as any holder releases: after one release the pool can
/// grant again.
pub proof fn lemma_full_pool_waits_then_proceeds(p: LeasePool)
    requires
        p.wf(),
        !p.can_grant(),
    ensures
        p.leased == p.max,
        ({
            let q = LeasePool { max: p.max, leased: (p.leased - 1) as usize };
            &&& q.wf()
            &&& q.can_grant()
        }),
{
}

} // verus!
