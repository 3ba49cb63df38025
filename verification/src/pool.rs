use vstd::prelude::*;
use crate::error::AppError;
use crate::error::DbError;
use crate::error::STATUS_INTERNAL_SERVER_ERROR;

verus! {

/// A scoped lease on one pooled connection: exclusive use for the duration
/// of a single repository operation. Leases are only handed out by
/// `Pool::acquire` and are given back with `Pool::release`.
pub struct DbConnection {
    granted: bool,
}

/// The slot accounting of the process-wide connection pool: a bounded set of
/// live connections of which `in_use` are currently leased out.
pub struct Pool {
    pub max_size: usize,
    pub in_use: usize,
}

impl Pool {
    /// No more leases are ever out than the pool's bound.
    pub open spec fn wf(self) -> bool {
        self.in_use <= self.max_size
    }

    /// A lease can be granted without waiting exactly when a slot is free.
    pub open spec fn can_grant(self) -> bool {
        self.in_use < self.max_size
    }

    /// The accounting after one lease comes back.
    pub open spec fn after_release(self) -> Pool {
        Pool { max_size: self.max_size, in_use: (self.in_use - 1) as usize }
    }

    /// Creates the pool with its fixed maximum size and no lease out.
    pub fn new(max_size: usize) -> (p: Pool)
        ensures
            p.max_size == max_size,
            p.in_use == 0,
            p.wf(),
    {
        Pool { max_size, in_use: 0 }
    }

    /// Hands out a lease when a slot is free; an exhausted pool reports an
    /// internal-class pool failure and is left unchanged. It never blocks
    /// and never hands out more leases than the bound.
    pub fn acquire(&mut self) -> (r: Result<DbConnection, AppError>)
        requires
            old(self).wf(),
        ensures
            final(self).wf(),
            final(self).max_size == old(self).max_size,
            old(self).can_grant() ==> (r matches Ok(_) && final(self).in_use == old(self).in_use
                + 1),
            !old(self).can_grant() ==> (r matches Err(e) && (e matches AppError::DbError(d) && (
            d matches DbError::PoolError(m) && m@ == "Timed out waiting for a pooled connection"@))
                && e.status_spec() == STATUS_INTERNAL_SERVER_ERROR && *final(self) == *old(self)),
    {
        if self.in_use < self.max_size {
            self.in_use = self.in_use + 1;
            Ok(DbConnection { granted: true })
        } else {
            Err(
                AppError::DbError(
                    DbError::PoolError("Timed out waiting for a pooled connection".to_owned()),
                ),
            )
        }
    }

    /// Takes a lease back; the connection returns to the pool.
    pub fn release(&mut self, lease: DbConnection)
        requires
            old(self).in_use >= 1,
        ensures
            *final(self) == old(self).after_release(),
    {
        let _ = lease;
        self.in_use = self.in_use - 1;
    }
}

/// Law: a pool at capacity grants no further lease, and as soon as one lease
/// is given back a slot is free again, so an acquisition that waits for a
/// release is granted rather than stuck.
pub proof fn lemma_pool_exhaustion(p: Pool)
    requires
        p.wf(),
        p.max_size >= 1,
        p.in_use == p.max_size,
    ensures
        !p.can_grant(),
        p.after_release().wf(),
        p.after_release().can_grant(),
{
}

} // verus!
