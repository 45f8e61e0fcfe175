//! The storage allowance of one client.

use crate::error::ClientError;
use vstd::prelude::*;

verus! {

/// Bytes granted to a freshly created account: 1 GiB.
pub const DEFAULT_ACCOUNT_SIZE: u64 = 1_073_741_824;

/// Bytes charged for every put: 1 MiB.
pub const DEFAULT_PAYMENT: u64 = 1_048_576;

/// The two counters of an account, as numbers.
pub ghost struct Quota {
    pub data_stored: nat,
    pub space_available: nat,
}

impl Quota {
    /// What the account was granted: it never changes.
    pub open spec fn allowance(self) -> nat {
        self.data_stored + self.space_available
    }

    /// The counters after `size` bytes have been charged.
    pub open spec fn charged(self, size: nat) -> Quota
        recommends
            size <= self.space_available,
    {
        Quota {
            data_stored: self.data_stored + size,
            space_available: (self.space_available - size) as nat,
        }
    }

    /// The counters after `size` bytes have been given back. Giving back more
    /// than was stored empties the account and no more.
    pub open spec fn refunded(self, size: nat) -> Quota {
        if self.data_stored < size {
            Quota { data_stored: 0, space_available: self.allowance() }
        } else {
            Quota {
                data_stored: (self.data_stored - size) as nat,
                space_available: self.space_available + size,
            }
        }
    }
}

/// One step in the life of an account.
pub enum QuotaOp {
    Put(u64),
    Delete(u64),
}

impl Quota {
    /// The counters after one step; a put that does not fit changes nothing.
    pub open spec fn step(self, op: QuotaOp) -> Quota {
        match op {
            QuotaOp::Put(size) => if size <= self.space_available {
                self.charged(size as nat)
            } else {
                self
            },
            QuotaOp::Delete(size) => self.refunded(size as nat),
        }
    }

    /// The counters after a run of steps, taken in order.
    pub open spec fn run(self, ops: Seq<QuotaOp>) -> Quota
        decreases ops.len(),
    {
        if ops.len() == 0 {
            self
        } else {
            self.run(ops.drop_last()).step(ops.last())
        }
    }
}

/// Whatever is put into an account or deleted from it, in whatever order, the
/// sum of what is stored and what is left stays what it was.
pub proof fn allowance_is_constant(start: Quota, ops: Seq<QuotaOp>)
    ensures
        start.run(ops).allowance() == start.allowance(),
    decreases ops.len(),
{
    if ops.len() > 0 {
        allowance_is_constant(start, ops.drop_last());
    }
}

/// After a charge of `size` that the account could take, a refund of
/// `size` restores the counters.
pub proof fn refund_undoes_charge(start: Quota, size: nat)
    requires
        size <= start.space_available,
    ensures
        start.charged(size).refunded(size) == start,
{
}

/// How much a client has stored and how much it may still store.
#[derive(Clone, Copy, Debug, PartialEq, Eq)]
pub struct Account {
    data_stored: u64,
    space_available: u64,
}

impl View for Account {
    type V = Quota;

    closed spec fn view(&self) -> Quota {
        Quota {
            data_stored: self.data_stored as nat,
            space_available: self.space_available as nat,
        }
    }
}

impl Default for Account {
    fn default() -> (account: Account)
        ensures
            account@ == (Quota { data_stored: 0, space_available: DEFAULT_ACCOUNT_SIZE as nat }),
    {
        Account { data_stored: 0, space_available: DEFAULT_ACCOUNT_SIZE }
    }
}

impl Account {
    /// The allowance fits the counter that holds it.
    #[verifier::type_invariant]
    spec fn allowance_fits(self) -> bool {
        self.data_stored + self.space_available <= u64::MAX
    }

    /// An account with the given counters, where their sum is an allowance
    /// that a counter can hold.
    pub fn new(data_stored: u64, space_available: u64) -> (account: Option<Account>)
        ensures
            data_stored + space_available <= u64::MAX ==> (account matches Some(a) && a@ == (Quota {
                data_stored: data_stored as nat,
                space_available: space_available as nat,
            })),
            data_stored + space_available > u64::MAX ==> account is None,
    {
        if data_stored > u64::MAX - space_available {
            None
        } else {
            Some(Account { data_stored, space_available })
        }
    }

    pub fn data_stored(&self) -> (bytes: u64)
        ensures
            bytes == self@.data_stored,
    {
        self.data_stored
    }

    pub fn space_available(&self) -> (bytes: u64)
        ensures
            bytes == self@.space_available,
    {
        self.space_available
    }

    /// What the account was granted.
    pub fn allowance(&self) -> (bytes: u64)
        ensures
            bytes == self@.allowance(),
    {
        proof {
            use_type_invariant(self);
        }
        self.data_stored + self.space_available
    }

    /// Charges `size` bytes, or refuses where less than that is left.
    pub fn put_data(&mut self, size: u64) -> (result: Result<(), ClientError>)
        ensures
            size > old(self)@.space_available ==> result == Err::<(), ClientError>(
                ClientError::LowBalance,
            ) && final(self)@ == old(self)@,
            size <= old(self)@.space_available ==> result is Ok && final(self)@ == old(self)@.charged(
                size as nat,
            ),
            final(self)@.allowance() == old(self)@.allowance(),
    {
        proof {
            use_type_invariant(&*self);
        }
        if size > self.space_available {
            return Err(ClientError::LowBalance);
        }
        *self = Account {
            data_stored: self.data_stored + size,
            space_available: self.space_available - size,
        };
        Ok(())
    }

    /// Gives `size` bytes back; an account that has stored less is emptied.
    pub fn delete_data(&mut self, size: u64)
        ensures
            final(self)@ == old(self)@.refunded(size as nat),
            final(self)@.allowance() == old(self)@.allowance(),
    {
        proof {
            use_type_invariant(&*self);
        }
        if self.data_stored < size {
            *self = Account {
                data_stored: 0,
                space_available: self.space_available + self.data_stored,
            };
        } else {
            *self = Account {
                data_stored: self.data_stored - size,
                space_available: self.space_available + size,
            };
        }
    }
}

} // verus!
