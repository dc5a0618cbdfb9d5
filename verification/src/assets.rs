//! Plain stand-ins for what a ledger would hold: badges that name one
//! certificate, buckets that carry an amount of an asset, and vaults that
//! keep one.

use vstd::prelude::*;
use crate::error::DaoError;
use crate::fixed::Fixed;

verus! {

/// Names one certificate: the resource it belongs to and its id there.
#[derive(Clone, Copy, Debug, PartialEq, Eq, Structural)]
pub struct Badge {
    pub resource_address: u64,
    pub id: u64,
}

/// An amount of one asset on its way from one holder to another.
#[derive(Clone, Copy, Debug, PartialEq, Eq, Structural)]
pub struct Bucket {
    pub resource_address: u64,
    pub amount: Fixed,
}

/// Keeps an amount of one asset. Well formed where the amount is not negative.
#[derive(Clone, Copy, Debug, PartialEq, Eq, Structural)]
pub struct Vault {
    pub resource_address: u64,
    pub amount: Fixed,
}

impl Vault {
    pub open spec fn wf(&self) -> bool {
        self.amount@ >= 0
    }

    /// An empty vault for `resource_address`.
    pub fn new(resource_address: u64) -> (r: Vault)
        ensures
            r.wf(),
            r.resource_address == resource_address,
            r.amount@ == 0,
    {
        Vault { resource_address, amount: Fixed::zero() }
    }

    /// What `put` answers for `bucket`, and the amount the vault holds after.
    pub open spec fn put_spec(&self, bucket: Bucket) -> Result<int, DaoError> {
        if bucket.resource_address != self.resource_address {
            Err(DaoError::WrongResource)
        } else if bucket.amount@ < 0 {
            Err(DaoError::InvalidInput)
        } else if self.amount@ + bucket.amount@ > i128::MAX {
            Err(DaoError::Arithmetic)
        } else {
            Ok(self.amount@ + bucket.amount@)
        }
    }

    /// Adds the bucket's amount. Refuses a bucket of another asset
    /// (`WrongResource`), a negative amount (`InvalidInput`) and a sum that
    /// cannot be held (`Arithmetic`).
    pub fn put(&mut self, bucket: Bucket) -> (r: Result<(), DaoError>)
        requires
            old(self).wf(),
        ensures
            final(self).wf(),
            final(self).resource_address == old(self).resource_address,
            match old(self).put_spec(bucket) {
                Ok(amount) => r is Ok && final(self).amount@ == amount,
                Err(e) => r == Err::<(), DaoError>(e) && *final(self) == *old(self),
            },
    {
        if bucket.resource_address != self.resource_address {
            return Err(DaoError::WrongResource);
        }
        if bucket.amount.is_negative() {
            return Err(DaoError::InvalidInput);
        }
        match self.amount.checked_add(bucket.amount) {
            Some(sum) => {
                self.amount = sum;
                Ok(())
            },
            None => Err(DaoError::Arithmetic),
        }
    }

    /// What `take` answers for `amount`.
    pub open spec fn take_spec(&self, amount: Fixed) -> Result<Bucket, DaoError> {
        if amount@ < 0 {
            Err(DaoError::InvalidInput)
        } else if amount@ > self.amount@ {
            Err(DaoError::InsufficientFunds)
        } else {
            Ok(Bucket { resource_address: self.resource_address, amount })
        }
    }

    /// Hands out `amount`. Refuses a negative amount (`InvalidInput`) and more
    /// than the vault holds (`InsufficientFunds`).
    pub fn take(&mut self, amount: Fixed) -> (r: Result<Bucket, DaoError>)
        requires
            old(self).wf(),
        ensures
            final(self).wf(),
            final(self).resource_address == old(self).resource_address,
            r == old(self).take_spec(amount),
            r is Ok ==> final(self).amount@ == old(self).amount@ - amount@,
            r is Err ==> *final(self) == *old(self),
    {
        if amount.is_negative() {
            return Err(DaoError::InvalidInput);
        }
        if self.amount.lt(&amount) {
            return Err(DaoError::InsufficientFunds);
        }
        let rest = self.amount.checked_sub(amount);
        self.amount = rest.unwrap();
        Ok(Bucket { resource_address: self.resource_address, amount })
    }

    /// Hands out all that the vault holds.
    pub fn take_all(&mut self) -> (r: Bucket)
        requires
            old(self).wf(),
        ensures
            final(self).wf(),
            final(self).resource_address == old(self).resource_address,
            final(self).amount@ == 0,
            r == (Bucket { resource_address: old(self).resource_address, amount: old(self).amount }),
    {
        let all = self.amount;
        self.amount = Fixed::zero();
        Bucket { resource_address: self.resource_address, amount: all }
    }
}

/// Whether `item` occurs in `list`.
pub fn contains_address(list: &Vec<u64>, item: u64) -> (r: bool)
    ensures
        r == list@.contains(item),
{
    let mut i: usize = 0;
    while i < list.len()
        invariant
            i <= list.len(),
            forall|j: int| 0 <= j < i ==> list@[j] != item,
        decreases list.len() - i,
    {
        if list[i] == item {
            return true;
        }
        i = i + 1;
    }
    false
}

} // verus!
