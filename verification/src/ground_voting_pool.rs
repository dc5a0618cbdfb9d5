//! A voting pool: a member takes delegators' certificates into custody,
//! votes with their voting power, and keeps a fee of their dividends.

use vstd::prelude::*;
use crate::assets::{Badge, Bucket, Vault};
use crate::error::DaoError;
use crate::fixed::{bounded, lemma_mul_monotone, lemma_mul_one, mul_checked, Fixed, SCALE};
use crate::ground_business_dao::{
    lemma_without_first_absent, lemma_without_first_at, mirrored, pooled_power, without_first,
    DAOMember, DaoModel, GroundBusinessDAO,
};

verus! {

/// The receipt for a delegator's certificate in a pool's custody.
#[derive(Clone, Copy, Debug, PartialEq, Eq, Structural)]
pub struct PoolDelegator {
    /// Id of the delegator's certificate.
    pub id: u64,
}

/// A voting pool.
pub struct GroundVotingPool {
    pub address: u64,
    pub name: String,
    /// The badge of the member who runs the pool.
    pub operator: Badge,
    /// The pool's authority toward the engine.
    pub controller_badge: Badge,
    /// Ids of the delegators' certificates in custody, none of them twice.
    pub delegators: Vec<u64>,
    /// The resource of the receipts.
    pub pool_delegator: u64,
    /// The receipts by id; absent once burned.
    pub receipts: Vec<Option<PoolDelegator>>,
    /// The fees kept for the member who runs the pool.
    pub fee_vault: Vault,
}

/// What a dividend claim through a pool changes: the certificate, its
/// share, the pool's fee and what the fee vault holds after.
pub struct PoolClaim {
    pub id: u64,
    pub share: int,
    pub fee: int,
    pub fee_after: int,
}

impl GroundVotingPool {
    /// The fee vault is sound and no certificate is listed twice.
    pub open spec fn wf(&self) -> bool {
        &&& self.fee_vault.wf()
        &&& self.delegators@.no_duplicates()
    }

    /// Whether `receipt` names a receipt that is in the store.
    pub open spec fn holds_receipt(&self, receipt: Badge) -> bool {
        &&& receipt.resource_address == self.pool_delegator
        &&& receipt.id < self.receipts.len()
        &&& self.receipts[receipt.id as int] is Some
    }

    /// The certificate that `receipt` is for.
    pub open spec fn receipt_for(&self, receipt: Badge) -> u64 {
        self.receipts[receipt.id as int]->0.id
    }

    /// Whether `r` and `after` are what opening a pool for member `operator`
    /// at `address` leaves of the engine's state `before`.
    pub open spec fn opened(
        before: DaoModel,
        after: DaoModel,
        r: Result<GroundVotingPool, DaoError>,
        address: u64,
        name: String,
        operator: Badge,
        pool_delegator: u64,
    ) -> bool {
        match r {
            Err(e) => {
                &&& after == before
                &&& e == (if !before.holds_member(operator) {
                    DaoError::WrongResource
                } else {
                    DaoError::PoolAlreadyOpen
                })
                &&& !before.holds_member(operator) || before.members[operator.id as int]->0.voting_pool
                    is Some
            },
            Ok(pool) => {
                &&& before.holds_member(operator)
                &&& before.members[operator.id as int]->0.voting_pool is None
                &&& pool.wf()
                &&& pool.address == address
                &&& pool.name == name
                &&& pool.operator == operator
                &&& pool.controller_badge == (Badge {
                    resource_address: before.resources.pool_controller_badge,
                    id: 0,
                })
                &&& pool.delegators@ == Seq::<u64>::empty()
                &&& pool.pool_delegator == pool_delegator
                &&& pool.receipts@ == Seq::<Option<PoolDelegator>>::empty()
                &&& pool.fee_vault == (Vault {
                    resource_address: before.stake_vault.resource_address,
                    amount: Fixed::of(0),
                })
                &&& after == (DaoModel {
                    members: before.members.update(
                        operator.id as int,
                        Some(
                            DAOMember {
                                data: before.members[operator.id as int]->0.data,
                                voting_pool: Some(address),
                            },
                        ),
                    ),
                    dao_controllers: before.dao_controllers.push(
                        before.resources.pool_controller_badge,
                    ),
                    ..before
                })
            },
        }
    }

    /// Opens the pool that member `operator` runs at `address`, and notes
    /// it with the engine. Refuses what `register_voting_pool` refuses; a
    /// refusal changes nothing.
    pub fn new(
        dao: &mut GroundBusinessDAO,
        address: u64,
        name: String,
        operator: Badge,
        pool_delegator: u64,
    ) -> (r: Result<GroundVotingPool, DaoError>)
        requires
            old(dao).wf(),
        ensures
            final(dao).wf(),
            Self::opened(old(dao)@, final(dao)@, r, address, name, operator, pool_delegator),
    {
        match dao.register_voting_pool(&operator, address) {
            Ok(()) => {},
            Err(e) => {
                return Err(e);
            },
        }
        Ok(
            GroundVotingPool {
                address,
                name,
                operator,
                controller_badge: Badge {
                    resource_address: dao.resources.pool_controller_badge,
                    id: 0,
                },
                delegators: Vec::new(),
                pool_delegator,
                receipts: Vec::new(),
                fee_vault: Vault::new(dao.dao_share_address()),
            },
        )
    }

    /// Whether the certificate `id` is listed.
    pub fn lists(&self, id: u64) -> (r: bool)
        ensures
            r == self.delegators@.contains(id),
    {
        crate::assets::contains_address(&self.delegators, id)
    }

    /// Takes a delegator's certificate into custody and hands back the
    /// badge of the receipt for it.
    ///
    /// Refuses a certificate that is listed already (`WrongResource`) and
    /// what `take_into_custody` refuses. A refusal changes nothing.
    pub fn delegate(&mut self, dao: &mut GroundBusinessDAO, delegator_badge: Badge) -> (r: Result<
        Badge,
        DaoError,
    >)
        requires
            old(self).wf(),
            old(dao).wf(),
        ensures
            final(self).wf(),
            final(dao).wf(),
            match (if old(self).delegators@.contains(delegator_badge.id) {
                Err::<(), DaoError>(DaoError::WrongResource)
            } else {
                old(dao)@.custody_check(old(self).controller_badge, delegator_badge)
            }) {
                Err(e) => r == Err::<Badge, DaoError>(e) && final(dao)@ == old(dao)@ && *final(self)
                    == *old(self),
                Ok(_) => {
                    &&& r == Ok::<Badge, DaoError>(
                        Badge {
                            resource_address: old(self).pool_delegator,
                            id: old(self).receipts.len() as u64,
                        },
                    )
                    &&& final(dao)@ == old(dao)@.with_custody(
                        delegator_badge.id as int,
                        Some(old(self).address),
                    )
                    &&& final(self).delegators@ == old(self).delegators@.push(delegator_badge.id)
                    &&& final(self).receipts@ == old(self).receipts@.push(
                        Some(PoolDelegator { id: delegator_badge.id }),
                    )
                    &&& final(self).address == old(self).address
                    &&& final(self).name == old(self).name
                    &&& final(self).operator == old(self).operator
                    &&& final(self).controller_badge == old(self).controller_badge
                    &&& final(self).pool_delegator == old(self).pool_delegator
                    &&& final(self).fee_vault == old(self).fee_vault
                },
            },
    {
        if self.lists(delegator_badge.id) {
            return Err(DaoError::WrongResource);
        }
        match dao.take_into_custody(&self.controller_badge, self.address, &delegator_badge) {
            Ok(()) => {},
            Err(e) => {
                return Err(e);
            },
        }
        let id = self.receipts.len() as u64;
        self.delegators.push(delegator_badge.id);
        self.receipts.push(Some(PoolDelegator { id: delegator_badge.id }));
        Ok(Badge { resource_address: self.pool_delegator, id })
    }

    /// Mirrors the vote of the member who runs the pool into every
    /// certificate in custody, and hands back their voting power added up:
    /// the power that the engine casts with the member's own.
    ///
    /// Refuses a caller other than the member who runs the pool
    /// (`WrongResource`) and what `mirror_vote` refuses. A refusal changes
    /// nothing.
    pub fn vote_pool(&self, dao: &mut GroundBusinessDAO, operator: &Badge, id: u64, vote: bool) -> (r:
        Result<Fixed, DaoError>)
        requires
            old(dao).wf(),
        ensures
            final(dao).wf(),
            if *operator != self.operator {
                r == Err::<Fixed, DaoError>(DaoError::WrongResource) && final(dao)@ == old(dao)@
            } else if !old(dao)@.dao_controllers.contains(self.controller_badge.resource_address) {
                r == Err::<Fixed, DaoError>(DaoError::UnauthorizedController) && final(dao)@ == old(
                    dao,
                )@
            } else {
                match bounded(pooled_power(old(dao)@.delegators, self.address, self.delegators@)) {
                    None => r == Err::<Fixed, DaoError>(DaoError::Arithmetic) && final(dao)@ == old(
                        dao,
                    )@,
                    Some(sum) => {
                        &&& r == Ok::<Fixed, DaoError>(Fixed::of(sum))
                        &&& mirrored(
                            old(dao)@.delegators,
                            final(dao)@.delegators,
                            self.address,
                            self.delegators@,
                            id,
                            vote,
                        )
                        &&& final(dao)@ == (DaoModel {
                            delegators: final(dao)@.delegators,
                            ..old(dao)@
                        })
                    },
                }
            },
    {
        if operator.resource_address != self.operator.resource_address || operator.id
            != self.operator.id {
            return Err(DaoError::WrongResource);
        }
        dao.mirror_vote(&self.controller_badge, self.address, &self.delegators, id, vote)
    }

    /// Hands out the fees kept so far to the member who runs the pool.
    /// Refuses another caller (`WrongResource`).
    pub fn take_fee(&mut self, operator: &Badge) -> (r: Result<Bucket, DaoError>)
        requires
            old(self).wf(),
        ensures
            final(self).wf(),
            if *operator != old(self).operator {
                r == Err::<Bucket, DaoError>(DaoError::WrongResource) && *final(self) == *old(self)
            } else {
                &&& r == Ok::<Bucket, DaoError>(
                    Bucket {
                        resource_address: old(self).fee_vault.resource_address,
                        amount: old(self).fee_vault.amount,
                    },
                )
                &&& final(self).fee_vault == (Vault {
                    resource_address: old(self).fee_vault.resource_address,
                    amount: Fixed::of(0),
                })
                &&& final(self).delegators == old(self).delegators
                &&& final(self).receipts == old(self).receipts
                &&& final(self).address == old(self).address
                &&& final(self).name == old(self).name
                &&& final(self).operator == old(self).operator
                &&& final(self).controller_badge == old(self).controller_badge
                &&& final(self).pool_delegator == old(self).pool_delegator
            },
    {
        if operator.resource_address != self.operator.resource_address || operator.id
            != self.operator.id {
            return Err(DaoError::WrongResource);
        }
        Ok(self.fee_vault.take_all())
    }
}

/// A list without duplicates has none after one entry is taken out.
pub proof fn lemma_remove_keeps_distinct(list: Seq<u64>, i: int)
    requires
        0 <= i < list.len(),
        list.no_duplicates(),
    ensures
        list.remove(i).no_duplicates(),
        !list.remove(i).contains(list[i]),
{
    let rest = list.remove(i);
    assert forall|a: int, b: int| 0 <= a < rest.len() && 0 <= b < rest.len() && a != b implies rest[a]
        != rest[b] by {
        let a0 = if a < i {
            a
        } else {
            a + 1
        };
        let b0 = if b < i {
            b
        } else {
            b + 1
        };
        assert(rest[a] == list[a0]);
        assert(rest[b] == list[b0]);
    }
    assert forall|a: int| 0 <= a < rest.len() implies rest[a] != list[i] by {
        let a0 = if a < i {
            a
        } else {
            a + 1
        };
        assert(rest[a] == list[a0]);
    }
}

impl GroundVotingPool {
    /// What `take_dividend` decides for `receipt`: the claim, or the first
    /// check that fails.
    pub open spec fn dividend_plan(&self, dao: DaoModel, receipt: Badge) -> Result<
        PoolClaim,
        DaoError,
    > {
        if !self.holds_receipt(receipt) {
            Err(DaoError::WrongResource)
        } else {
            let id = self.receipt_for(receipt);
            match dao.pool_check(self.controller_badge, self.address, id) {
                Err(e) => Err(e),
                Ok(_) => match dao.delegator_share(id as int) {
                    None => Err(DaoError::Arithmetic),
                    Some(share) => if share < 0 {
                        Err(DaoError::InvalidInput)
                    } else if share > dao.dividend_vault.amount@ {
                        Err(DaoError::InsufficientFunds)
                    } else {
                        match mul_checked(share, dao.settings.voting_pool_fee@) {
                            None => Err(DaoError::Arithmetic),
                            Some(fee) => if self.fee_vault.amount@ + fee > i128::MAX {
                                Err(DaoError::Arithmetic)
                            } else {
                                Ok(
                                    PoolClaim {
                                        id,
                                        share,
                                        fee,
                                        fee_after: self.fee_vault.amount@ + fee,
                                    },
                                )
                            },
                        }
                    },
                },
            }
        }
    }

    /// Whether `after` is this pool with nothing changed but the list of
    /// certificates, the receipts and the amount in the fee vault.
    pub open spec fn same_pool(&self, after: &GroundVotingPool) -> bool {
        &&& after.address == self.address
        &&& after.name == self.name
        &&& after.operator == self.operator
        &&& after.controller_badge == self.controller_badge
        &&& after.pool_delegator == self.pool_delegator
        &&& after.fee_vault.resource_address == self.fee_vault.resource_address
    }

    /// The receipt that `receipt` names, where it is in the store.
    fn receipt_of(&self, receipt: &Badge) -> (r: Option<(usize, u64)>)
        ensures
            match r {
                Some((at, id)) => self.holds_receipt(*receipt) && at == receipt.id && id
                    == self.receipt_for(*receipt) && at < self.receipts.len(),
                None => !self.holds_receipt(*receipt),
            },
    {
        if receipt.resource_address != self.pool_delegator || receipt.id >= self.receipts.len() as u64 {
            return None;
        }
        let at = receipt.id as usize;
        match &self.receipts[at] {
            Some(found) => Some((at, found.id)),
            None => None,
        }
    }

    /// Hands a delegator's certificate back for its receipt: takes it off
    /// the list, burns the receipt, and gives the badge that names the
    /// certificate.
    ///
    /// Refuses a badge that names no receipt (`WrongResource`) and what
    /// `release_from_custody` refuses. A refusal changes nothing.
    pub fn stop_delegate(&mut self, dao: &mut GroundBusinessDAO, pool_delegator_badge: Badge) -> (r:
        Result<Badge, DaoError>)
        requires
            old(self).wf(),
            old(dao).wf(),
        ensures
            final(self).wf(),
            final(dao).wf(),
            old(self).same_pool(final(self)),
            final(self).fee_vault == old(self).fee_vault,
            match (if !old(self).holds_receipt(pool_delegator_badge) {
                Err::<(), DaoError>(DaoError::WrongResource)
            } else {
                old(dao)@.pool_check(
                    old(self).controller_badge,
                    old(self).address,
                    old(self).receipt_for(pool_delegator_badge),
                )
            }) {
                Err(e) => r == Err::<Badge, DaoError>(e) && final(dao)@ == old(dao)@ && *final(self)
                    == *old(self),
                Ok(_) => {
                    let id = old(self).receipt_for(pool_delegator_badge);
                    &&& r == Ok::<Badge, DaoError>(
                        Badge { resource_address: old(dao).resources.delegator_badge, id },
                    )
                    &&& final(dao)@ == old(dao)@.with_custody(id as int, None)
                    &&& final(self).delegators@ == without_first(old(self).delegators@, id)
                    &&& !final(self).delegators@.contains(id)
                    &&& final(self).receipts@ == old(self).receipts@.update(
                        pool_delegator_badge.id as int,
                        None,
                    )
                },
            },
    {
        let (at, id) = match self.receipt_of(&pool_delegator_badge) {
            Some(found) => found,
            None => {
                return Err(DaoError::WrongResource);
            },
        };
        let badge = match dao.release_from_custody(&self.controller_badge, self.address, id) {
            Ok(b) => b,
            Err(e) => {
                return Err(e);
            },
        };
        self.receipts.set(at, None);
        proof {
            assert(self.receipts@ =~= old(self).receipts@.update(at as int, None));
        }
        let mut i: usize = 0;
        let mut found = false;
        while i < self.delegators.len() && !found
            invariant
                i <= self.delegators.len(),
                old(self).delegators@.no_duplicates(),
                !found ==> self.delegators@ == old(self).delegators@,
                !found ==> forall|j: int| 0 <= j < i ==> self.delegators@[j] != id,
                found ==> self.delegators@ == without_first(old(self).delegators@, id)
                    && self.delegators@.no_duplicates() && !self.delegators@.contains(id),
                self.receipts@ == old(self).receipts@.update(at as int, None),
                old(self).same_pool(self),
                self.fee_vault == old(self).fee_vault,
            decreases self.delegators.len() - i + (if found { 0int } else { 1int }),
        {
            if self.delegators[i] == id {
                proof {
                    lemma_without_first_at(self.delegators@, id, i as int);
                    lemma_remove_keeps_distinct(self.delegators@, i as int);
                }
                self.delegators.remove(i);
                found = true;
            } else {
                i = i + 1;
            }
        }
        proof {
            if !found {
                lemma_without_first_absent(self.delegators@, id);
            }
        }
        Ok(badge)
    }

    /// Pays the holder of a receipt the share that the certificate's vote
    /// history has earned, less the pool's fee, which goes to the fee
    /// vault; and clears the history, so that the same votes are paid once.
    ///
    /// Refuses a badge that names no receipt, and a certificate that is not
    /// in the pool's custody (`WrongResource`), a pool whose authority the
    /// engine does not know (`UnauthorizedController`), a share that is
    /// negative (`InvalidInput`) or above what the dividend vault holds
    /// (`InsufficientFunds`), and numbers that have no value
    /// (`Arithmetic`). A refusal changes nothing.
    pub fn take_dividend(&mut self, dao: &mut GroundBusinessDAO, pool_delegator_proof: &Badge) -> (r:
        Result<Bucket, DaoError>)
        requires
            old(self).wf(),
            old(dao).wf(),
        ensures
            final(self).wf(),
            final(dao).wf(),
            old(self).same_pool(final(self)),
            final(self).delegators == old(self).delegators,
            final(self).receipts == old(self).receipts,
            match old(self).dividend_plan(old(dao)@, *pool_delegator_proof) {
                Err(e) => r == Err::<Bucket, DaoError>(e) && final(dao)@ == old(dao)@ && *final(self)
                    == *old(self),
                Ok(claim) => {
                    &&& r == Ok::<Bucket, DaoError>(
                        Bucket {
                            resource_address: old(dao).dividend_vault.resource_address,
                            amount: Fixed::of(claim.share - claim.fee),
                        },
                    )
                    &&& 0 <= claim.fee <= claim.share
                    &&& final(self).fee_vault.amount@ == claim.fee_after
                    &&& final(dao)@ == (DaoModel {
                        dividend_vault: Vault {
                            resource_address: old(dao).dividend_vault.resource_address,
                            amount: Fixed::of(old(dao).dividend_vault.amount@ - claim.share),
                        },
                        delegators: old(dao)@.delegators.update(
                            claim.id as int,
                            final(dao)@.delegators[claim.id as int],
                        ),
                        ..old(dao)@
                    })
                    &&& final(dao)@.delegators[claim.id as int] matches Some(d)
                    &&& d.pool == Some(old(self).address)
                    &&& DaoModel::claimed_record(
                        old(dao)@.delegators[claim.id as int]->0.data,
                        d.data,
                    )
                },
            },
    {
        let (at, id) = match self.receipt_of(pool_delegator_proof) {
            Some(found) => found,
            None => {
                return Err(DaoError::WrongResource);
            },
        };
        if !crate::assets::contains_address(
            &dao.dao_controllers,
            self.controller_badge.resource_address,
        ) {
            return Err(DaoError::UnauthorizedController);
        }
        let share = match dao.share_in_custody(self.address, id) {
            Ok(s) => s,
            Err(e) => {
                return Err(e);
            },
        };
        if share.is_negative() {
            return Err(DaoError::InvalidInput);
        }
        if dao.dividend_vault.amount.lt(&share) {
            return Err(DaoError::InsufficientFunds);
        }
        let rate = dao.pool_fee();
        let fee = match share.checked_mul(rate) {
            Some(f) => f,
            None => {
                return Err(DaoError::Arithmetic);
            },
        };
        let fee_after = match self.fee_vault.amount.checked_add(fee) {
            Some(a) => a,
            None => {
                return Err(DaoError::Arithmetic);
            },
        };
        proof {
            lemma_mul_monotone(share@, rate@, share@, SCALE as int);
            lemma_mul_one(share@);
        }
        let rest = share.checked_sub(fee).unwrap();
        match dao.clear_votes_in_custody(&self.controller_badge, self.address, id) {
            Ok(()) => {},
            Err(e) => {
                return Err(e);
            },
        }
        let dividend = match dao.take_dividend_delegator(&self.controller_badge, share) {
            Ok(paid) => paid,
            Err(e) => {
                return Err(e);
            },
        };
        self.fee_vault.amount = fee_after;
        Ok(Bucket { resource_address: dividend.resource_address, amount: rest })
    }
}

impl GroundBusinessDAO {
    /// Opens a voting pool for a member at `address`, with receipts of the
    /// resource `pool_delegator`: notes the pool on the member's
    /// certificate and registers the pools' authority as a controller.
    ///
    /// Refuses a badge that names no member's certificate (`WrongResource`)
    /// and a member who runs a pool already (`PoolAlreadyOpen`). A refusal
    /// changes nothing.
    pub fn new_voting_pool(
        &mut self,
        member_proof: &Badge,
        name: String,
        address: u64,
        pool_delegator: u64,
    ) -> (r: Result<GroundVotingPool, DaoError>)
        requires
            old(self).wf(),
        ensures
            final(self).wf(),
            GroundVotingPool::opened(
                old(self)@,
                final(self)@,
                r,
                address,
                name,
                *member_proof,
                pool_delegator,
            ),
    {
        GroundVotingPool::new(self, address, name, *member_proof, pool_delegator)
    }
}

impl GroundVotingPool {
    /// Whether the pool is sound: what every operation asks for and leaves
    /// behind. For callers that build or restore a pool themselves.
    pub fn is_sound(&self) -> (r: bool)
        ensures
            r == self.wf(),
    {
        if self.fee_vault.amount.is_negative() {
            return false;
        }
        let mut i: usize = 0;
        while i < self.delegators.len()
            invariant
                i <= self.delegators.len(),
                forall|a: int, b: int|
                    0 <= a < i && 0 <= b < self.delegators.len() && a != b ==> self.delegators@[a]
                        != self.delegators@[b],
            decreases self.delegators.len() - i,
        {
            let mut k: usize = i + 1;
            while k < self.delegators.len()
                invariant
                    i < k <= self.delegators.len(),
                    forall|b: int| i < b < k ==> self.delegators@[i as int] != self.delegators@[b],
                decreases self.delegators.len() - k,
            {
                if self.delegators[i] == self.delegators[k] {
                    return false;
                }
                k = k + 1;
            }
            i = i + 1;
        }
        true
    }
}

} // verus!
