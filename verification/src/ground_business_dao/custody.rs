//! What the engine does for voting pools: custody of delegators'
//! certificates.

use vstd::prelude::*;
use std::collections::HashMap;
use crate::assets::{contains_address, Badge};
use crate::error::DaoError;
use crate::fixed::Fixed;
use crate::ground_business_dao::{
    delegator_powers, delegator_stakes, member_powers, member_stakes, DAOMember, DaoModel,
    Delegator, GroundBusinessDAO,
};
use crate::ground_business_dao::voting::{in_custody, share_upto};

verus! {

broadcast use vstd::std_specs::hash::group_hash_axioms;

impl DaoModel {
    /// The delegators' store with the custody of certificate `id` changed.
    pub open spec fn with_custody(self, id: int, pool: Option<u64>) -> DaoModel {
        DaoModel {
            delegators: self.delegators.update(
                id,
                Some(Delegator { data: self.delegators[id]->0.data, pool }),
            ),
            ..self
        }
    }

    /// What `take_into_custody` answers.
    pub open spec fn custody_check(self, controller: Badge, badge: Badge) -> Result<(), DaoError> {
        if !self.dao_controllers.contains(controller.resource_address) {
            Err(DaoError::UnauthorizedController)
        } else if !self.holds_delegator(badge) {
            Err(DaoError::WrongResource)
        } else {
            Ok(())
        }
    }

    /// What the operations answer that a pool asks for on a certificate in
    /// its custody.
    pub open spec fn pool_check(self, controller: Badge, pool: u64, id: u64) -> Result<(), DaoError> {
        if !self.dao_controllers.contains(controller.resource_address) {
            Err(DaoError::UnauthorizedController)
        } else if !in_custody(self.delegators, pool, id as int) {
            Err(DaoError::WrongResource)
        } else {
            Ok(())
        }
    }

    /// The share that the delegator's certificate `id` has earned.
    pub open spec fn delegator_share(self, id: int) -> Option<int> {
        share_upto(
            self.proposal_book,
            self.delegators[id]->0.data.voted_proposal@,
            self.proposal_id_counter as nat,
        )
    }
}

impl GroundBusinessDAO {
    /// Whether the pool at `pool` has the delegator's certificate `id` in
    /// custody.
    pub fn has_in_custody(&self, pool: u64, id: u64) -> (r: bool)
        ensures
            r == in_custody(self@.delegators, pool, id as int),
            r ==> id < self.delegators.len(),
    {
        if id >= self.delegators.len() as u64 {
            return false;
        }
        match &self.delegators[id as usize] {
            Some(d) => match d.pool {
                Some(p) => p == pool,
                None => false,
            },
            None => false,
        }
    }

    /// Hands a delegator's certificate into the custody of the pool at
    /// `pool`, for a caller that holds a registered controller's authority.
    ///
    /// Refuses another caller (`UnauthorizedController`) and a badge that
    /// names no delegator's certificate, or one in a pool's custody
    /// (`WrongResource`). A refusal changes nothing.
    pub fn take_into_custody(&mut self, controller_proof: &Badge, pool: u64, delegator: &Badge) -> (r:
        Result<(), DaoError>)
        requires
            old(self).wf(),
        ensures
            final(self).wf(),
            r == old(self)@.custody_check(*controller_proof, *delegator),
            match r {
                Err(_) => final(self)@ == old(self)@,
                Ok(_) => final(self)@ == old(self)@.with_custody(delegator.id as int, Some(pool)),
            },
    {
        if !contains_address(&self.dao_controllers, controller_proof.resource_address) {
            return Err(DaoError::UnauthorizedController);
        }
        let idx = match self.locate(delegator) {
            Some((false, i)) => i,
            _ => {
                return Err(DaoError::WrongResource);
            },
        };
        match &mut self.delegators[idx] {
            Some(d) => {
                d.pool = Some(pool);
            },
            None => {},
        }
        proof {
            let first = old(self)@.delegators;
            let now = self@.delegators;
            assert(delegator_powers(now) =~= delegator_powers(first));
            assert(delegator_stakes(now) =~= delegator_stakes(first));
            assert(now =~= old(self)@.with_custody(idx as int, Some(pool)).delegators);
        }
        Ok(())
    }

    /// Hands the delegator's certificate `id` back out of the custody of
    /// the pool at `pool`, for a caller that holds a registered controller's
    /// authority, and gives the badge that names it.
    ///
    /// Refuses another caller (`UnauthorizedController`) and a certificate
    /// that the pool does not have in custody (`WrongResource`). A refusal
    /// changes nothing.
    pub fn release_from_custody(&mut self, controller_proof: &Badge, pool: u64, id: u64) -> (r: Result<
        Badge,
        DaoError,
    >)
        requires
            old(self).wf(),
        ensures
            final(self).wf(),
            match old(self)@.pool_check(*controller_proof, pool, id) {
                Err(e) => r == Err::<Badge, DaoError>(e) && final(self)@ == old(self)@,
                Ok(_) => {
                    &&& r == Ok::<Badge, DaoError>(
                        Badge { resource_address: old(self).resources.delegator_badge, id },
                    )
                    &&& final(self)@ == old(self)@.with_custody(id as int, None)
                },
            },
    {
        if !contains_address(&self.dao_controllers, controller_proof.resource_address) {
            return Err(DaoError::UnauthorizedController);
        }
        if !self.has_in_custody(pool, id) {
            return Err(DaoError::WrongResource);
        }
        let idx = id as usize;
        match &mut self.delegators[idx] {
            Some(d) => {
                d.pool = None;
            },
            None => {},
        }
        proof {
            let first = old(self)@.delegators;
            let now = self@.delegators;
            assert(delegator_powers(now) =~= delegator_powers(first));
            assert(delegator_stakes(now) =~= delegator_stakes(first));
            assert(now =~= old(self)@.with_custody(idx as int, None).delegators);
        }
        Ok(Badge { resource_address: self.resources.delegator_badge, id })
    }

    /// The share that the delegator's certificate `id` in the custody of
    /// the pool at `pool` has earned. Fails with `WrongResource` where the
    /// pool does not have it in custody, and with `Arithmetic` where the
    /// share has no value.
    pub fn share_in_custody(&self, pool: u64, id: u64) -> (r: Result<Fixed, DaoError>)
        requires
            self.wf(),
        ensures
            r == (if !in_custody(self@.delegators, pool, id as int) {
                Err::<Fixed, DaoError>(DaoError::WrongResource)
            } else {
                match self@.delegator_share(id as int) {
                    Some(share) => Ok(Fixed::of(share)),
                    None => Err(DaoError::Arithmetic),
                }
            }),
    {
        if !self.has_in_custody(pool, id) {
            return Err(DaoError::WrongResource);
        }
        match &self.delegators[id as usize] {
            Some(d) => self.calculate_share(&d.data.voted_proposal),
            None => Err(DaoError::WrongResource),
        }
    }

    /// Clears the vote history of the delegator's certificate `id` in the
    /// custody of the pool at `pool`, for a caller that holds a registered
    /// controller's authority.
    ///
    /// Refuses another caller (`UnauthorizedController`) and a certificate
    /// that the pool does not have in custody (`WrongResource`). A refusal
    /// changes nothing.
    pub fn clear_votes_in_custody(&mut self, controller_proof: &Badge, pool: u64, id: u64) -> (r:
        Result<(), DaoError>)
        requires
            old(self).wf(),
        ensures
            final(self).wf(),
            r == old(self)@.pool_check(*controller_proof, pool, id),
            match r {
                Err(_) => final(self)@ == old(self)@,
                Ok(_) => {
                    &&& final(self)@ == (DaoModel {
                        delegators: old(self)@.delegators.update(
                            id as int,
                            final(self)@.delegators[id as int],
                        ),
                        ..old(self)@
                    })
                    &&& final(self)@.delegators.len() == old(self)@.delegators.len()
                    &&& final(self)@.delegators[id as int] matches Some(d)
                    &&& d.pool == Some(pool)
                    &&& DaoModel::claimed_record(old(self)@.delegators[id as int]->0.data, d.data)
                },
            },
    {
        if !contains_address(&self.dao_controllers, controller_proof.resource_address) {
            return Err(DaoError::UnauthorizedController);
        }
        if !self.has_in_custody(pool, id) {
            return Err(DaoError::WrongResource);
        }
        let idx = id as usize;
        match &mut self.delegators[idx] {
            Some(d) => {
                d.data.voted_proposal = HashMap::new();
            },
            None => {},
        }
        proof {
            let first = old(self)@.delegators;
            let now = self@.delegators;
            assert(delegator_powers(now) =~= delegator_powers(first));
            assert(delegator_stakes(now) =~= delegator_stakes(first));
            assert(now =~= first.update(idx as int, now[idx as int]));
        }
        Ok(())
    }

    /// Notes that a member runs the voting pool at `address` from now on,
    /// and registers the pools' authority as a controller.
    ///
    /// Refuses a badge that names no member's certificate (`WrongResource`)
    /// and a member who runs a pool already (`PoolAlreadyOpen`). A refusal
    /// changes nothing.
    pub fn register_voting_pool(&mut self, member_proof: &Badge, address: u64) -> (r: Result<
        (),
        DaoError,
    >)
        requires
            old(self).wf(),
        ensures
            final(self).wf(),
            r == (if !old(self)@.holds_member(*member_proof) {
                Err::<(), DaoError>(DaoError::WrongResource)
            } else if old(self)@.members[member_proof.id as int]->0.voting_pool is Some {
                Err(DaoError::PoolAlreadyOpen)
            } else {
                Ok(())
            }),
            match r {
                Err(_) => final(self)@ == old(self)@,
                Ok(_) => final(self)@ == (DaoModel {
                    members: old(self)@.members.update(
                        member_proof.id as int,
                        Some(
                            DAOMember {
                                data: old(self)@.members[member_proof.id as int]->0.data,
                                voting_pool: Some(address),
                            },
                        ),
                    ),
                    dao_controllers: old(self)@.dao_controllers.push(
                        old(self).resources.pool_controller_badge,
                    ),
                    ..old(self)@
                }),
            },
    {
        let idx = match self.locate(member_proof) {
            Some((true, i)) => i,
            _ => {
                return Err(DaoError::WrongResource);
            },
        };
        let running = match &self.members[idx] {
            Some(m) => m.voting_pool.is_some(),
            None => false,
        };
        if running {
            return Err(DaoError::PoolAlreadyOpen);
        }
        match &mut self.members[idx] {
            Some(m) => {
                m.voting_pool = Some(address);
            },
            None => {},
        }
        self.dao_controllers.push(self.resources.pool_controller_badge);
        proof {
            let first = old(self)@.members;
            let now = self@.members;
            assert(member_powers(now) =~= member_powers(first));
            assert(member_stakes(now) =~= member_stakes(first));
            assert(now =~= first.update(
                idx as int,
                Some(DAOMember { data: first[idx as int]->0.data, voting_pool: Some(address) }),
            ));
        }
        Ok(())
    }
}

} // verus!
