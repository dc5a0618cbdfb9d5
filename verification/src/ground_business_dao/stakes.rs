//! The life of a stake after enrolment: reassessment, the start of
//! unstaking and the withdrawal.

use vstd::prelude::*;
use crate::assets::{Badge, Bucket, Vault};
use crate::error::DaoError;
use crate::fixed::Fixed;
use crate::ground_business_dao::{
    delegator_powers, delegator_stakes, member_powers, member_stakes, unstake_amounts,
    DAOContributorData, DAOMember, DaoModel, Delegator, GroundBusinessDAO, Unstake,
};
use crate::ground_business_dao::membership::{presented_cvs, presented_identity};
use crate::ground_cv::{CiV, CvProof, GroundCV};
use crate::ground_id::{GroundID, IdentityProof};
use crate::tally::{
    lemma_sum_bounds_entry, lemma_sum_nonnegative, lemma_sum_push, lemma_sum_update, seq_sum,
};

verus! {

/// The certificate that a badge names, by the store it is in.
pub enum Holding {
    Member(int),
    Delegator(int),
}

impl DaoModel {
    /// Where the member's or delegator's certificate is that `badge` names;
    /// absent where it names none, or one in a pool's custody.
    pub open spec fn holding(self, badge: Badge) -> Option<Holding> {
        if badge.resource_address == self.resources.member_sbt {
            if self.holds_member(badge) {
                Some(Holding::Member(badge.id as int))
            } else {
                None
            }
        } else if self.holds_delegator(badge) {
            Some(Holding::Delegator(badge.id as int))
        } else {
            None
        }
    }

    /// The record of the certificate at `place`.
    pub open spec fn record(self, place: Holding) -> DAOContributorData {
        match place {
            Holding::Member(i) => self.members[i]->0.data,
            Holding::Delegator(i) => self.delegators[i]->0.data,
        }
    }

    /// The stores with the record at `place` changed to `data`.
    pub open spec fn with_record(self, place: Holding, data: DAOContributorData) -> DaoModel {
        match place {
            Holding::Member(i) => DaoModel {
                members: self.members.update(
                    i,
                    Some(DAOMember { data, voting_pool: self.members[i]->0.voting_pool }),
                ),
                ..self
            },
            Holding::Delegator(i) => DaoModel {
                delegators: self.delegators.update(
                    i,
                    Some(Delegator { data, pool: self.delegators[i]->0.pool }),
                ),
                ..self
            },
        }
    }

    /// The stores with the certificate at `place` gone.
    pub open spec fn without(self, place: Holding) -> DaoModel {
        match place {
            Holding::Member(i) => DaoModel { members: self.members.update(i, None), ..self },
            Holding::Delegator(i) => DaoModel { delegators: self.delegators.update(i, None), ..self },
        }
    }

    /// What `reassess_new_vote_power` decides: where the certificate is, its
    /// new voting power and the total voting power after; or the first check
    /// that fails.
    pub open spec fn reassessment(
        self,
        identity_sbt: u64,
        cv_sbt: u64,
        badge: Badge,
        identity: Option<(u64, int)>,
        cvs: Option<(u64, Seq<CiV>)>,
    ) -> Result<(Holding, int, int), DaoError> {
        match self.holding(badge) {
            None => Err(DaoError::WrongResource),
            Some(place) => {
                let data = self.record(place);
                match self.calculated_power(
                    identity_sbt,
                    cv_sbt,
                    identity,
                    cvs,
                    data.staking_amount@,
                    data.committed_year,
                ) {
                    Err(e) => Err(e),
                    Ok(power) => if self.total_voting_power@ - data.voting_power@ + power
                        > i128::MAX {
                        Err(DaoError::Arithmetic)
                    } else {
                        Ok((place, power, self.total_voting_power@ - data.voting_power@ + power))
                    },
                }
            },
        }
    }

    /// The state after a reassessment.
    pub open spec fn reassessed(self, place: Holding, power: int, total_after: int) -> DaoModel {
        DaoModel { total_voting_power: Fixed::of(total_after), ..self }.with_record(
            place,
            DAOContributorData { voting_power: Fixed::of(power), ..self.record(place) },
        )
    }

    /// What `start_unstake` decides at time `now`: where the certificate is
    /// and when the stake may be withdrawn; or the first check that fails.
    pub open spec fn unstake_start(self, badge: Badge, now: u64) -> Result<(Holding, u64), DaoError> {
        match self.holding(badge) {
            None => Err(DaoError::WrongResource),
            Some(place) => if self.record(place).allow_unstaking_time > now {
                Err(DaoError::NotYetUnlocked)
            } else if now + self.settings.unstake_delay > u64::MAX {
                Err(DaoError::Arithmetic)
            } else {
                Ok((place, (now + self.settings.unstake_delay) as u64))
            },
        }
    }

    /// The state after unstaking began for the certificate at `place`.
    pub open spec fn unstaking(self, place: Holding, end_time: u64) -> DaoModel {
        DaoModel {
            total_voting_power: Fixed::of(
                self.total_voting_power@ - self.record(place).voting_power@,
            ),
            unstakes: self.unstakes.push(
                Some(Unstake { amount: self.record(place).staking_amount, end_time }),
            ),
            ..self.without(place)
        }
    }

    /// What `unstake` decides at time `now`: the bucket handed out, or the
    /// first check that fails.
    pub open spec fn withdrawal(self, badge: Badge, now: u64) -> Result<Bucket, DaoError> {
        if !self.holds_unstake(badge) {
            Err(DaoError::WrongResource)
        } else if self.unstakes[badge.id as int]->0.end_time > now {
            Err(DaoError::NotYetUnlocked)
        } else {
            Ok(
                Bucket {
                    resource_address: self.stake_vault.resource_address,
                    amount: self.unstakes[badge.id as int]->0.amount,
                },
            )
        }
    }

    /// The state after the unstake certificate that `badge` names paid out.
    pub open spec fn withdrawn(self, badge: Badge) -> DaoModel {
        DaoModel {
            stake_vault: Vault {
                resource_address: self.stake_vault.resource_address,
                amount: Fixed::of(
                    self.stake_vault.amount@ - self.unstakes[badge.id as int]->0.amount@,
                ),
            },
            unstakes: self.unstakes.update(badge.id as int, None),
            ..self
        }
    }
}

/// The sums of a members' store after one certificate's voting power changed.
proof fn lemma_member_power_changed(
    before: Seq<Option<DAOMember>>,
    after: Seq<Option<DAOMember>>,
    i: int,
)
    requires
        0 <= i < before.len(),
        after.len() == before.len(),
        before[i] is Some,
        after[i] is Some,
        after[i]->0.data.staking_amount == before[i]->0.data.staking_amount,
        forall|j: int| 0 <= j < before.len() && j != i ==> after[j] == before[j],
    ensures
        seq_sum(member_powers(after)) == seq_sum(member_powers(before))
            - before[i]->0.data.voting_power@ + after[i]->0.data.voting_power@,
        seq_sum(member_stakes(after)) == seq_sum(member_stakes(before)),
{
    assert(member_powers(after) =~= member_powers(before).update(
        i,
        after[i]->0.data.voting_power@,
    ));
    lemma_sum_update(member_powers(before), i, after[i]->0.data.voting_power@);
    assert(member_stakes(after) =~= member_stakes(before));
}

/// The sums of a delegators' store after one certificate's voting power
/// changed.
proof fn lemma_delegator_power_changed(
    before: Seq<Option<Delegator>>,
    after: Seq<Option<Delegator>>,
    i: int,
)
    requires
        0 <= i < before.len(),
        after.len() == before.len(),
        before[i] is Some,
        after[i] is Some,
        after[i]->0.data.staking_amount == before[i]->0.data.staking_amount,
        forall|j: int| 0 <= j < before.len() && j != i ==> after[j] == before[j],
    ensures
        seq_sum(delegator_powers(after)) == seq_sum(delegator_powers(before))
            - before[i]->0.data.voting_power@ + after[i]->0.data.voting_power@,
        seq_sum(delegator_stakes(after)) == seq_sum(delegator_stakes(before)),
{
    assert(delegator_powers(after) =~= delegator_powers(before).update(
        i,
        after[i]->0.data.voting_power@,
    ));
    lemma_sum_update(delegator_powers(before), i, after[i]->0.data.voting_power@);
    assert(delegator_stakes(after) =~= delegator_stakes(before));
}

/// The sums of a members' store after one certificate left it.
proof fn lemma_member_gone(before: Seq<Option<DAOMember>>, i: int)
    requires
        0 <= i < before.len(),
        before[i] is Some,
    ensures
        seq_sum(member_powers(before.update(i, None))) == seq_sum(member_powers(before))
            - before[i]->0.data.voting_power@,
        seq_sum(member_stakes(before.update(i, None))) == seq_sum(member_stakes(before))
            - before[i]->0.data.staking_amount@,
{
    let after = before.update(i, None);
    assert(member_powers(after) =~= member_powers(before).update(i, 0));
    lemma_sum_update(member_powers(before), i, 0);
    assert(member_stakes(after) =~= member_stakes(before).update(i, 0));
    lemma_sum_update(member_stakes(before), i, 0);
}

/// The sums of a delegators' store after one certificate left it.
proof fn lemma_delegator_gone(before: Seq<Option<Delegator>>, i: int)
    requires
        0 <= i < before.len(),
        before[i] is Some,
    ensures
        seq_sum(delegator_powers(before.update(i, None))) == seq_sum(delegator_powers(before))
            - before[i]->0.data.voting_power@,
        seq_sum(delegator_stakes(before.update(i, None))) == seq_sum(delegator_stakes(before))
            - before[i]->0.data.staking_amount@,
{
    let after = before.update(i, None);
    assert(delegator_powers(after) =~= delegator_powers(before).update(i, 0));
    lemma_sum_update(delegator_powers(before), i, 0);
    assert(delegator_stakes(after) =~= delegator_stakes(before).update(i, 0));
    lemma_sum_update(delegator_stakes(before), i, 0);
}

impl DaoModel {
    /// In a sound state no certificate has more voting power than the total,
    /// and no certificate's stake or unstake amount exceeds the stake vault.
    pub proof fn lemma_parts_bounded(self)
        requires
            self.wf(),
        ensures
            self.total_voting_power@ >= 0,
            forall|i: int|
                0 <= i < self.members.len() && (#[trigger] self.members[i]) is Some ==> 0
                    <= self.members[i]->0.data.voting_power@ <= self.total_voting_power@,
            forall|i: int|
                0 <= i < self.delegators.len() && (#[trigger] self.delegators[i]) is Some ==> 0
                    <= self.delegators[i]->0.data.voting_power@ <= self.total_voting_power@,
            forall|i: int|
                0 <= i < self.unstakes.len() && (#[trigger] self.unstakes[i]) is Some ==> 0
                    < self.unstakes[i]->0.amount@ <= self.stake_vault.amount@,
    {
        let mp = member_powers(self.members);
        let dp = delegator_powers(self.delegators);
        let ms = member_stakes(self.members);
        let ds = delegator_stakes(self.delegators);
        let ua = unstake_amounts(self.unstakes);
        lemma_sum_nonnegative(mp);
        lemma_sum_nonnegative(dp);
        lemma_sum_nonnegative(ms);
        lemma_sum_nonnegative(ds);
        lemma_sum_nonnegative(ua);
        assert forall|i: int|
            0 <= i < self.members.len() && (#[trigger] self.members[i]) is Some implies 0
            <= self.members[i]->0.data.voting_power@ <= self.total_voting_power@ by {
            lemma_sum_bounds_entry(mp, i);
        }
        assert forall|i: int|
            0 <= i < self.delegators.len() && (#[trigger] self.delegators[i]) is Some implies 0
            <= self.delegators[i]->0.data.voting_power@ <= self.total_voting_power@ by {
            lemma_sum_bounds_entry(dp, i);
        }
        assert forall|i: int|
            0 <= i < self.unstakes.len() && (#[trigger] self.unstakes[i]) is Some implies 0
            < self.unstakes[i]->0.amount@ <= self.stake_vault.amount@ by {
            lemma_sum_bounds_entry(ua, i);
        }
    }
}

impl GroundBusinessDAO {
    /// Where the member's or delegator's certificate is that `badge` names.
    pub(crate) fn locate(&self, badge: &Badge) -> (r: Option<(bool, usize)>)
        ensures
            match self@.holding(*badge) {
                None => r is None,
                Some(Holding::Member(i)) => r == Some((true, i as usize)) && i < self.members.len(),
                Some(Holding::Delegator(i)) => r == Some((false, i as usize)) && i
                    < self.delegators.len(),
            },
    {
        if badge.resource_address == self.resources.member_sbt {
            if badge.id < self.members.len() as u64 {
                let idx = badge.id as usize;
                if self.members[idx].is_some() {
                    return Some((true, idx));
                }
            }
            None
        } else if badge.resource_address == self.resources.delegator_badge {
            if badge.id < self.delegators.len() as u64 {
                let idx = badge.id as usize;
                match &self.delegators[idx] {
                    Some(d) => {
                        if d.pool.is_none() {
                            return Some((false, idx));
                        }
                    },
                    None => {},
                }
            }
            None
        } else {
            None
        }
    }

    /// Computes the voting power of a member's or delegator's certificate
    /// anew from the certificates presented now and the stake and years that
    /// it records, writes it to the certificate, and moves the total voting
    /// power by the difference.
    ///
    /// Refuses a badge that names no such certificate, or one in a pool's
    /// custody (`WrongResource`), and what `calculate_voting_power` refuses;
    /// `Arithmetic` too where the new total cannot be held. A refusal changes
    /// nothing.
    pub fn reassess_new_vote_power(
        &mut self,
        ground_id: &GroundID,
        ground_cv: &GroundCV,
        delegator_or_member_proof: &Badge,
        id_proof: Option<&IdentityProof>,
        cvs_proof: Option<&CvProof>,
    ) -> (r: Result<(), DaoError>)
        requires
            old(self).wf(),
        ensures
            final(self).wf(),
            match old(self)@.reassessment(
                ground_id.identity_sbt,
                ground_cv.cv_sbt,
                *delegator_or_member_proof,
                presented_identity(id_proof),
                presented_cvs(cvs_proof),
            ) {
                Err(e) => r matches Err(f) && f == e && final(self)@ == old(self)@,
                Ok((place, power, total_after)) => r is Ok && final(self)@ == old(self)@.reassessed(
                    place,
                    power,
                    total_after,
                ),
            },
    {
        let (is_member, idx) = match self.locate(delegator_or_member_proof) {
            Some(found) => found,
            None => {
                return Err(DaoError::WrongResource);
            },
        };
        let (stake, years, old_power) = if is_member {
            match &self.members[idx] {
                Some(m) => (m.data.staking_amount, m.data.committed_year, m.data.voting_power),
                None => (Fixed::zero(), 0, Fixed::zero()),
            }
        } else {
            match &self.delegators[idx] {
                Some(d) => (d.data.staking_amount, d.data.committed_year, d.data.voting_power),
                None => (Fixed::zero(), 0, Fixed::zero()),
            }
        };
        let power = match self.calculate_voting_power(
            ground_id,
            ground_cv,
            id_proof,
            cvs_proof,
            stake,
            years,
        ) {
            Ok(p) => p,
            Err(e) => {
                return Err(e);
            },
        };
        proof {
            self@.lemma_parts_bounded();
        }
        let rest = self.total_voting_power.checked_sub(old_power).unwrap();
        let total_after = match rest.checked_add(power) {
            Some(t) => t,
            None => {
                return Err(DaoError::Arithmetic);
            },
        };
        self.total_voting_power = total_after;
        if is_member {
            match &mut self.members[idx] {
                Some(m) => {
                    m.data.voting_power = power;
                },
                None => {},
            }
            proof {
                lemma_member_power_changed(old(self)@.members, self@.members, idx as int);
                assert(self@.members =~= old(self)@.reassessed(
                    Holding::Member(idx as int),
                    power@,
                    total_after@,
                ).members);
            }
        } else {
            match &mut self.delegators[idx] {
                Some(d) => {
                    d.data.voting_power = power;
                },
                None => {},
            }
            proof {
                lemma_delegator_power_changed(old(self)@.delegators, self@.delegators, idx as int);
                assert(self@.delegators =~= old(self)@.reassessed(
                    Holding::Delegator(idx as int),
                    power@,
                    total_after@,
                ).delegators);
            }
        }
        Ok(())
    }

    /// Begins unstaking for a member's or delegator's certificate whose lock
    /// has run out at `now`: takes its voting power off the total, burns it,
    /// and mints an unstake certificate for its stake that may be withdrawn
    /// after the unstake delay. Hands back the badge that names the unstake
    /// certificate.
    ///
    /// Refuses a badge that names no such certificate, or one in a pool's
    /// custody (`WrongResource`), a lock that has not run out
    /// (`NotYetUnlocked`), and an end time that cannot be held
    /// (`Arithmetic`). A refusal changes nothing.
    pub fn start_unstake(&mut self, delegator_badge_or_member_sbt: Badge, now: u64) -> (r: Result<
        Badge,
        DaoError,
    >)
        requires
            old(self).wf(),
        ensures
            final(self).wf(),
            match old(self)@.unstake_start(delegator_badge_or_member_sbt, now) {
                Err(e) => r matches Err(f) && f == e && final(self)@ == old(self)@,
                Ok((place, end_time)) => {
                    &&& r == Ok::<Badge, DaoError>(
                        Badge {
                            resource_address: old(self).resources.unstake_badge,
                            id: old(self).unstakes.len() as u64,
                        },
                    )
                    &&& final(self)@ == old(self)@.unstaking(place, end_time)
                },
            },
    {
        let (is_member, idx) = match self.locate(&delegator_badge_or_member_sbt) {
            Some(found) => found,
            None => {
                return Err(DaoError::WrongResource);
            },
        };
        let (amount, unlock, power) = if is_member {
            match &self.members[idx] {
                Some(m) => (m.data.staking_amount, m.data.allow_unstaking_time, m.data.voting_power),
                None => (Fixed::zero(), 0, Fixed::zero()),
            }
        } else {
            match &self.delegators[idx] {
                Some(d) => (d.data.staking_amount, d.data.allow_unstaking_time, d.data.voting_power),
                None => (Fixed::zero(), 0, Fixed::zero()),
            }
        };
        if unlock > now {
            return Err(DaoError::NotYetUnlocked);
        }
        let end_time = match now.checked_add(self.settings.unstake_delay) {
            Some(t) => t,
            None => {
                return Err(DaoError::Arithmetic);
            },
        };
        proof {
            self@.lemma_parts_bounded();
        }
        let total_after = self.total_voting_power.checked_sub(power).unwrap();
        let id = self.unstakes.len() as u64;
        self.total_voting_power = total_after;
        if is_member {
            self.members.set(idx, None);
            proof {
                assert(self@.members =~= old(self)@.members.update(idx as int, None));
                lemma_member_gone(old(self)@.members, idx as int);
            }
        } else {
            self.delegators.set(idx, None);
            proof {
                assert(self@.delegators =~= old(self)@.delegators.update(idx as int, None));
                lemma_delegator_gone(old(self)@.delegators, idx as int);
            }
        }
        self.unstakes.push(Some(Unstake { amount, end_time }));
        proof {
            let before = old(self)@.unstakes;
            assert(unstake_amounts(self@.unstakes) =~= unstake_amounts(before).push(amount@));
            lemma_sum_push(unstake_amounts(before), amount@);
            let place = if is_member {
                Holding::Member(idx as int)
            } else {
                Holding::Delegator(idx as int)
            };
            assert(self@.unstakes =~= old(self)@.unstaking(place, end_time).unstakes);
        }
        Ok(Badge { resource_address: self.resources.unstake_badge, id })
    }

    /// Pays out the stake of an unstake certificate whose time has come at
    /// `now`, and burns the certificate. The stake vault always holds what an
    /// unstake certificate in the store is for.
    ///
    /// Refuses a badge that names no unstake certificate (`WrongResource`)
    /// and a time before the certificate's (`NotYetUnlocked`). A refusal
    /// changes nothing.
    pub fn unstake(&mut self, unstake_badge: Badge, now: u64) -> (r: Result<Bucket, DaoError>)
        requires
            old(self).wf(),
        ensures
            final(self).wf(),
            r == old(self)@.withdrawal(unstake_badge, now),
            match r {
                Err(_) => final(self)@ == old(self)@,
                Ok(_) => final(self)@ == old(self)@.withdrawn(unstake_badge),
            },
    {
        if unstake_badge.resource_address != self.resources.unstake_badge || unstake_badge.id
            >= self.unstakes.len() as u64 {
            return Err(DaoError::WrongResource);
        }
        let idx = unstake_badge.id as usize;
        let data = match &self.unstakes[idx] {
            Some(u) => *u,
            None => {
                return Err(DaoError::WrongResource);
            },
        };
        if data.end_time > now {
            return Err(DaoError::NotYetUnlocked);
        }
        proof {
            self@.lemma_parts_bounded();
        }
        let rest = self.stake_vault.amount.checked_sub(data.amount).unwrap();
        self.stake_vault.amount = rest;
        self.unstakes.set(idx, None);
        proof {
            let before = old(self)@.unstakes;
            assert(self@.unstakes =~= before.update(idx as int, None));
            assert(unstake_amounts(self@.unstakes) =~= unstake_amounts(before).update(idx as int, 0));
            lemma_sum_update(unstake_amounts(before), idx as int, 0);
        }
        Ok(Bucket { resource_address: self.stake_vault.resource_address, amount: data.amount })
    }
}

} // verus!
