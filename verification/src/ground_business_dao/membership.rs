//! Voting power, and the enrolment of members and delegators.

use vstd::prelude::*;
use std::collections::HashMap;
use crate::assets::{Badge, Bucket, Vault};
use crate::error::DaoError;
use crate::fixed::{
    bounded, expo, lemma_div_nonnegative, lemma_mul_nonnegative, lemma_pow_nonnegative,
    mul_checked, pow_checked, Fixed, SCALE,
};
use crate::ground_business_dao::{
    delegator_powers, delegator_stakes, member_powers, member_stakes, DAOContributorData,
    DAOMember, DaoModel, Delegator, GroundBusinessDAO, VotedData, YEAR,
};
use crate::ground_cv::{
    aggregated_score, lemma_score_sum_nonnegative, meets_all, requirement_ids, score_sum, CiV,
    CvProof, GroundCV,
};
use crate::ground_id::{GroundID, IdentityProof};
use crate::tally::lemma_sum_push;

verus! {

broadcast use vstd::std_specs::hash::group_hash_axioms;

/// What a presented identity certificate shows: its resource and its trust
/// factor.
pub open spec fn presented_identity(shown: Option<&IdentityProof>) -> Option<(u64, int)> {
    match shown {
        Some(p) => Some((p.resource_address, p.identity.data.trust_factor@)),
        None => None,
    }
}

/// What presented credential certificates show: their resource and the
/// certificates.
pub open spec fn presented_cvs(shown: Option<&CvProof>) -> Option<(u64, Seq<CiV>)> {
    match shown {
        Some(p) => Some((p.resource_address, p.cvs@)),
        None => None,
    }
}

/// One plus the trust factor.
pub open spec fn trust_score(trust_factor: int) -> int {
    SCALE + trust_factor
}

/// One plus the rate, raised to the power of the years committed.
pub open spec fn commit_factor(rate: int, years: u8) -> Option<int> {
    match bounded(SCALE + rate) {
        Some(base) => pow_checked(base, years as nat),
        None => None,
    }
}

/// The voting power: credential score times stake times commit factor times
/// trust score, multiplied in this order.
pub open spec fn voting_power(score: int, stake: int, commit: int, trust: int) -> Option<int> {
    match mul_checked(score, stake) {
        Some(a) => match mul_checked(a, commit) {
            Some(b) => mul_checked(b, trust),
            None => None,
        },
        None => None,
    }
}

/// Whether an identity certificate with this resource and trust factor is
/// one of the service whose certificates have the resource `identity_sbt`.
pub open spec fn identity_accepted(shown: (u64, int), identity_sbt: u64) -> bool {
    shown.0 == identity_sbt && 0 <= shown.1 <= 100 * SCALE
}

/// One plus the rate, raised to the power of the years committed.
pub fn commit_factor_of(rate: Fixed, years: u8) -> (r: Option<Fixed>)
    ensures
        r == Fixed::of_checked(commit_factor(rate@, years)),
{
    match Fixed::one().checked_add(rate) {
        Some(base) => expo(base, years),
        None => None,
    }
}

/// The voting power from its four factors.
pub fn voting_power_of(score: Fixed, stake: Fixed, commit: Fixed, trust: Fixed) -> (r: Option<Fixed>)
    ensures
        r == Fixed::of_checked(voting_power(score@, stake@, commit@, trust@)),
{
    match score.checked_mul(stake) {
        Some(a) => match a.checked_mul(commit) {
            Some(b) => b.checked_mul(trust),
            None => None,
        },
        None => None,
    }
}

/// No factor of a voting power being negative, the voting power is not.
pub proof fn lemma_voting_power_nonnegative(score: int, stake: int, commit: int, trust: int)
    requires
        score >= 0,
        stake >= 0,
        commit >= 0,
        trust >= 0,
    ensures
        voting_power(score, stake, commit, trust) matches Some(p) ==> p >= 0,
{
    lemma_mul_nonnegative(score, stake);
    match mul_checked(score, stake) {
        Some(a) => {
            lemma_mul_nonnegative(a, commit);
            match mul_checked(a, commit) {
                Some(b) => {
                    lemma_mul_nonnegative(b, trust);
                },
                None => {},
            }
        },
        None => {},
    }
}

/// A mean score is not negative.
pub proof fn lemma_aggregated_score_nonnegative(cvs: Seq<CiV>, ids: Seq<u32>)
    ensures
        aggregated_score(cvs, ids) matches Some(s) ==> s >= 0,
{
    lemma_score_sum_nonnegative(cvs, ids);
    if ids.len() > 0 {
        assert(ids.len() * SCALE > 0) by (nonlinear_arith)
            requires
                ids.len() > 0,
                SCALE > 0,
        ;
        lemma_div_nonnegative(score_sum(cvs, ids), ids.len() * SCALE);
    }
}

/// A commit factor is not negative where the rate is not.
pub proof fn lemma_commit_factor_nonnegative(rate: int, years: u8)
    requires
        rate >= 0,
    ensures
        commit_factor(rate, years) matches Some(c) ==> c >= 0,
{
    lemma_pow_nonnegative(SCALE + rate, years as nat);
}

/// Whether `d` is the record of a certificate as it is minted: with the
/// given voting power, years, stake and unlock time, and no vote yet.
pub open spec fn fresh_record(
    d: DAOContributorData,
    power: int,
    years: u8,
    stake: int,
    unlock: int,
) -> bool {
    &&& d.voting_power@ == power
    &&& d.voted_proposal@ == Map::<u64, VotedData>::empty()
    &&& d.committed_year == years
    &&& d.staking_amount@ == stake
    &&& d.allow_unstaking_time == unlock
}

/// What an enrolment changes: the voting power of the new certificate, its
/// unlock time, and what the stake vault and the total voting power are after.
pub struct Enrolment {
    pub power: int,
    pub unlock: int,
    pub stake_after: int,
    pub total_after: int,
}

impl DaoModel {
    /// The credential ids that count for the voting power.
    pub open spec fn score_ids(self) -> Seq<u32> {
        requirement_ids(self.member_entry_requirement)
    }

    /// What `calculate_voting_power` answers.
    pub open spec fn calculated_power(
        self,
        identity_sbt: u64,
        cv_sbt: u64,
        identity: Option<(u64, int)>,
        cvs: Option<(u64, Seq<CiV>)>,
        stake: int,
        years: u8,
    ) -> Result<int, DaoError> {
        if stake <= 0 || years > self.settings.year_cap {
            Err(DaoError::InvalidInput)
        } else if identity matches Some(shown) && !identity_accepted(shown, identity_sbt) {
            Err(DaoError::VerificationFailed)
        } else if cvs matches Some(shown) && shown.0 != cv_sbt {
            Err(DaoError::VerificationFailed)
        } else {
            let trust = match identity {
                Some(shown) => trust_score(shown.1),
                None => SCALE as int,
            };
            let score = match cvs {
                Some(shown) => aggregated_score(shown.1, self.score_ids()),
                None => Some(SCALE as int),
            };
            match score {
                None => Err(DaoError::Arithmetic),
                Some(score) => match commit_factor(self.settings.year_commited_rate@, years) {
                    None => Err(DaoError::Arithmetic),
                    Some(commit) => match voting_power(score, stake, commit, trust) {
                        None => Err(DaoError::Arithmetic),
                        Some(power) => Ok(power),
                    },
                },
            }
        }
    }

    /// The voting power of a member to be, or the first check that fails.
    pub open spec fn member_power(
        self,
        identity_sbt: u64,
        cv_sbt: u64,
        identity: (u64, int),
        cvs: (u64, Seq<CiV>),
        staking_bucket: Bucket,
        years: u8,
    ) -> Result<int, DaoError> {
        if staking_bucket.resource_address != self.stake_vault.resource_address || years == 0
            || years > self.settings.year_cap || staking_bucket.amount@ <= 0 {
            Err(DaoError::InvalidInput)
        } else if !identity_accepted(identity, identity_sbt) || cvs.0 != cv_sbt || !meets_all(
            cvs.1,
            self.member_entry_requirement,
        ) {
            Err(DaoError::VerificationFailed)
        } else {
            self.calculated_power(
                identity_sbt,
                cv_sbt,
                Some(identity),
                Some(cvs),
                staking_bucket.amount@,
                years,
            )
        }
    }

    /// The voting power of a delegator to be, or the first check that fails.
    pub open spec fn delegate_power(
        self,
        identity_sbt: u64,
        cv_sbt: u64,
        identity: Option<(u64, int)>,
        cvs: Option<(u64, Seq<CiV>)>,
        delegate_bucket: Bucket,
        years: u8,
    ) -> Result<int, DaoError> {
        if delegate_bucket.resource_address != self.stake_vault.resource_address {
            Err(DaoError::InvalidInput)
        } else {
            self.calculated_power(identity_sbt, cv_sbt, identity, cvs, delegate_bucket.amount@, years)
        }
    }

    /// What enrolling a certificate of voting power `power` with `stake`
    /// for `years` at time `now` changes; `Arithmetic` where a number has no
    /// value.
    pub open spec fn enrolment(self, power: int, stake: int, years: u8, now: u64) -> Result<
        Enrolment,
        DaoError,
    > {
        if now + YEAR * years > u64::MAX || self.stake_vault.amount@ + stake > i128::MAX
            || self.total_voting_power@ + power > i128::MAX {
            Err(DaoError::Arithmetic)
        } else {
            Ok(
                Enrolment {
                    power,
                    unlock: now + YEAR * years,
                    stake_after: self.stake_vault.amount@ + stake,
                    total_after: self.total_voting_power@ + power,
                },
            )
        }
    }

    /// The state after an enrolment, but for the store that the new
    /// certificate went to.
    pub open spec fn enrolled(self, e: Enrolment) -> DaoModel {
        DaoModel {
            stake_vault: Vault {
                resource_address: self.stake_vault.resource_address,
                amount: Fixed::of(e.stake_after),
            },
            total_voting_power: Fixed::of(e.total_after),
            ..self
        }
    }

    /// Whether `badge` names a member's certificate that is in the store.
    pub open spec fn holds_member(self, badge: Badge) -> bool {
        &&& badge.resource_address == self.resources.member_sbt
        &&& badge.id < self.members.len()
        &&& self.members[badge.id as int] is Some
    }

    /// Whether `badge` names a delegator's certificate that is in the store
    /// and in no pool's custody.
    pub open spec fn holds_delegator(self, badge: Badge) -> bool {
        &&& badge.resource_address == self.resources.delegator_badge
        &&& badge.id < self.delegators.len()
        &&& self.delegators[badge.id as int] matches Some(d)
        &&& d.pool is None
    }

    /// Whether `badge` names an unstake certificate that is in the store.
    pub open spec fn holds_unstake(self, badge: Badge) -> bool {
        &&& badge.resource_address == self.resources.unstake_badge
        &&& badge.id < self.unstakes.len()
        &&& self.unstakes[badge.id as int] is Some
    }
}

impl GroundBusinessDAO {
    /// The voting power that a stake of `stake_amount` for `committed_year`
    /// years would have: credential score times stake times commit factor
    /// times trust score. The trust score is one plus the trust factor of the
    /// identity certificate, or one without a certificate; the credential
    /// score is the mean score of the certificates over the credentials of
    /// the entry requirement, or one without certificates.
    ///
    /// Refuses a stake that is not positive and more years than the cap
    /// (`InvalidInput`), certificates that are not of the two services, or
    /// a trust factor outside of zero to one hundred (`VerificationFailed`),
    /// and numbers that have no value (`Arithmetic`).
    pub fn calculate_voting_power(
        &self,
        ground_id: &GroundID,
        ground_cv: &GroundCV,
        id_proof: Option<&IdentityProof>,
        cvs_proof: Option<&CvProof>,
        stake_amount: Fixed,
        committed_year: u8,
    ) -> (r: Result<Fixed, DaoError>)
        requires
            self.wf(),
        ensures
            r == (match self@.calculated_power(
                ground_id.identity_sbt,
                ground_cv.cv_sbt,
                presented_identity(id_proof),
                presented_cvs(cvs_proof),
                stake_amount@,
                committed_year,
            ) {
                Ok(power) => Ok::<Fixed, DaoError>(Fixed::of(power)),
                Err(e) => Err(e),
            }),
            r matches Ok(power) ==> power@ >= 0,
    {
        if !stake_amount.is_positive() || committed_year > self.settings.year_cap {
            return Err(DaoError::InvalidInput);
        }
        let trust = match id_proof {
            None => Fixed::one(),
            Some(shown) => {
                match ground_id.check_resource(shown.resource_address) {
                    Ok(()) => {},
                    Err(e) => {
                        return Err(e);
                    },
                }
                let factor = shown.identity.data.trust_factor;
                if factor.is_negative() || !factor.le(&Fixed::from_int(100)) {
                    return Err(DaoError::VerificationFailed);
                }
                Fixed::one().checked_add(factor).unwrap()
            },
        };
        let mut ids: Vec<u32> = Vec::new();
        let mut k: usize = 0;
        while k < self.member_entry_requirement.len()
            invariant
                k <= self.member_entry_requirement.len(),
                ids@ =~= self@.score_ids().take(k as int),
            decreases self.member_entry_requirement.len() - k,
        {
            ids.push(self.member_entry_requirement[k].0);
            k = k + 1;
        }
        proof {
            assert(self@.score_ids().take(k as int) =~= self@.score_ids());
        }
        let score = match cvs_proof {
            None => Fixed::one(),
            Some(shown) => {
                match ground_cv.check_resource(shown.resource_address) {
                    Ok(()) => {},
                    Err(e) => {
                        return Err(e);
                    },
                }
                match ground_cv.get_aggregrated_cv_score(&shown.cvs, &ids) {
                    Ok(s) => s,
                    Err(e) => {
                        return Err(e);
                    },
                }
            },
        };
        let commit = match commit_factor_of(self.settings.year_commited_rate, committed_year) {
            Some(c) => c,
            None => {
                return Err(DaoError::Arithmetic);
            },
        };
        proof {
            match cvs_proof {
                Some(shown) => {
                    lemma_aggregated_score_nonnegative(shown.cvs@, self@.score_ids());
                },
                None => {},
            }
            lemma_commit_factor_nonnegative(self.settings.year_commited_rate@, committed_year);
            lemma_voting_power_nonnegative(score@, stake_amount@, commit@, trust@);
        }
        match voting_power_of(score, stake_amount, commit, trust) {
            Some(power) => Ok(power),
            None => Err(DaoError::Arithmetic),
        }
    }

    /// Makes the holder of the two certificates a member: checks the identity
    /// certificate and the entry requirement, computes the voting power of
    /// the stake, moves the stake into the stake vault, and mints a member's
    /// certificate that unlocks `committed_year` years after `now`. Hands
    /// back the badge that names the new certificate.
    ///
    /// Refuses a bucket of another asset or without a positive amount, no
    /// years or more than the cap (`InvalidInput`), certificates that are not
    /// of the two services or do not meet the entry requirement
    /// (`VerificationFailed`), and numbers that have no value (`Arithmetic`).
    /// A refusal changes nothing.
    pub fn become_dao_member(
        &mut self,
        ground_id: &GroundID,
        ground_cv: &GroundCV,
        id_proof: &IdentityProof,
        cvs_proof: &CvProof,
        staking_bucket: Bucket,
        committed_year: u8,
        now: u64,
    ) -> (r: Result<Badge, DaoError>)
        requires
            old(self).wf(),
        ensures
            final(self).wf(),
            match old(self)@.member_power(
                ground_id.identity_sbt,
                ground_cv.cv_sbt,
                presented_identity(Some(id_proof))->0,
                presented_cvs(Some(cvs_proof))->0,
                staking_bucket,
                committed_year,
            ) {
                Err(e) => r matches Err(f) && f == e && final(self)@ == old(self)@,
                Ok(power) => match old(self)@.enrolment(
                    power,
                    staking_bucket.amount@,
                    committed_year,
                    now,
                ) {
                    Err(e) => r matches Err(f) && f == e && final(self)@ == old(self)@,
                    Ok(e) => {
                        &&& r == Ok::<Badge, DaoError>(
                            Badge {
                                resource_address: old(self).resources.member_sbt,
                                id: old(self).members.len() as u64,
                            },
                        )
                        &&& final(self)@.members.len() == old(self)@.members.len() + 1
                        &&& final(self)@ == (DaoModel {
                            members: old(self)@.members.push(final(self)@.members.last()),
                            ..old(self)@.enrolled(e)
                        })
                        &&& final(self)@.members.last() matches Some(m)
                        &&& m.voting_pool is None
                        &&& fresh_record(
                            m.data,
                            e.power,
                            committed_year,
                            staking_bucket.amount@,
                            e.unlock,
                        )
                    },
                },
            },
    {
        if staking_bucket.resource_address != self.stake_vault.resource_address || committed_year
            == 0 || committed_year > self.settings.year_cap || !staking_bucket.amount.is_positive() {
            return Err(DaoError::InvalidInput);
        }
        match ground_id.check_resource(id_proof.resource_address) {
            Ok(()) => {},
            Err(e) => {
                return Err(e);
            },
        }
        let factor = id_proof.identity.data.trust_factor;
        if factor.is_negative() || !factor.le(&Fixed::from_int(100)) {
            return Err(DaoError::VerificationFailed);
        }
        match ground_cv.check_resource(cvs_proof.resource_address) {
            Ok(()) => {},
            Err(e) => {
                return Err(e);
            },
        }
        let score = match ground_cv.check_requirements_and_get_aggregrated_cv_score(
            &cvs_proof.cvs,
            &self.member_entry_requirement,
        ) {
            Ok(s) => s,
            Err(e) => {
                return Err(e);
            },
        };
        let trust = Fixed::one().checked_add(factor).unwrap();
        let commit = match commit_factor_of(self.settings.year_commited_rate, committed_year) {
            Some(c) => c,
            None => {
                return Err(DaoError::Arithmetic);
            },
        };
        let amount = staking_bucket.amount;
        let voting_power = match voting_power_of(score, amount, commit, trust) {
            Some(p) => p,
            None => {
                return Err(DaoError::Arithmetic);
            },
        };
        proof {
            lemma_aggregated_score_nonnegative(cvs_proof.cvs@, self@.score_ids());
            lemma_commit_factor_nonnegative(self.settings.year_commited_rate@, committed_year);
            lemma_voting_power_nonnegative(score@, amount@, commit@, trust@);
        }
        let unlock = match now.checked_add(YEAR * (committed_year as u64)) {
            Some(t) => t,
            None => {
                return Err(DaoError::Arithmetic);
            },
        };
        let stake_after = match self.stake_vault.amount.checked_add(amount) {
            Some(a) => a,
            None => {
                return Err(DaoError::Arithmetic);
            },
        };
        let total_after = match self.total_voting_power.checked_add(voting_power) {
            Some(t) => t,
            None => {
                return Err(DaoError::Arithmetic);
            },
        };
        let id = self.members.len() as u64;
        self.stake_vault.amount = stake_after;
        self.total_voting_power = total_after;
        self.members.push(
            Some(
                DAOMember {
                    data: DAOContributorData {
                        voting_power,
                        voted_proposal: HashMap::new(),
                        committed_year,
                        staking_amount: amount,
                        allow_unstaking_time: unlock,
                    },
                    voting_pool: None,
                },
            ),
        );
        proof {
            let before = old(self)@.members;
            let after = self@.members;
            assert(member_powers(after) =~= member_powers(before).push(voting_power@));
            assert(member_stakes(after) =~= member_stakes(before).push(amount@));
            lemma_sum_push(member_powers(before), voting_power@);
            lemma_sum_push(member_stakes(before), amount@);
            assert(after =~= before.push(after.last()));
        }
        Ok(Badge { resource_address: self.resources.member_sbt, id })
    }

    /// Stakes the bucket for a delegator: computes the voting power as
    /// `calculate_voting_power` does, moves the stake into the stake vault,
    /// and mints a delegator's certificate that unlocks `committed_year`
    /// years after `now`. Hands back the badge that names the new certificate.
    ///
    /// Refuses a bucket of another asset (`InvalidInput`) and what
    /// `calculate_voting_power` refuses; `Arithmetic` too where a number has
    /// no value. A refusal changes nothing.
    pub fn delegate_dao_share(
        &mut self,
        ground_id: &GroundID,
        ground_cv: &GroundCV,
        id_proof: Option<&IdentityProof>,
        cvs_proof: Option<&CvProof>,
        delegate_bucket: Bucket,
        committed_year: u8,
        now: u64,
    ) -> (r: Result<Badge, DaoError>)
        requires
            old(self).wf(),
        ensures
            final(self).wf(),
            match old(self)@.delegate_power(
                ground_id.identity_sbt,
                ground_cv.cv_sbt,
                presented_identity(id_proof),
                presented_cvs(cvs_proof),
                delegate_bucket,
                committed_year,
            ) {
                Err(e) => r matches Err(f) && f == e && final(self)@ == old(self)@,
                Ok(power) => match old(self)@.enrolment(
                    power,
                    delegate_bucket.amount@,
                    committed_year,
                    now,
                ) {
                    Err(e) => r matches Err(f) && f == e && final(self)@ == old(self)@,
                    Ok(e) => {
                        &&& r == Ok::<Badge, DaoError>(
                            Badge {
                                resource_address: old(self).resources.delegator_badge,
                                id: old(self).delegators.len() as u64,
                            },
                        )
                        &&& final(self)@.delegators.len() == old(self)@.delegators.len() + 1
                        &&& final(self)@ == (DaoModel {
                            delegators: old(self)@.delegators.push(final(self)@.delegators.last()),
                            ..old(self)@.enrolled(e)
                        })
                        &&& final(self)@.delegators.last() matches Some(d)
                        &&& d.pool is None
                        &&& fresh_record(
                            d.data,
                            e.power,
                            committed_year,
                            delegate_bucket.amount@,
                            e.unlock,
                        )
                    },
                },
            },
    {
        if delegate_bucket.resource_address != self.stake_vault.resource_address {
            return Err(DaoError::InvalidInput);
        }
        let amount = delegate_bucket.amount;
        let voting_power = match self.calculate_voting_power(
            ground_id,
            ground_cv,
            id_proof,
            cvs_proof,
            amount,
            committed_year,
        ) {
            Ok(p) => p,
            Err(e) => {
                return Err(e);
            },
        };
        let unlock = match now.checked_add(YEAR * (committed_year as u64)) {
            Some(t) => t,
            None => {
                return Err(DaoError::Arithmetic);
            },
        };
        let stake_after = match self.stake_vault.amount.checked_add(amount) {
            Some(a) => a,
            None => {
                return Err(DaoError::Arithmetic);
            },
        };
        let total_after = match self.total_voting_power.checked_add(voting_power) {
            Some(t) => t,
            None => {
                return Err(DaoError::Arithmetic);
            },
        };
        let id = self.delegators.len() as u64;
        self.stake_vault.amount = stake_after;
        self.total_voting_power = total_after;
        self.delegators.push(
            Some(
                Delegator {
                    data: DAOContributorData {
                        voting_power,
                        voted_proposal: HashMap::new(),
                        committed_year,
                        staking_amount: amount,
                        allow_unstaking_time: unlock,
                    },
                    pool: None,
                },
            ),
        );
        proof {
            let before = old(self)@.delegators;
            let after = self@.delegators;
            assert(delegator_powers(after) =~= delegator_powers(before).push(voting_power@));
            assert(delegator_stakes(after) =~= delegator_stakes(before).push(amount@));
            lemma_sum_push(delegator_powers(before), voting_power@);
            lemma_sum_push(delegator_stakes(before), amount@);
            assert(after =~= before.push(after.last()));
        }
        Ok(Badge { resource_address: self.resources.delegator_badge, id })
    }
}

} // verus!
