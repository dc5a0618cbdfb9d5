//! Resolving a proposal: the quorum, the developer's reward and the dividend.

use vstd::prelude::*;
use crate::assets::{Badge, Bucket, Vault};
use crate::error::DaoError;
use crate::fixed::{
    bounded, div_checked, expo, floor_attos, lemma_mul_nonnegative, mul_checked, pow_checked,
    Fixed, SCALE,
};
use crate::ground_business_dao::{ConceptData, DaoModel, GroundBusinessDAO, Methods};

verus! {

/// Two thirds of `total`: the voting power that must be cast before a
/// proposal can be resolved, and that must be in favour for it to pass.
pub open spec fn quorum_threshold(total: int) -> Option<int> {
    match mul_checked(total, 2 * SCALE) {
        Some(double) => div_checked(double, 3 * SCALE),
        None => None,
    }
}

/// How many whole times the total voting power fits into the margin by which
/// the power in favour exceeds the threshold; absent where a number on the
/// way has no value or the count is not between 0 and 255.
pub open spec fn excess_bucket(yes: int, threshold: int, total: int) -> Option<u8> {
    match bounded(yes - threshold) {
        Some(margin) => match div_checked(margin, total) {
            Some(ratio) => {
                let whole = floor_attos(ratio) / (SCALE as int);
                if 0 <= whole <= 255 {
                    Some(whole as u8)
                } else {
                    None
                }
            },
            None => None,
        },
        None => None,
    }
}

/// The developer's reward: the demand times the reward base raised to the
/// power of the bucket.
pub open spec fn dev_reward(demand: int, base: int, bucket: u8) -> Option<int> {
    match pow_checked(base, bucket as nat) {
        Some(factor) => mul_checked(demand, factor),
        None => None,
    }
}

/// Two thirds of `total`.
pub fn quorum_threshold_of(total: Fixed) -> (r: Option<Fixed>)
    ensures
        r == Fixed::of_checked(quorum_threshold(total@)),
{
    match total.checked_mul(Fixed::from_int(2)) {
        Some(double) => double.checked_div(Fixed::from_int(3)),
        None => None,
    }
}

/// The bucket of a vote's margin.
pub fn excess_bucket_of(yes: Fixed, threshold: Fixed, total: Fixed) -> (r: Option<u8>)
    ensures
        r == excess_bucket(yes@, threshold@, total@),
{
    let margin = match yes.checked_sub(threshold) {
        Some(m) => m,
        None => {
            return None;
        },
    };
    let ratio = match margin.checked_div(total) {
        Some(q) => q,
        None => {
            return None;
        },
    };
    assert(floor_attos(ratio@) <= ratio@ && floor_attos(ratio@) / (SCALE as int) == ratio@ / (
    SCALE as int)) by {
        vstd::arithmetic::div_mod::lemma_fundamental_div_mod(ratio@, SCALE as int);
        vstd::arithmetic::div_mod::lemma_div_multiples_vanish(ratio@ / (SCALE as int), SCALE as int);
        vstd::arithmetic::mul::lemma_mul_is_commutative(ratio@ / (SCALE as int), SCALE as int);
    }
    if ratio.is_negative() {
        assert(ratio@ / (SCALE as int) < 0);
        return None;
    }
    let whole: i128 = ratio.attos() / SCALE;
    if whole <= 255 {
        Some(whole as u8)
    } else {
        None
    }
}

/// The developer's reward.
pub fn dev_reward_of(demand: Fixed, base: Fixed, bucket: u8) -> (r: Option<Fixed>)
    ensures
        r == Fixed::of_checked(dev_reward(demand@, base@, bucket)),
{
    match expo(base, bucket) {
        Some(factor) => demand.checked_mul(factor),
        None => None,
    }
}

/// What resolving a proposal does: whether it passed, the dividend that is
/// minted into the stake vault, the developer's reward (zero where the
/// proposal is rejected), and what the stake vault holds after.
pub struct ExecutionPlan {
    pub passed: bool,
    pub dividend: int,
    pub reward: int,
    pub stake_after: int,
}

/// What resolving a proposal hands back.
pub struct Execution {
    pub passed: bool,
    /// The proposal's calls, for the caller to make under the organisation's
    /// authority; absent where the proposal is rejected.
    pub calls: Option<Methods>,
    /// The developer's reward in the share asset; absent where the proposal
    /// is rejected.
    pub reward: Option<Bucket>,
    /// All of the share asset that has to be minted: dividend and reward.
    pub minted: Fixed,
}

impl DaoModel {
    /// Whether `badge` names a proposal certificate that is in the store.
    pub open spec fn holds_proposal(self, badge: Badge) -> bool {
        &&& badge.resource_address == self.resources.proposal_badge
        &&& badge.id < self.proposals.len()
        &&& self.proposals[badge.id as int] is Some
    }

    /// What `execute_concept` decides for `badge` when the share asset's
    /// supply is `total_supply`: the plan, or the first check that fails.
    pub open spec fn execution_plan(self, badge: Badge, total_supply: int) -> Result<
        ExecutionPlan,
        DaoError,
    > {
        if badge.resource_address != self.resources.proposal_badge {
            Err(DaoError::WrongResource)
        } else if !self.holds_proposal(badge) {
            Err(DaoError::UnknownProposal)
        } else {
            let concept = self.proposal_book[badge.id as int];
            let demand = self.proposals[badge.id as int]->0.reward_demand@;
            match quorum_threshold(self.total_voting_power@) {
                None => Err(DaoError::Arithmetic),
                Some(threshold) => if concept.total_voted@ < threshold {
                    Err(DaoError::QuorumNotMet)
                } else if total_supply < 0 {
                    Err(DaoError::InvalidInput)
                } else {
                    match mul_checked(total_supply, self.settings.dividend_rate@) {
                        None => Err(DaoError::Arithmetic),
                        Some(dividend) => match bounded(self.stake_vault.amount@ + dividend) {
                            None => Err(DaoError::Arithmetic),
                            Some(stake_after) => if concept.voted_power@ < threshold {
                                Ok(
                                    ExecutionPlan {
                                        passed: false,
                                        dividend,
                                        reward: 0,
                                        stake_after,
                                    },
                                )
                            } else {
                                match excess_bucket(
                                    concept.voted_power@,
                                    threshold,
                                    self.total_voting_power@,
                                ) {
                                    None => Err(DaoError::Arithmetic),
                                    Some(bucket) => match dev_reward(
                                        demand,
                                        self.settings.dev_expo_reward@,
                                        bucket,
                                    ) {
                                        None => Err(DaoError::Arithmetic),
                                        Some(reward) => match bounded(dividend + reward) {
                                            None => Err(DaoError::Arithmetic),
                                            Some(minted) => Ok(
                                                ExecutionPlan {
                                                    passed: true,
                                                    dividend,
                                                    reward,
                                                    stake_after,
                                                },
                                            ),
                                        },
                                    },
                                }
                            },
                        },
                    }
                },
            }
        }
    }

    /// The state after the proposal that `badge` names was resolved by `plan`.
    pub open spec fn executed(self, badge: Badge, plan: ExecutionPlan) -> DaoModel {
        DaoModel {
            stake_vault: Vault {
                resource_address: self.stake_vault.resource_address,
                amount: Fixed::of(plan.stake_after),
            },
            proposal_book: self.proposal_book.update(
                badge.id as int,
                ConceptData {
                    total_voted: self.proposal_book[badge.id as int].total_voted,
                    voted_power: self.proposal_book[badge.id as int].voted_power,
                    status: Some(plan.passed),
                },
            ),
            proposals: self.proposals.update(badge.id as int, None),
            ..self
        }
    }
}

impl GroundBusinessDAO {
    /// Resolves the proposal that `proposal_badge` names, once two thirds of
    /// the total voting power have been cast on it: it passes where two
    /// thirds are in favour, and is rejected otherwise. Either way the
    /// proposal's certificate is burned and a dividend of the share asset's
    /// supply times the dividend rate is minted into the stake vault. Where
    /// the proposal passes, its calls and the developer's reward are handed
    /// back.
    ///
    /// Refuses a badge of another resource (`WrongResource`), a badge whose
    /// certificate is not in the store (`UnknownProposal`), too few votes cast
    /// (`QuorumNotMet`), a negative supply (`InvalidInput`), and numbers that
    /// have no value (`Arithmetic`). A refusal changes nothing.
    pub fn execute_concept(&mut self, proposal_badge: Badge, total_supply: Fixed) -> (r: Result<
        Execution,
        DaoError,
    >)
        requires
            old(self).wf(),
        ensures
            final(self).wf(),
            match old(self)@.execution_plan(proposal_badge, total_supply@) {
                Err(e) => r matches Err(f) && f == e && final(self)@ == old(self)@,
                Ok(plan) => {
                    &&& r matches Ok(done)
                    &&& done.passed == plan.passed
                    &&& done.minted@ == plan.dividend + plan.reward
                    &&& done.calls == (if plan.passed {
                        Some(old(self)@.proposals[proposal_badge.id as int]->0.methods)
                    } else {
                        None
                    })
                    &&& done.reward == (if plan.passed {
                        Some(
                            Bucket {
                                resource_address: old(self).stake_vault.resource_address,
                                amount: Fixed::of(plan.reward),
                            },
                        )
                    } else {
                        None
                    })
                    &&& final(self)@ == old(self)@.executed(proposal_badge, plan)
                },
            },
    {
        if proposal_badge.resource_address != self.resources.proposal_badge {
            return Err(DaoError::WrongResource);
        }
        if proposal_badge.id >= self.proposals.len() as u64 {
            return Err(DaoError::UnknownProposal);
        }
        let idx = proposal_badge.id as usize;
        let demand = match &self.proposals[idx] {
            Some(p) => p.reward_demand,
            None => {
                return Err(DaoError::UnknownProposal);
            },
        };
        let concept = self.proposal_book[idx];
        let threshold = match quorum_threshold_of(self.total_voting_power) {
            Some(t) => t,
            None => {
                return Err(DaoError::Arithmetic);
            },
        };
        if concept.total_voted.lt(&threshold) {
            return Err(DaoError::QuorumNotMet);
        }
        if total_supply.is_negative() {
            return Err(DaoError::InvalidInput);
        }
        let dividend = match total_supply.checked_mul(self.settings.dividend_rate) {
            Some(d) => d,
            None => {
                return Err(DaoError::Arithmetic);
            },
        };
        let stake_after = match self.stake_vault.amount.checked_add(dividend) {
            Some(a) => a,
            None => {
                return Err(DaoError::Arithmetic);
            },
        };
        proof {
            lemma_mul_nonnegative(total_supply@, self.settings.dividend_rate@);
        }
        let passed = !concept.voted_power.lt(&threshold);
        let mut reward = Fixed::zero();
        let mut minted = dividend;
        if passed {
            let bucket = match excess_bucket_of(
                concept.voted_power,
                threshold,
                self.total_voting_power,
            ) {
                Some(b) => b,
                None => {
                    return Err(DaoError::Arithmetic);
                },
            };
            reward =
            match dev_reward_of(demand, self.settings.dev_expo_reward, bucket) {
                Some(x) => x,
                None => {
                    return Err(DaoError::Arithmetic);
                },
            };
            minted =
            match dividend.checked_add(reward) {
                Some(x) => x,
                None => {
                    return Err(DaoError::Arithmetic);
                },
            };
        }
        let taken = self.proposals[idx].take();
        self.proposal_book.set(
            idx,
            ConceptData {
                total_voted: concept.total_voted,
                voted_power: concept.voted_power,
                status: Some(passed),
            },
        );
        self.stake_vault.amount = stake_after;
        let ghost plan = old(self)@.execution_plan(proposal_badge, total_supply@)->Ok_0;
        proof {
            assert(self@.proposals =~= old(self)@.proposals.update(idx as int, None));
            assert(self@ =~= old(self)@.executed(proposal_badge, plan));
        }
        let share = self.stake_vault.resource_address;
        if passed {
            let calls = match taken {
                Some(p) => Some(p.methods),
                None => None,
            };
            Ok(
                Execution {
                    passed,
                    calls,
                    reward: Some(Bucket { resource_address: share, amount: reward }),
                    minted,
                },
            )
        } else {
            Ok(Execution { passed, calls: None, reward: None, minted })
        }
    }
}

} // verus!
