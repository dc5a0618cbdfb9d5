//! Checking at run time that a state is sound.

use vstd::prelude::*;
use crate::fixed::Fixed;
use crate::ground_business_dao::{
    delegator_powers, delegator_stakes, member_powers, member_stakes, unstake_amounts, DAOMember,
    Delegator, GroundBusinessDAO, Unstake,
};
use crate::ground_cv::distinct_requirements;
use crate::ground_id::assert_rate;
use crate::tally::{lemma_sum_nonnegative, lemma_sum_prefix, seq_sum};

verus! {

impl GroundBusinessDAO {
    /// Whether the settings are sound.
    fn settings_sound(&self) -> (r: bool)
        ensures
            r == self.settings.wf(),
    {
        let one = Fixed::one();
        let s = &self.settings;
        !s.swap_fee.is_negative() && s.swap_fee.le(&one) && !s.dividend_rate.is_negative()
            && s.dividend_rate.le(&one) && !s.year_commited_rate.is_negative()
            && s.year_commited_rate.le(&one) && !s.voting_pool_fee.is_negative()
            && s.voting_pool_fee.le(&one) && assert_rate(s.dev_expo_reward).is_ok()
    }

    /// The voting power and the stake of the members' certificates, each
    /// added up; absent where a record is not sound or a sum is more than
    /// can be held.
    fn member_sums(&self) -> (r: Option<(i128, i128)>)
        ensures
            match r {
                Some((power, stake)) => {
                    &&& members_sound(self@.members)
                    &&& power == seq_sum(member_powers(self@.members))
                    &&& stake == seq_sum(member_stakes(self@.members))
                },
                None => !members_sound(self@.members) || seq_sum(member_powers(self@.members))
                    > i128::MAX || seq_sum(member_stakes(self@.members)) > i128::MAX,
            },
    {
        let ghost powers = member_powers(self@.members);
        let ghost stakes = member_stakes(self@.members);
        let mut power: i128 = 0;
        let mut stake: i128 = 0;
        let mut i: usize = 0;
        while i < self.members.len()
            invariant
                i <= self.members.len(),
                powers == member_powers(self@.members),
                stakes == member_stakes(self@.members),
                power == seq_sum(powers.take(i as int)),
                stake == seq_sum(stakes.take(i as int)),
                forall|j: int|
                    0 <= j < i ==> ((#[trigger] self@.members[j]) matches Some(m) ==> m.data.wf()),
            decreases self.members.len() - i,
        {
            let (p, s) = match &self.members[i] {
                Some(m) => {
                    if m.data.voting_power.is_negative() || !m.data.staking_amount.is_positive() {
                        return None;
                    }
                    (m.data.voting_power.attos(), m.data.staking_amount.attos())
                },
                None => (0, 0),
            };
            proof {
                assert(powers.take(i + 1).drop_last() =~= powers.take(i as int));
                assert(stakes.take(i + 1).drop_last() =~= stakes.take(i as int));
                if members_sound(self@.members) {
                    assert forall|j: int| 0 <= j < powers.len() implies powers[j] >= 0 by {
                        assert(self@.members[j] is Some ==> self@.members[j]->0.data.wf());
                    }
                    assert forall|j: int| 0 <= j < stakes.len() implies stakes[j] >= 0 by {
                        assert(self@.members[j] is Some ==> self@.members[j]->0.data.wf());
                    }
                    lemma_sum_prefix(powers, i + 1);
                    lemma_sum_prefix(stakes, i + 1);
                }
            }
            power =
            match power.checked_add(p) {
                Some(next) => next,
                None => {
                    return None;
                },
            };
            stake =
            match stake.checked_add(s) {
                Some(next) => next,
                None => {
                    return None;
                },
            };
            i = i + 1;
        }
        proof {
            assert(powers.take(self.members.len() as int) =~= powers);
            assert(stakes.take(self.members.len() as int) =~= stakes);
        }
        Some((power, stake))
    }

    /// The voting power and the stake of the delegators' certificates, each
    /// added up; absent where a record is not sound or a sum is more than
    /// can be held.
    fn delegator_sums(&self) -> (r: Option<(i128, i128)>)
        ensures
            match r {
                Some((power, stake)) => {
                    &&& delegators_sound(self@.delegators)
                    &&& power == seq_sum(delegator_powers(self@.delegators))
                    &&& stake == seq_sum(delegator_stakes(self@.delegators))
                },
                None => !delegators_sound(self@.delegators) || seq_sum(
                    delegator_powers(self@.delegators),
                ) > i128::MAX || seq_sum(delegator_stakes(self@.delegators)) > i128::MAX,
            },
    {
        let ghost powers = delegator_powers(self@.delegators);
        let ghost stakes = delegator_stakes(self@.delegators);
        let mut power: i128 = 0;
        let mut stake: i128 = 0;
        let mut i: usize = 0;
        while i < self.delegators.len()
            invariant
                i <= self.delegators.len(),
                powers == delegator_powers(self@.delegators),
                stakes == delegator_stakes(self@.delegators),
                power == seq_sum(powers.take(i as int)),
                stake == seq_sum(stakes.take(i as int)),
                forall|j: int|
                    0 <= j < i ==> ((#[trigger] self@.delegators[j]) matches Some(d)
                        ==> d.data.wf()),
            decreases self.delegators.len() - i,
        {
            let (p, s) = match &self.delegators[i] {
                Some(d) => {
                    if d.data.voting_power.is_negative() || !d.data.staking_amount.is_positive() {
                        return None;
                    }
                    (d.data.voting_power.attos(), d.data.staking_amount.attos())
                },
                None => (0, 0),
            };
            proof {
                assert(powers.take(i + 1).drop_last() =~= powers.take(i as int));
                assert(stakes.take(i + 1).drop_last() =~= stakes.take(i as int));
                if delegators_sound(self@.delegators) {
                    assert forall|j: int| 0 <= j < powers.len() implies powers[j] >= 0 by {
                        assert(self@.delegators[j] is Some ==> self@.delegators[j]->0.data.wf());
                    }
                    assert forall|j: int| 0 <= j < stakes.len() implies stakes[j] >= 0 by {
                        assert(self@.delegators[j] is Some ==> self@.delegators[j]->0.data.wf());
                    }
                    lemma_sum_prefix(powers, i + 1);
                    lemma_sum_prefix(stakes, i + 1);
                }
            }
            power =
            match power.checked_add(p) {
                Some(next) => next,
                None => {
                    return None;
                },
            };
            stake =
            match stake.checked_add(s) {
                Some(next) => next,
                None => {
                    return None;
                },
            };
            i = i + 1;
        }
        proof {
            assert(powers.take(self.delegators.len() as int) =~= powers);
            assert(stakes.take(self.delegators.len() as int) =~= stakes);
        }
        Some((power, stake))
    }

    /// The amounts of the unstake certificates, added up; absent where one
    /// is not positive or the sum is more than can be held.
    fn unstake_sum(&self) -> (r: Option<i128>)
        ensures
            match r {
                Some(sum) => unstakes_sound(self@.unstakes) && sum == seq_sum(
                    unstake_amounts(self@.unstakes),
                ),
                None => !unstakes_sound(self@.unstakes) || seq_sum(unstake_amounts(self@.unstakes))
                    > i128::MAX,
            },
    {
        let ghost amounts = unstake_amounts(self@.unstakes);
        let mut sum: i128 = 0;
        let mut i: usize = 0;
        while i < self.unstakes.len()
            invariant
                i <= self.unstakes.len(),
                amounts == unstake_amounts(self@.unstakes),
                sum == seq_sum(amounts.take(i as int)),
                forall|j: int|
                    0 <= j < i ==> ((#[trigger] self@.unstakes[j]) matches Some(u) ==> u.amount@
                        > 0),
            decreases self.unstakes.len() - i,
        {
            let a = match &self.unstakes[i] {
                Some(u) => {
                    if !u.amount.is_positive() {
                        return None;
                    }
                    u.amount.attos()
                },
                None => 0,
            };
            proof {
                assert(amounts.take(i + 1).drop_last() =~= amounts.take(i as int));
                if unstakes_sound(self@.unstakes) {
                    assert forall|j: int| 0 <= j < amounts.len() implies amounts[j] >= 0 by {
                        assert(self@.unstakes[j] is Some ==> self@.unstakes[j]->0.amount@ > 0);
                    }
                    lemma_sum_prefix(amounts, i + 1);
                }
            }
            sum =
            match sum.checked_add(a) {
                Some(next) => next,
                None => {
                    return None;
                },
            };
            i = i + 1;
        }
        proof {
            assert(amounts.take(self.unstakes.len() as int) =~= amounts);
        }
        Some(sum)
    }

    /// Whether the book and the proposals' store are sound.
    fn book_sound(&self) -> (r: bool)
        requires
            self.proposal_book.len() == self.proposals.len(),
        ensures
            r == {
                &&& forall|i: int|
                    0 <= i < self@.proposal_book.len() ==> (#[trigger] self@.proposal_book[i]).wf()
                &&& forall|i: int|
                    0 <= i < self@.proposals.len() ==> ((#[trigger] self@.proposals[i]) is Some
                        ==> self@.proposal_book[i].status is None)
            },
    {
        let mut i: usize = 0;
        while i < self.proposal_book.len()
            invariant
                i <= self.proposal_book.len(),
                self.proposal_book.len() == self.proposals.len(),
                forall|j: int| 0 <= j < i ==> (#[trigger] self@.proposal_book[j]).wf(),
                forall|j: int|
                    0 <= j < i ==> ((#[trigger] self@.proposals[j]) is Some
                        ==> self@.proposal_book[j].status is None),
            decreases self.proposal_book.len() - i,
        {
            let concept = self.proposal_book[i];
            if concept.voted_power.is_negative() || !concept.voted_power.le(&concept.total_voted) {
                assert(!self@.proposal_book[i as int].wf());
                return false;
            }
            if self.proposals[i].is_some() && concept.status.is_some() {
                assert(self@.proposals[i as int] is Some);
                return false;
            }
            i = i + 1;
        }
        true
    }

    /// Whether the state is sound: what every operation asks for and
    /// leaves behind. For callers that build or restore a state themselves.
    pub fn is_sound(&self) -> (r: bool)
        ensures
            r == self.wf(),
    {
        if !self.settings_sound() || self.resources.member_sbt == self.resources.delegator_badge
            || !distinct_requirements(&self.member_entry_requirement) {
            return false;
        }
        if self.treasury.0.amount.is_negative() || self.treasury.1.amount.is_negative()
            || self.stake_vault.amount.is_negative() || self.dividend_vault.amount.is_negative()
            || self.oracle.1.amount.is_negative() {
            return false;
        }
        if self.proposal_book.len() as u64 != self.proposal_id_counter || self.proposals.len() as u64
            != self.proposal_id_counter {
            return false;
        }
        if !self.book_sound() {
            return false;
        }
        let (member_power, member_stake) = match self.member_sums() {
            Some(found) => found,
            None => {
                proof {
                    self.lemma_sums_fit();
                }
                return false;
            },
        };
        let (delegator_power, delegator_stake) = match self.delegator_sums() {
            Some(found) => found,
            None => {
                proof {
                    self.lemma_sums_fit();
                }
                return false;
            },
        };
        let unstaking = match self.unstake_sum() {
            Some(found) => found,
            None => {
                proof {
                    self.lemma_sums_fit();
                }
                return false;
            },
        };
        proof {
            self.lemma_sums_fit();
        }
        match member_power.checked_add(delegator_power) {
            Some(p) => {
                if p != self.total_voting_power.attos() {
                    return false;
                }
            },
            None => {
                return false;
            },
        }
        let owed = match member_stake.checked_add(delegator_stake) {
            Some(both) => both.checked_add(unstaking),
            None => None,
        };
        match owed {
            Some(o) => self.stake_vault.amount.attos() >= o,
            None => false,
        }
    }

    /// In a sound state every sum of a store is between zero and what the
    /// total voting power or the stake vault holds.
    proof fn lemma_sums_fit(&self)
        ensures
            members_sound(self@.members) ==> 0 <= seq_sum(member_powers(self@.members)) && 0
                <= seq_sum(member_stakes(self@.members)),
            delegators_sound(self@.delegators) ==> 0 <= seq_sum(delegator_powers(self@.delegators))
                && 0 <= seq_sum(delegator_stakes(self@.delegators)),
            unstakes_sound(self@.unstakes) ==> 0 <= seq_sum(unstake_amounts(self@.unstakes)),
    {
        if members_sound(self@.members) {
            let powers = member_powers(self@.members);
            let stakes = member_stakes(self@.members);
            assert forall|j: int| 0 <= j < powers.len() implies powers[j] >= 0 by {
                assert(self@.members[j] is Some ==> self@.members[j]->0.data.wf());
            }
            assert forall|j: int| 0 <= j < stakes.len() implies stakes[j] >= 0 by {
                assert(self@.members[j] is Some ==> self@.members[j]->0.data.wf());
            }
            lemma_sum_nonnegative(powers);
            lemma_sum_nonnegative(stakes);
        }
        if delegators_sound(self@.delegators) {
            let powers = delegator_powers(self@.delegators);
            let stakes = delegator_stakes(self@.delegators);
            assert forall|j: int| 0 <= j < powers.len() implies powers[j] >= 0 by {
                assert(self@.delegators[j] is Some ==> self@.delegators[j]->0.data.wf());
            }
            assert forall|j: int| 0 <= j < stakes.len() implies stakes[j] >= 0 by {
                assert(self@.delegators[j] is Some ==> self@.delegators[j]->0.data.wf());
            }
            lemma_sum_nonnegative(powers);
            lemma_sum_nonnegative(stakes);
        }
        if unstakes_sound(self@.unstakes) {
            let amounts = unstake_amounts(self@.unstakes);
            assert forall|j: int| 0 <= j < amounts.len() implies amounts[j] >= 0 by {
                assert(self@.unstakes[j] is Some ==> self@.unstakes[j]->0.amount@ > 0);
            }
            lemma_sum_nonnegative(amounts);
        }
    }
}

/// Whether every record of a members' store is sound.
pub open spec fn members_sound(s: Seq<Option<DAOMember>>) -> bool {
    forall|i: int| 0 <= i < s.len() ==> ((#[trigger] s[i]) matches Some(m) ==> m.data.wf())
}

/// Whether every record of a delegators' store is sound.
pub open spec fn delegators_sound(s: Seq<Option<Delegator>>) -> bool {
    forall|i: int| 0 <= i < s.len() ==> ((#[trigger] s[i]) matches Some(d) ==> d.data.wf())
}

/// Whether every certificate of an unstake store is for a positive amount.
pub open spec fn unstakes_sound(s: Seq<Option<Unstake>>) -> bool {
    forall|i: int| 0 <= i < s.len() ==> ((#[trigger] s[i]) matches Some(u) ==> u.amount@ > 0)
}

} // verus!
