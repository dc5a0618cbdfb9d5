//! What holds of the engine whatever is asked of it, proved from the
//! contracts of its operations.

use vstd::prelude::*;
use crate::assets::Badge;
use crate::error::DaoError;
use crate::fixed::{bounded, lemma_mul_monotone, lemma_mul_one, mul_attos, pow_checked, SCALE};
use crate::ground_business_dao::{
    commit_factor, effective_input, voted_record, voting_power, DaoModel, ExecutionPlan,
};

verus! {

/// Voting power does not shrink as the stake, the commit factor or the
/// trust score grows: where the voting power of the larger factors has a
/// value, that of the smaller has one too, and it is not the larger.
pub proof fn voting_power_grows_with_its_factors(
    score: int,
    stake: int,
    more_stake: int,
    commit: int,
    more_commit: int,
    trust: int,
    more_trust: int,
)
    requires
        0 <= score,
        0 <= stake <= more_stake,
        0 <= commit <= more_commit,
        0 <= trust <= more_trust,
    ensures
        voting_power(score, more_stake, more_commit, more_trust) matches Some(larger)
            ==> voting_power(score, stake, commit, trust) matches Some(smaller) && 0 <= smaller
            <= larger,
{
    lemma_mul_monotone(score, stake, score, more_stake);
    let a = mul_attos(score, stake);
    let a2 = mul_attos(score, more_stake);
    lemma_mul_monotone(a, commit, a2, more_commit);
    let b = mul_attos(a, commit);
    let b2 = mul_attos(a2, more_commit);
    lemma_mul_monotone(b, trust, b2, more_trust);
}

/// With a rate that is not negative, a power of one plus the rate is at
/// least one and does not shrink as the exponent grows; it has a value
/// wherever a higher power has one.
pub proof fn lemma_pow_grows(base: int, n: nat, m: nat)
    requires
        base >= SCALE,
        n <= m,
    ensures
        pow_checked(base, m) matches Some(larger) ==> pow_checked(base, n) matches Some(smaller)
            && SCALE <= smaller <= larger,
    decreases m,
{
    if m > 0 {
        if n < m {
            lemma_pow_grows(base, n, (m - 1) as nat);
        }
        lemma_pow_grows(base, (m - 1) as nat, (m - 1) as nat);
        match pow_checked(base, (m - 1) as nat) {
            Some(p) => {
                lemma_mul_monotone(p, SCALE as int, p, base);
                lemma_mul_one(p);
            },
            None => {},
        }
    }
}

/// The commit factor does not shrink as more years are committed.
pub proof fn commit_factor_grows_with_years(rate: int, years: u8, more_years: u8)
    requires
        0 <= rate,
        years <= more_years,
    ensures
        commit_factor(rate, more_years) matches Some(larger) ==> commit_factor(rate, years) matches Some(
            smaller,
        ) && SCALE <= smaller <= larger,
{
    if bounded(SCALE + rate) is Some {
        lemma_pow_grows(SCALE + rate, years as nat, more_years as nat);
    }
}

/// Voting power does not shrink as the stake, the trust score or the years
/// committed grow, all else being the same.
pub proof fn voting_power_grows(
    score: int,
    rate: int,
    stake: int,
    more_stake: int,
    years: u8,
    more_years: u8,
    trust: int,
    more_trust: int,
)
    requires
        0 <= score,
        0 <= rate,
        0 <= stake <= more_stake,
        years <= more_years,
        0 <= trust <= more_trust,
    ensures
        ({
            let commit = commit_factor(rate, years);
            let more_commit = commit_factor(rate, more_years);
            more_commit is Some && voting_power(score, more_stake, more_commit->0, more_trust)
                is Some ==> {
                &&& commit is Some
                &&& voting_power(score, stake, commit->0, trust) is Some
                &&& voting_power(score, stake, commit->0, trust)->0 <= voting_power(
                    score,
                    more_stake,
                    more_commit->0,
                    more_trust,
                )->0
            }
        }),
{
    commit_factor_grows_with_years(rate, years, more_years);
    match (commit_factor(rate, years), commit_factor(rate, more_years)) {
        (Some(commit), Some(more_commit)) => {
            voting_power_grows_with_its_factors(
                score,
                stake,
                more_stake,
                commit,
                more_commit,
                trust,
                more_trust,
            );
        },
        _ => {},
    }
}

/// In a sound state the total voting power is the voting power of the
/// members' and delegators' certificates that are in the stores, added up:
/// each counted once, and none that was burned. Every operation of the
/// engine leaves a sound state sound.
pub proof fn total_voting_power_is_live_power(state: DaoModel)
    requires
        state.wf(),
    ensures
        state.total_voting_power@ == state.live_voting_power(),
{
}

/// A certificate votes once on a proposal: in any state that differs from
/// the one before a successful vote as a vote makes it differ, a further
/// vote of the same certificate on the same proposal is refused with
/// `AlreadyVoted`, whatever pool is brought.
pub proof fn second_vote_is_refused(
    before: DaoModel,
    after: DaoModel,
    pool: Option<(u64, Seq<u64>)>,
    other_pool: Option<(u64, Seq<u64>)>,
    member: Badge,
    propose_id: u64,
    vote: bool,
)
    requires
        before.ballot(pool, member, propose_id) is Ok,
        after.resources == before.resources,
        after.members.len() == before.members.len(),
        after.proposal_book.len() == before.proposal_book.len(),
        after.members[member.id as int] matches Some(m) && voted_record(
            before.members[member.id as int]->0.data,
            m.data,
            propose_id,
            vote,
        ),
    ensures
        after.ballot(other_pool, member, propose_id) == Err::<
            crate::ground_business_dao::Ballot,
            DaoError,
        >(DaoError::AlreadyVoted),
{
}

/// A proposal is resolved once: where resolving succeeds, the proposal was
/// pending, it is resolved after, the consensus on every other proposal is
/// as before, and resolving it again is refused, its certificate being
/// burned.
pub proof fn proposal_is_resolved_once(
    state: DaoModel,
    badge: Badge,
    total_supply: int,
    later_supply: int,
    plan: ExecutionPlan,
)
    requires
        state.wf(),
        state.execution_plan(badge, total_supply) == Ok::<ExecutionPlan, DaoError>(plan),
    ensures
        state.proposal_book[badge.id as int].status is None,
        state.executed(badge, plan).proposal_book[badge.id as int].status == Some(plan.passed),
        forall|i: int|
            0 <= i < state.proposal_book.len() && i != badge.id ==> state.executed(
                badge,
                plan,
            ).proposal_book[i] == state.proposal_book[i],
        state.executed(badge, plan).execution_plan(badge, later_supply) == Err::<
            ExecutionPlan,
            DaoError,
        >(DaoError::UnknownProposal),
{
}

/// Without a fee all of the input counts, and with a fee less of a positive
/// input counts than was put in.
pub proof fn swap_fee_reduces_input(amount: int, fee: int)
    requires
        0 <= amount <= i128::MAX,
        0 <= fee <= SCALE,
    ensures
        fee == 0 ==> effective_input(amount, fee) == Some(amount),
        fee > 0 && amount > 0 ==> (effective_input(amount, fee) matches Some(counted) && 0
            <= counted < amount),
{
    let s: int = SCALE as int;
    if fee == 0 {
        lemma_mul_one(amount);
    } else if amount > 0 {
        let kept = s - fee;
        assert(0 <= amount * kept <= amount * s - amount) by (nonlinear_arith)
            requires
                amount > 0,
                0 <= kept <= s - 1,
        ;
        assert((amount * kept) / s < amount) by (nonlinear_arith)
            requires
                0 <= amount * kept <= amount * s - amount,
                amount > 0,
                s > 0,
        ;
        assert((amount * kept) / s >= 0) by (nonlinear_arith)
            requires
                0 <= amount * kept,
                s > 0,
        ;
    }
}

/// An unstake certificate pays out exactly its amount from the time it
/// names on, and nothing before: in a sound state the withdrawal is refused
/// with `NotYetUnlocked` before that time and succeeds with the amount at
/// or after it.
pub proof fn unstake_pays_from_its_time_on(state: DaoModel, badge: Badge, now: u64)
    requires
        state.wf(),
        state.holds_unstake(badge),
    ensures
        now < state.unstakes[badge.id as int]->0.end_time ==> state.withdrawal(badge, now) == Err::<
            crate::assets::Bucket,
            DaoError,
        >(DaoError::NotYetUnlocked),
        now >= state.unstakes[badge.id as int]->0.end_time ==> (state.withdrawal(badge, now)
            matches Ok(paid) && paid.amount == state.unstakes[badge.id as int]->0.amount
            && paid.amount@ <= state.stake_vault.amount@),
{
    state.lemma_parts_bounded();
}

/// The stake that a certificate records is the amount that its unstake
/// certificate is for: beginning to unstake moves the recorded stake, as
/// it is, into the new unstake certificate.
pub proof fn unstake_certificate_is_for_the_stake(state: DaoModel, badge: Badge, now: u64)
    requires
        state.wf(),
        state.unstake_start(badge, now) is Ok,
    ensures
        ({
            let (place, end_time) = state.unstake_start(badge, now)->Ok_0;
            let after = state.unstaking(place, end_time);
            &&& after.unstakes.last() matches Some(u)
            &&& u.amount == state.record(place).staking_amount
            &&& u.end_time == now + state.settings.unstake_delay
            &&& after.total_voting_power@ == state.total_voting_power@ - state.record(
                place,
            ).voting_power@
        }),
{
    state.lemma_parts_bounded();
}

} // verus!
