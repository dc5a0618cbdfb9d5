//! The governance and treasury engine.
//!
//! Holders stake the share asset for a number of years and receive a member
//! or a delegator certificate whose voting power is the product of their
//! credential score, their stake, a factor for the years committed and their
//! trust score. Members propose and vote; a proposal with two thirds of the
//! voting power behind it passes. The engine keeps every certificate in a
//! store of its own, under the id that the holder's badge names.

pub mod custody;
pub mod execution;
pub mod membership;
pub mod soundness;
pub mod stakes;
pub mod treasury;
pub mod voting;

pub use self::execution::{
    dev_reward, dev_reward_of, excess_bucket, excess_bucket_of, quorum_threshold,
    quorum_threshold_of, Execution, ExecutionPlan,
};
pub use self::membership::{
    commit_factor, commit_factor_of, fresh_record, identity_accepted,
    lemma_aggregated_score_nonnegative, lemma_commit_factor_nonnegative,
    lemma_voting_power_nonnegative, presented_cvs, presented_identity, trust_score, voting_power,
    voting_power_of, Enrolment,
};
pub use self::soundness::{delegators_sound, members_sound, unstakes_sound};
pub use self::stakes::Holding;
pub use self::treasury::{
    effective_input, effective_input_of, lemma_without_first_absent, lemma_without_first_at,
    swap_output, swap_output_of, without_first, SwapPlan,
};
pub use self::voting::{
    brought_ids, brought_pool, in_custody, lemma_pooled_power_grows,
    lemma_pooled_power_nonnegative, lemma_share_absent_stays, mirrored, pooled_power,
    power_in_custody, share_of_vote, share_upto, voted_record, Ballot, SCRYPTO_CV,
};

use vstd::prelude::*;
use scrypto::types::ComponentAddress;
use std::collections::HashMap;
use crate::assets::{Badge, Bucket, Vault};
use crate::error::DaoError;
use crate::fixed::{div_checked, Fixed, SCALE};
use crate::ground_cv::{distinct_requirements, requirement_ids};
use crate::ground_id::{assert_rate, rate_in_bounds};
use crate::oracle::{parse_time, parsed_time};
use crate::tally::seq_sum;

verus! {

broadcast use vstd::std_specs::hash::group_hash_axioms;

/// Seconds that one committed year locks a stake for.
pub const YEAR: u64 = 1_314_000;

/// The address of a component on the ledger, as scrypto has it. The engine
/// only carries such an address from a proposal to the caller who makes the
/// proposal's calls; nothing here depends on what is in it.
#[verifier::external_type_specification]
#[verifier::external_body]
pub struct ExComponentAddress(ComponentAddress);

/// One call that a proposal asks the organisation to make.
pub struct Method {
    /// Address of the component to call.
    pub component: ComponentAddress,
    pub method: String,
    /// The arguments, each in the ledger's encoding.
    pub args: Vec<Vec<u8>>,
}

/// The calls that a proposal asks the organisation to make, in order.
pub struct Methods {
    pub methods: Vec<Method>,
}

/// One vote as the voter's certificate records it.
#[derive(Clone, Copy, Debug, PartialEq, Eq, Structural)]
pub struct VotedData {
    pub voted_power: Fixed,
    pub vote: bool,
}

/// What a member's or a delegator's certificate records of its holder.
pub struct DAOContributorData {
    pub voting_power: Fixed,
    /// The votes cast and not yet claimed, by proposal id.
    pub voted_proposal: HashMap<u64, VotedData>,
    pub committed_year: u8,
    pub staking_amount: Fixed,
    /// The time from which unstaking may begin.
    pub allow_unstaking_time: u64,
}

/// A member's certificate.
pub struct DAOMember {
    pub data: DAOContributorData,
    /// Address of the voting pool that the member runs, if any.
    pub voting_pool: Option<u64>,
}

/// A delegator's certificate.
pub struct Delegator {
    pub data: DAOContributorData,
    /// Address of the voting pool that has the certificate in custody, if any.
    pub pool: Option<u64>,
}

/// Certifies a stake on its way out: the amount, and when it may be withdrawn.
#[derive(Clone, Copy, Debug, PartialEq, Eq, Structural)]
pub struct Unstake {
    pub amount: Fixed,
    pub end_time: u64,
}

/// A proposal's certificate.
pub struct Proposal {
    pub methods: Methods,
    pub reward_demand: Fixed,
}

/// How far consensus on one proposal has come.
#[derive(Clone, Copy, Debug, PartialEq, Eq, Structural)]
pub struct ConceptData {
    /// Voting power cast so far.
    pub total_voted: Fixed,
    /// Voting power cast in favour so far.
    pub voted_power: Fixed,
    /// Absent while pending; then whether the proposal passed.
    pub status: Option<bool>,
}

impl ConceptData {
    pub fn new() -> (r: ConceptData)
        ensures
            r.total_voted@ == 0,
            r.voted_power@ == 0,
            r.status is None,
    {
        ConceptData { total_voted: Fixed::zero(), voted_power: Fixed::zero(), status: None }
    }

    /// Both counts are sound: in favour is part of cast, and neither is negative.
    pub open spec fn wf(&self) -> bool {
        0 <= self.voted_power@ <= self.total_voted@
    }
}

impl DAOContributorData {
    /// Voting power is not negative and the stake is positive.
    pub open spec fn wf(&self) -> bool {
        &&& self.voting_power@ >= 0
        &&& self.staking_amount@ > 0
    }
}

/// The addresses of the resources that the engine issues or answers to.
#[derive(Clone, Copy, Debug, PartialEq, Eq, Structural)]
pub struct Resources {
    /// The engine's own authority.
    pub controller_badge: u64,
    /// The authority of the voting pools.
    pub pool_controller_badge: u64,
    /// The organisation's authority, which alone may change the settings.
    pub dao_badge: u64,
    pub unstake_badge: u64,
    pub member_sbt: u64,
    pub delegator_badge: u64,
    pub proposal_badge: u64,
}

/// The settings that the organisation's authority may change. Rates are held
/// as fractions of one.
#[derive(Clone, Copy, Debug, PartialEq, Eq, Structural)]
pub struct Settings {
    pub swap_fee: Fixed,
    /// Level of the proposal-authorship skill that a proposer must hold.
    pub proposal_requirement: u8,
    /// Base of the developer reward's growth with the margin of a vote.
    pub dev_expo_reward: Fixed,
    /// Share of the supply minted as dividend for each resolved proposal.
    pub dividend_rate: Fixed,
    /// Gain in voting power for each year committed.
    pub year_commited_rate: Fixed,
    /// Share of a delegator's dividend that goes to the pool.
    pub voting_pool_fee: Fixed,
    /// Most years that a stake may be committed for.
    pub year_cap: u8,
    /// Seconds between the start of unstaking and the withdrawal.
    pub unstake_delay: u64,
}

impl Settings {
    /// Every fraction lies between zero and one, and the reward base above
    /// zero and at most at one hundred.
    pub open spec fn wf(&self) -> bool {
        &&& 0 <= self.swap_fee@ <= SCALE
        &&& 0 <= self.dividend_rate@ <= SCALE
        &&& 0 <= self.year_commited_rate@ <= SCALE
        &&& 0 <= self.voting_pool_fee@ <= SCALE
        &&& rate_in_bounds(self.dev_expo_reward@)
    }
}

/// The voting power of each certificate of a members' store, zero where the
/// certificate is gone.
pub open spec fn member_powers(s: Seq<Option<DAOMember>>) -> Seq<int> {
    Seq::new(
        s.len(),
        |i: int|
            match s[i] {
                Some(m) => m.data.voting_power@,
                None => 0,
            },
    )
}

/// The stake of each certificate of a members' store, zero where the
/// certificate is gone.
pub open spec fn member_stakes(s: Seq<Option<DAOMember>>) -> Seq<int> {
    Seq::new(
        s.len(),
        |i: int|
            match s[i] {
                Some(m) => m.data.staking_amount@,
                None => 0,
            },
    )
}

/// The voting power of each certificate of a delegators' store, zero where
/// the certificate is gone.
pub open spec fn delegator_powers(s: Seq<Option<Delegator>>) -> Seq<int> {
    Seq::new(
        s.len(),
        |i: int|
            match s[i] {
                Some(d) => d.data.voting_power@,
                None => 0,
            },
    )
}

/// The stake of each certificate of a delegators' store, zero where the
/// certificate is gone.
pub open spec fn delegator_stakes(s: Seq<Option<Delegator>>) -> Seq<int> {
    Seq::new(
        s.len(),
        |i: int|
            match s[i] {
                Some(d) => d.data.staking_amount@,
                None => 0,
            },
    )
}

/// The amount of each certificate of an unstake store, zero where the
/// certificate is gone.
pub open spec fn unstake_amounts(s: Seq<Option<Unstake>>) -> Seq<int> {
    Seq::new(
        s.len(),
        |i: int|
            match s[i] {
                Some(u) => u.amount@,
                None => 0,
            },
    )
}

/// The engine.
pub struct GroundBusinessDAO {
    pub resources: Resources,
    pub settings: Settings,
    /// The internal market: the stable asset's pool, then the share asset's.
    pub treasury: (Vault, Vault),
    /// The staked share asset, in escrow.
    pub stake_vault: Vault,
    /// The share asset set aside for dividend claims.
    pub dividend_vault: Vault,
    /// Credential ids that a member must hold, each once, with its least
    /// level.
    pub member_entry_requirement: Vec<(u32, u8)>,
    /// Consensus on each proposal, by proposal id.
    pub proposal_book: Vec<ConceptData>,
    /// The id that the next proposal gets.
    pub proposal_id_counter: u64,
    /// Sum of the voting power of the members' and delegators' certificates.
    pub total_voting_power: Fixed,
    /// Authorities of the protocols that the organisation runs.
    pub protocols: Vec<u64>,
    /// Authorities of the engine and of the voting pools.
    pub dao_controllers: Vec<u64>,
    /// The time oracle in use: its address, and the badge that the engine
    /// shows it.
    pub oracle: (ComponentAddress, Vault),
    /// Members' certificates by id; absent once burned.
    pub members: Vec<Option<DAOMember>>,
    /// Delegators' certificates by id; absent once burned.
    pub delegators: Vec<Option<Delegator>>,
    /// Unstake certificates by id; absent once burned.
    pub unstakes: Vec<Option<Unstake>>,
    /// Proposals' certificates by proposal id; absent once burned.
    pub proposals: Vec<Option<Proposal>>,
}

/// The engine's state as plain mathematical values.
pub struct DaoModel {
    pub resources: Resources,
    pub settings: Settings,
    pub treasury: (Vault, Vault),
    pub stake_vault: Vault,
    pub dividend_vault: Vault,
    pub member_entry_requirement: Seq<(u32, u8)>,
    pub proposal_book: Seq<ConceptData>,
    pub proposal_id_counter: u64,
    pub total_voting_power: Fixed,
    pub protocols: Seq<u64>,
    pub dao_controllers: Seq<u64>,
    pub oracle: (ComponentAddress, Vault),
    pub members: Seq<Option<DAOMember>>,
    pub delegators: Seq<Option<Delegator>>,
    pub unstakes: Seq<Option<Unstake>>,
    pub proposals: Seq<Option<Proposal>>,
}

impl DaoModel {
    /// The voting power of all certificates that are in the stores.
    pub open spec fn live_voting_power(self) -> int {
        seq_sum(member_powers(self.members)) + seq_sum(delegator_powers(self.delegators))
    }

    /// All that the stake vault owes: the stakes of the certificates in the
    /// stores and the amounts of the unstake certificates.
    pub open spec fn owed_stake(self) -> int {
        seq_sum(member_stakes(self.members)) + seq_sum(delegator_stakes(self.delegators)) + seq_sum(
            unstake_amounts(self.unstakes),
        )
    }

    /// What holds of the engine between any two operations.
    pub open spec fn wf(self) -> bool {
        &&& self.settings.wf()
        &&& self.resources.member_sbt != self.resources.delegator_badge
        &&& requirement_ids(self.member_entry_requirement).no_duplicates()
        &&& self.treasury.0.wf()
        &&& self.treasury.1.wf()
        &&& self.stake_vault.wf()
        &&& self.dividend_vault.wf()
        &&& self.oracle.1.wf()
        &&& self.proposal_book.len() == self.proposal_id_counter
        &&& self.proposals.len() == self.proposal_id_counter
        &&& self.total_voting_power@ == self.live_voting_power()
        &&& self.stake_vault.amount@ >= self.owed_stake()
        &&& forall|i: int|
            0 <= i < self.members.len() ==> ((#[trigger] self.members[i]) matches Some(m)
                ==> m.data.wf())
        &&& forall|i: int|
            0 <= i < self.delegators.len() ==> ((#[trigger] self.delegators[i]) matches Some(d)
                ==> d.data.wf())
        &&& forall|i: int|
            0 <= i < self.unstakes.len() ==> ((#[trigger] self.unstakes[i]) matches Some(u)
                ==> u.amount@ > 0)
        &&& forall|i: int| 0 <= i < self.proposal_book.len() ==> (#[trigger] self.proposal_book[i]).wf()
        &&& forall|i: int|
            0 <= i < self.proposals.len() ==> ((#[trigger] self.proposals[i]) is Some
                ==> self.proposal_book[i].status is None)
    }
}

impl View for GroundBusinessDAO {
    type V = DaoModel;

    open spec fn view(&self) -> DaoModel {
        DaoModel {
            resources: self.resources,
            settings: self.settings,
            treasury: self.treasury,
            stake_vault: self.stake_vault,
            dividend_vault: self.dividend_vault,
            member_entry_requirement: self.member_entry_requirement@,
            proposal_book: self.proposal_book@,
            proposal_id_counter: self.proposal_id_counter,
            total_voting_power: self.total_voting_power,
            protocols: self.protocols@,
            dao_controllers: self.dao_controllers@,
            oracle: self.oracle,
            members: self.members@,
            delegators: self.delegators@,
            unstakes: self.unstakes@,
            proposals: self.proposals@,
        }
    }
}

/// A rate given in percent as a fraction of one, rounded toward zero.
pub open spec fn percent_fraction(rate: int) -> int {
    rate / 100
}

/// For a rate in percent that is not negative, the fixed-point quotient by
/// one hundred is the fraction, which can be held.
pub proof fn lemma_percent_fraction(rate: int)
    requires
        0 <= rate <= i128::MAX,
    ensures
        div_checked(rate, 100 * SCALE) == Some(percent_fraction(rate)),
        0 <= percent_fraction(rate) <= rate,
{
    let s: int = SCALE as int;
    assert(rate * s >= 0) by (nonlinear_arith)
        requires
            rate >= 0,
            s > 0,
    ;
    assert((rate * s) / (100 * s) == rate / 100) by {
        vstd::arithmetic::div_mod::lemma_div_multiples_vanish_quotient(s, rate, 100);
        assert(s * rate == rate * s) by (nonlinear_arith);
        assert(s * 100 == 100 * s);
    }
}

/// A rate in percent as a fraction of one. Refuses a rate that is not above
/// zero and at most one hundred (`InvalidInput`).
pub fn rate_fraction(rate: Fixed) -> (r: Result<Fixed, DaoError>)
    ensures
        r == (if rate_in_bounds(rate@) {
            Ok::<Fixed, DaoError>(Fixed::of(percent_fraction(rate@)))
        } else {
            Err(DaoError::InvalidInput)
        }),
        r matches Ok(f) ==> 0 <= f@ <= SCALE,
{
    match assert_rate(rate) {
        Ok(()) => {},
        Err(e) => {
            return Err(e);
        },
    }
    proof {
        lemma_percent_fraction(rate@);
    }
    let fraction = rate.checked_div(Fixed::from_int(100));
    Ok(fraction.unwrap())
}

impl GroundBusinessDAO {
    /// What holds of the engine between any two operations.
    pub open spec fn wf(&self) -> bool {
        self@.wf()
    }

    /// What `new` answers: the first check that fails, if one does.
    pub open spec fn new_check(
        resources: Resources,
        member_entry_requirement: Seq<(u32, u8)>,
        dao_token: Bucket,
        stable_coin: Bucket,
        data_badge: Bucket,
        swap_fee: Fixed,
        dividend_rate: Fixed,
        dev_expo_reward: Fixed,
        year_commited_rate: Fixed,
        voting_pool_fee: Fixed,
    ) -> Result<(), DaoError> {
        if !rate_in_bounds(swap_fee@) || !rate_in_bounds(voting_pool_fee@) || !rate_in_bounds(
            dividend_rate@,
        ) || !rate_in_bounds(year_commited_rate@) || !rate_in_bounds(dev_expo_reward@) {
            Err(DaoError::InvalidInput)
        } else if dao_token.amount@ < 0 || stable_coin.amount@ < 0 || data_badge.amount@ < 0
            || resources.member_sbt
            == resources.delegator_badge || !requirement_ids(
            member_entry_requirement,
        ).no_duplicates() {
            Err(DaoError::InvalidInput)
        } else {
            Ok(())
        }
    }

    /// Sets the engine up with what the two buckets hold as its market, the
    /// time oracle at the given address with the badge to show it, no
    /// certificate, no proposal and no voting power. The rates are given in
    /// percent and kept as fractions. Refuses a rate that is not above zero
    /// and at most one hundred, a bucket with a negative amount, one
    /// resource for both the members' and the delegators' certificates, and
    /// an entry requirement that names a credential twice (`InvalidInput`).
    pub fn new(
        resources: Resources,
        dao_token: Bucket,
        stable_coin: Bucket,
        swap_fee: Fixed,
        member_entry_requirement: Vec<(u32, u8)>,
        proposal_requirement: u8,
        dividend_rate: Fixed,
        dev_expo_reward: Fixed,
        year_commited_rate: Fixed,
        voting_pool_fee: Fixed,
        year_cap: u8,
        unstake_delay: u64,
        oracle: (ComponentAddress, Bucket),
        protocols: Vec<u64>,
    ) -> (r: Result<GroundBusinessDAO, DaoError>)
        ensures
            match Self::new_check(
                resources,
                member_entry_requirement@,
                dao_token,
                stable_coin,
                oracle.1,
                swap_fee,
                dividend_rate,
                dev_expo_reward,
                year_commited_rate,
                voting_pool_fee,
            ) {
                Err(e) => r matches Err(f) && f == e,
                Ok(()) => r matches Ok(dao) && dao.wf() && dao@ == (DaoModel {
                    resources,
                    settings: Settings {
                        swap_fee: Fixed::of(percent_fraction(swap_fee@)),
                        proposal_requirement,
                        dev_expo_reward,
                        dividend_rate: Fixed::of(percent_fraction(dividend_rate@)),
                        year_commited_rate: Fixed::of(percent_fraction(year_commited_rate@)),
                        voting_pool_fee: Fixed::of(percent_fraction(voting_pool_fee@)),
                        year_cap,
                        unstake_delay,
                    },
                    treasury: (
                        Vault {
                            resource_address: stable_coin.resource_address,
                            amount: stable_coin.amount,
                        },
                        Vault { resource_address: dao_token.resource_address, amount: dao_token.amount },
                    ),
                    stake_vault: Vault {
                        resource_address: dao_token.resource_address,
                        amount: Fixed::of(0),
                    },
                    dividend_vault: Vault {
                        resource_address: dao_token.resource_address,
                        amount: Fixed::of(0),
                    },
                    member_entry_requirement: member_entry_requirement@,
                    proposal_book: Seq::empty(),
                    proposal_id_counter: 0,
                    total_voting_power: Fixed::of(0),
                    protocols: protocols@,
                    dao_controllers: seq![resources.controller_badge],
                    oracle: (
                        oracle.0,
                        Vault { resource_address: oracle.1.resource_address, amount: oracle.1.amount },
                    ),
                    members: Seq::empty(),
                    delegators: Seq::empty(),
                    unstakes: Seq::empty(),
                    proposals: Seq::empty(),
                }),
            },
    {
        let swap_fee = match rate_fraction(swap_fee) {
            Ok(f) => f,
            Err(e) => {
                return Err(e);
            },
        };
        let voting_pool_fee = match rate_fraction(voting_pool_fee) {
            Ok(f) => f,
            Err(e) => {
                return Err(e);
            },
        };
        let dividend_rate = match rate_fraction(dividend_rate) {
            Ok(f) => f,
            Err(e) => {
                return Err(e);
            },
        };
        let year_commited_rate = match rate_fraction(year_commited_rate) {
            Ok(f) => f,
            Err(e) => {
                return Err(e);
            },
        };
        match assert_rate(dev_expo_reward) {
            Ok(()) => {},
            Err(e) => {
                return Err(e);
            },
        }
        if dao_token.amount.is_negative() || stable_coin.amount.is_negative()
            || oracle.1.amount.is_negative() || resources.member_sbt == resources.delegator_badge || !distinct_requirements(
            &member_entry_requirement,
        ) {
            return Err(DaoError::InvalidInput);
        }
        let mut dao_controllers: Vec<u64> = Vec::new();
        dao_controllers.push(resources.controller_badge);
        let dao = GroundBusinessDAO {
            resources,
            settings: Settings {
                swap_fee,
                proposal_requirement,
                dev_expo_reward,
                dividend_rate,
                year_commited_rate,
                voting_pool_fee,
                year_cap,
                unstake_delay,
            },
            treasury: (
                Vault { resource_address: stable_coin.resource_address, amount: stable_coin.amount },
                Vault { resource_address: dao_token.resource_address, amount: dao_token.amount },
            ),
            stake_vault: Vault::new(dao_token.resource_address),
            dividend_vault: Vault::new(dao_token.resource_address),
            member_entry_requirement,
            proposal_book: Vec::new(),
            proposal_id_counter: 0,
            total_voting_power: Fixed::zero(),
            protocols,
            dao_controllers,
            oracle: (
                oracle.0,
                Vault { resource_address: oracle.1.resource_address, amount: oracle.1.amount },
            ),
            members: Vec::new(),
            delegators: Vec::new(),
            unstakes: Vec::new(),
            proposals: Vec::new(),
        };
        proof {
            assert(member_powers(dao@.members) =~= Seq::<int>::empty());
            assert(delegator_powers(dao@.delegators) =~= Seq::<int>::empty());
            assert(member_stakes(dao@.members) =~= Seq::<int>::empty());
            assert(delegator_stakes(dao@.delegators) =~= Seq::<int>::empty());
            assert(unstake_amounts(dao@.unstakes) =~= Seq::<int>::empty());
            assert(dao@.dao_controllers =~= seq![resources.controller_badge]);
        }
        Ok(dao)
    }
}

impl GroundBusinessDAO {
    /// The time that the oracle reported as `data`, for a caller that holds
    /// the engine's own authority. Refuses another caller
    /// (`UnauthorizedController`) and data that does not write a count of
    /// seconds (`InvalidInput`).
    pub fn current(&self, controller_proof: &Badge, data: &str) -> (r: Result<u64, DaoError>)
        ensures
            r == (if controller_proof.resource_address != self.resources.controller_badge {
                Err::<u64, DaoError>(DaoError::UnauthorizedController)
            } else {
                match parsed_time(data@) {
                    Some(time) => Ok(time),
                    None => Err(DaoError::InvalidInput),
                }
            }),
    {
        if controller_proof.resource_address != self.resources.controller_badge {
            return Err(DaoError::UnauthorizedController);
        }
        match parse_time(data) {
            Some(time) => Ok(time),
            None => Err(DaoError::InvalidInput),
        }
    }
}

} // verus!
