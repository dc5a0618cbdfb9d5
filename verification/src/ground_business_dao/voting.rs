//! Proposals, votes and the shares that votes earn.

use vstd::prelude::*;
use std::collections::HashMap;
use crate::assets::{contains_address, Badge, Bucket, Vault};
use crate::error::DaoError;
use crate::fixed::{bounded, div_checked, Fixed};
use crate::ground_business_dao::{
    delegator_powers, delegator_stakes, member_powers, member_stakes, ConceptData,
    DAOContributorData, DaoModel, Delegator, GroundBusinessDAO, Methods, Proposal, VotedData,
};
use crate::ground_business_dao::membership::presented_cvs;
use crate::ground_cv::{meets_requirement, CiV, CvProof, GroundCV};
use crate::ground_voting_pool::GroundVotingPool;

verus! {

broadcast use vstd::std_specs::hash::group_hash_axioms;

/// Id of the credential that a proposer must hold: the skill of writing the
/// calls that a proposal is made of, which is skill 2 on base 3000.
pub const SCRYPTO_CV: u32 = 3002;

/// Whether `after` is `before` with one more vote recorded: on proposal
/// `propose_id`, of the record's own voting power, for or against.
pub open spec fn voted_record(
    before: DAOContributorData,
    after: DAOContributorData,
    propose_id: u64,
    vote: bool,
) -> bool {
    &&& after.voting_power == before.voting_power
    &&& after.committed_year == before.committed_year
    &&& after.staking_amount == before.staking_amount
    &&& after.allow_unstaking_time == before.allow_unstaking_time
    &&& after.voted_proposal@ == before.voted_proposal@.insert(
        propose_id,
        VotedData { voted_power: before.voting_power, vote },
    )
}

/// Whether the delegator's certificate `id` is in the store and in the
/// custody of the pool at address `pool`.
pub open spec fn in_custody(delegators: Seq<Option<Delegator>>, pool: u64, id: int) -> bool {
    &&& 0 <= id < delegators.len()
    &&& delegators[id] matches Some(d)
    &&& d.pool == Some(pool)
}

/// The voting power of the delegator's certificate `id` where the pool has
/// it in custody, else zero.
pub open spec fn power_in_custody(delegators: Seq<Option<Delegator>>, pool: u64, id: int) -> int {
    if in_custody(delegators, pool, id) {
        delegators[id]->0.data.voting_power@
    } else {
        0
    }
}

/// The voting power of the certificates `ids` that the pool has in custody,
/// added up.
pub open spec fn pooled_power(delegators: Seq<Option<Delegator>>, pool: u64, ids: Seq<u64>) -> int
    decreases ids.len(),
{
    if ids.len() == 0 {
        0
    } else {
        pooled_power(delegators, pool, ids.drop_last()) + power_in_custody(
            delegators,
            pool,
            ids.last() as int,
        )
    }
}

/// Whether `after` is `before` with the vote mirrored into every certificate
/// among `ids` that the pool has in custody, and nothing else changed.
pub open spec fn mirrored(
    before: Seq<Option<Delegator>>,
    after: Seq<Option<Delegator>>,
    pool: u64,
    ids: Seq<u64>,
    propose_id: u64,
    vote: bool,
) -> bool {
    &&& after.len() == before.len()
    &&& forall|j: int|
        0 <= j < before.len() ==> if in_custody(before, pool, j) && ids.contains(j as u64) {
            &&& (#[trigger] after[j]) matches Some(d)
            &&& d.pool == Some(pool)
            &&& voted_record(before[j]->0.data, d.data, propose_id, vote)
        } else {
            after[j] == before[j]
        }
}

/// Where no certificate's voting power is negative, the pooled power of a
/// part of the ids is not negative and at most that of all.
pub proof fn lemma_pooled_power_grows(
    delegators: Seq<Option<Delegator>>,
    pool: u64,
    ids: Seq<u64>,
    n: int,
)
    requires
        0 <= n <= ids.len(),
        forall|i: int|
            0 <= i < delegators.len() ==> ((#[trigger] delegators[i]) matches Some(d)
                ==> d.data.voting_power@ >= 0),
    ensures
        0 <= pooled_power(delegators, pool, ids.take(n)) <= pooled_power(delegators, pool, ids),
    decreases ids.len() - n,
{
    if n == ids.len() {
        assert(ids.take(n) =~= ids);
        lemma_pooled_power_nonnegative(delegators, pool, ids);
    } else {
        lemma_pooled_power_grows(delegators, pool, ids, n + 1);
        assert(ids.take(n + 1).drop_last() =~= ids.take(n));
        lemma_pooled_power_nonnegative(delegators, pool, ids.take(n));
    }
}

/// Where no certificate's voting power is negative, pooled power is not.
pub proof fn lemma_pooled_power_nonnegative(
    delegators: Seq<Option<Delegator>>,
    pool: u64,
    ids: Seq<u64>,
)
    requires
        forall|i: int|
            0 <= i < delegators.len() ==> ((#[trigger] delegators[i]) matches Some(d)
                ==> d.data.voting_power@ >= 0),
    ensures
        0 <= pooled_power(delegators, pool, ids),
    decreases ids.len(),
{
    if ids.len() > 0 {
        lemma_pooled_power_nonnegative(delegators, pool, ids.drop_last());
    }
}

/// What one vote adds to a claimant's share: the part of the votes cast on
/// the proposal that was the claimant's, where the claimant voted as the
/// proposal was resolved; nothing where the proposal is pending, or the
/// claimant did not vote on it, or voted otherwise.
pub open spec fn share_of_vote(concept: ConceptData, votes: Map<u64, VotedData>, id: u64) -> Option<
    int,
> {
    if votes.contains_key(id) && concept.status == Some(votes[id].vote) {
        div_checked(votes[id].voted_power@, concept.total_voted@)
    } else {
        Some(0)
    }
}

/// The share from the votes on the first `n` proposals; absent where a
/// number on the way has no value.
pub open spec fn share_upto(book: Seq<ConceptData>, votes: Map<u64, VotedData>, n: nat) -> Option<
    int,
>
    decreases n,
{
    if n == 0 {
        Some(0)
    } else {
        match share_upto(book, votes, (n - 1) as nat) {
            None => None,
            Some(sum) => match share_of_vote(book[n - 1], votes, (n - 1) as u64) {
                None => None,
                Some(part) => bounded(sum + part),
            },
        }
    }
}

/// Once a share has no value, it has none over more proposals.
pub proof fn lemma_share_absent_stays(
    book: Seq<ConceptData>,
    votes: Map<u64, VotedData>,
    k: nat,
    n: nat,
)
    requires
        k <= n,
        share_upto(book, votes, k) is None,
    ensures
        share_upto(book, votes, n) is None,
    decreases n,
{
    if k < n {
        lemma_share_absent_stays(book, votes, k, (n - 1) as nat);
    }
}

/// What a vote changes: the member's place in the store, the power that the
/// member's own record notes, and the power that the proposal gains.
pub struct Ballot {
    pub member: int,
    pub own: int,
    pub power: int,
}

impl DaoModel {
    /// What `propose_concept` answers: the id of the new proposal, or the
    /// first check that fails.
    pub open spec fn proposal_check(self, cv_sbt: u64, member: Badge, cvs: (u64, Seq<CiV>)) -> Result<
        u64,
        DaoError,
    > {
        if !self.holds_member(member) {
            Err(DaoError::WrongResource)
        } else if cvs.0 != cv_sbt || !meets_requirement(
            cvs.1,
            SCRYPTO_CV,
            self.settings.proposal_requirement,
        ) {
            Err(DaoError::VerificationFailed)
        } else if self.proposal_id_counter == u64::MAX {
            Err(DaoError::Arithmetic)
        } else {
            Ok(self.proposal_id_counter)
        }
    }

    /// What `vote` decides, given the pool that goes with the member (its
    /// address and the ids it lists), if one was brought.
    pub open spec fn ballot(
        self,
        pool: Option<(u64, Seq<u64>)>,
        member: Badge,
        propose_id: u64,
    ) -> Result<Ballot, DaoError> {
        if !self.holds_member(member) {
            Err(DaoError::WrongResource)
        } else if propose_id >= self.proposal_book.len() {
            Err(DaoError::UnknownProposal)
        } else if self.members[member.id as int]->0.data.voted_proposal@.contains_key(propose_id) {
            Err(DaoError::AlreadyVoted)
        } else {
            let m = self.members[member.id as int]->0;
            let own = m.data.voting_power@;
            let pooled = match m.voting_pool {
                None => Some(0int),
                Some(address) => match pool {
                    Some(brought) => if brought.0 == address {
                        Some(pooled_power(self.delegators, address, brought.1))
                    } else {
                        None
                    },
                    None => None,
                },
            };
            match pooled {
                None => Err(DaoError::WrongResource),
                Some(pooled) => if pooled > i128::MAX || own + pooled > i128::MAX
                    || self.proposal_book[propose_id as int].total_voted@ + own + pooled
                    > i128::MAX {
                    Err(DaoError::Arithmetic)
                } else {
                    Ok(Ballot { member: member.id as int, own, power: own + pooled })
                },
            }
        }
    }

    /// The consensus on a proposal after `power` was cast, for or against.
    pub open spec fn tallied(concept: ConceptData, power: int, vote: bool) -> ConceptData {
        ConceptData {
            total_voted: Fixed::of(concept.total_voted@ + power),
            voted_power: Fixed::of(
                if vote {
                    concept.voted_power@ + power
                } else {
                    concept.voted_power@
                },
            ),
            status: concept.status,
        }
    }

    /// What `take_dividend` decides: the share, or the first check that
    /// fails.
    pub open spec fn dividend_claim(self, member: Badge) -> Result<int, DaoError> {
        if !self.holds_member(member) {
            Err(DaoError::WrongResource)
        } else {
            match share_upto(
                self.proposal_book,
                self.members[member.id as int]->0.data.voted_proposal@,
                self.proposal_id_counter as nat,
            ) {
                None => Err(DaoError::Arithmetic),
                Some(share) => if share < 0 {
                    Err(DaoError::InvalidInput)
                } else if share > self.dividend_vault.amount@ {
                    Err(DaoError::InsufficientFunds)
                } else {
                    Ok(share)
                },
            }
        }
    }

    /// Whether `after` is `before` with its vote history cleared.
    pub open spec fn claimed_record(before: DAOContributorData, after: DAOContributorData) -> bool {
        &&& after.voting_power == before.voting_power
        &&& after.committed_year == before.committed_year
        &&& after.staking_amount == before.staking_amount
        &&& after.allow_unstaking_time == before.allow_unstaking_time
        &&& after.voted_proposal@ == Map::<u64, VotedData>::empty()
    }
}

impl GroundBusinessDAO {
    /// Opens a proposal for a member who holds the proposal-authorship skill
    /// at the level that the settings ask for: gives it the next proposal
    /// id, enters it into the book with no vote cast, and mints its
    /// certificate with the calls and the reward demand. Hands back the
    /// badge that names the certificate.
    ///
    /// Refuses a badge that names no member's certificate (`WrongResource`),
    /// certificates that are not of the credential service or do not show
    /// the skill (`VerificationFailed`), and a proposal id that cannot be
    /// held (`Arithmetic`). A refusal changes nothing.
    pub fn propose_concept(
        &mut self,
        ground_cv: &GroundCV,
        member_proof: &Badge,
        proposal_require_cv_proof: &CvProof,
        methods: Methods,
        reward_demand: Fixed,
    ) -> (r: Result<Badge, DaoError>)
        requires
            old(self).wf(),
        ensures
            final(self).wf(),
            match old(self)@.proposal_check(
                ground_cv.cv_sbt,
                *member_proof,
                presented_cvs(Some(proposal_require_cv_proof))->0,
            ) {
                Err(e) => r matches Err(f) && f == e && final(self)@ == old(self)@,
                Ok(id) => {
                    &&& r == Ok::<Badge, DaoError>(
                        Badge { resource_address: old(self).resources.proposal_badge, id },
                    )
                    &&& final(self)@ == (DaoModel {
                        proposal_book: old(self)@.proposal_book.push(
                            ConceptData {
                                total_voted: Fixed::of(0),
                                voted_power: Fixed::of(0),
                                status: None,
                            },
                        ),
                        proposal_id_counter: (id + 1) as u64,
                        proposals: old(self)@.proposals.push(Some(Proposal { methods, reward_demand })),
                        ..old(self)@
                    })
                },
            },
    {
        match self.locate(member_proof) {
            Some((true, _)) => {},
            _ => {
                return Err(DaoError::WrongResource);
            },
        }
        match ground_cv.check_resource(proposal_require_cv_proof.resource_address) {
            Ok(()) => {},
            Err(e) => {
                return Err(e);
            },
        }
        match ground_cv.check_cv_requirement(
            &proposal_require_cv_proof.cvs,
            (SCRYPTO_CV, self.settings.proposal_requirement),
        ) {
            Ok(()) => {},
            Err(e) => {
                return Err(e);
            },
        }
        if self.proposal_id_counter == u64::MAX {
            return Err(DaoError::Arithmetic);
        }
        let id = self.proposal_id_counter;
        self.proposal_book.push(ConceptData::new());
        self.proposal_id_counter = id + 1;
        self.proposals.push(Some(Proposal { methods, reward_demand }));
        proof {
            assert(self@.proposal_book =~= old(self)@.proposal_book.push(
                ConceptData { total_voted: Fixed::of(0), voted_power: Fixed::of(0), status: None },
            ));
        }
        Ok(Badge { resource_address: self.resources.proposal_badge, id })
    }

    /// The voting power of the certificates `ids` that the pool at `pool`
    /// has in custody, added up; absent where the sum cannot be held.
    pub fn pooled_power_of(&self, pool: u64, ids: &Vec<u64>) -> (r: Option<Fixed>)
        requires
            self.wf(),
        ensures
            r == Fixed::of_checked(bounded(pooled_power(self@.delegators, pool, ids@))),
    {
        let mut sum = Fixed::zero();
        let mut k: usize = 0;
        while k < ids.len()
            invariant
                k <= ids.len(),
                self.wf(),
                sum@ == pooled_power(self@.delegators, pool, ids@.take(k as int)),
            decreases ids.len() - k,
        {
            let id = ids[k];
            let mut term = Fixed::zero();
            if id < self.delegators.len() as u64 {
                match &self.delegators[id as usize] {
                    Some(d) => {
                        match d.pool {
                            Some(p) => {
                                if p == pool {
                                    term = d.data.voting_power;
                                }
                            },
                            None => {},
                        }
                    },
                    None => {},
                }
            }
            proof {
                assert(ids@.take(k + 1).drop_last() =~= ids@.take(k as int));
                assert(ids@.take(k + 1).last() == ids@[k as int]);
                lemma_pooled_power_grows(self@.delegators, pool, ids@, k + 1);
            }
            match sum.checked_add(term) {
                Some(next) => {
                    sum = next;
                },
                None => {
                    return None;
                },
            }
            k = k + 1;
        }
        proof {
            assert(ids@.take(ids.len() as int) =~= ids@);
        }
        Some(sum)
    }

    /// Records the vote in every certificate among `ids` that the pool at
    /// `pool` has in custody, each with the certificate's own voting power.
    pub(crate) fn record_pool_votes(&mut self, pool: u64, ids: &Vec<u64>, propose_id: u64, vote: bool)
        requires
            old(self).wf(),
        ensures
            final(self).wf(),
            mirrored(old(self)@.delegators, final(self)@.delegators, pool, ids@, propose_id, vote),
            final(self)@ == (DaoModel { delegators: final(self)@.delegators, ..old(self)@ }),
    {
        let mut k: usize = 0;
        while k < ids.len()
            invariant
                k <= ids.len(),
                mirrored(
                    old(self)@.delegators,
                    self@.delegators,
                    pool,
                    ids@.take(k as int),
                    propose_id,
                    vote,
                ),
                self@ == (DaoModel { delegators: self@.delegators, ..old(self)@ }),
                old(self).wf(),
            decreases ids.len() - k,
        {
            let id = ids[k];
            let ghost before = self@.delegators;
            let ghost first = old(self)@.delegators;
            if id < self.delegators.len() as u64 {
                match &mut self.delegators[id as usize] {
                    Some(d) => {
                        let mine = match d.pool {
                            Some(p) => p == pool,
                            None => false,
                        };
                        if mine {
                            let power = d.data.voting_power;
                            d.data.voted_proposal.insert(
                                propose_id,
                                VotedData { voted_power: power, vote },
                            );
                        }
                    },
                    None => {},
                }
            }
            proof {
                let now = self@.delegators;
                assert(ids@.take(k + 1) =~= ids@.take(k as int).push(id));
                assert forall|j: int| 0 <= j < first.len() implies if in_custody(first, pool, j)
                    && ids@.take(k as int + 1).contains(j as u64) {
                    &&& (#[trigger] now[j]) matches Some(d)
                    &&& d.pool == Some(pool)
                    &&& voted_record(first[j]->0.data, d.data, propose_id, vote)
                } else {
                    now[j] == first[j]
                } by {
                    let part = ids@.take(k as int);
                    let whole = ids@.take(k + 1);
                    if j == id as int {
                        if in_custody(first, pool, j) {
                            assert(whole[k as int] == id);
                            let v = VotedData { voted_power: first[j]->0.data.voting_power, vote };
                            assert(first[j]->0.data.voted_proposal@.insert(propose_id, v).insert(
                                propose_id,
                                v,
                            ) =~= first[j]->0.data.voted_proposal@.insert(propose_id, v));
                        }
                    } else {
                        assert(now[j] == before[j]);
                        if whole.contains(j as u64) {
                            let w = choose|w: int| 0 <= w < whole.len() && whole[w] == j as u64;
                            assert(part[w] == j as u64);
                        }
                        if part.contains(j as u64) {
                            let w = choose|w: int| 0 <= w < part.len() && part[w] == j as u64;
                            assert(whole[w] == j as u64);
                        }
                    }
                }
            }
            k = k + 1;
        }
        proof {
            assert(ids@.take(ids.len() as int) =~= ids@);
            let first = old(self)@.delegators;
            let now = self@.delegators;
            assert(delegator_powers(now) =~= delegator_powers(first));
            assert(delegator_stakes(now) =~= delegator_stakes(first));
        }
    }

    /// Mirrors a vote into the certificates `ids` that the pool at `pool`
    /// has in custody, for a caller that holds a registered controller's
    /// authority, and hands back their voting power added up.
    ///
    /// Refuses an authority that is not registered
    /// (`UnauthorizedController`) and a sum that cannot be held
    /// (`Arithmetic`). A refusal changes nothing.
    pub fn mirror_vote(
        &mut self,
        controller_proof: &Badge,
        pool: u64,
        ids: &Vec<u64>,
        propose_id: u64,
        vote: bool,
    ) -> (r: Result<Fixed, DaoError>)
        requires
            old(self).wf(),
        ensures
            final(self).wf(),
            if !old(self)@.dao_controllers.contains(controller_proof.resource_address) {
                r == Err::<Fixed, DaoError>(DaoError::UnauthorizedController) && final(self)@ == old(
                    self,
                )@
            } else {
                match bounded(pooled_power(old(self)@.delegators, pool, ids@)) {
                    None => r == Err::<Fixed, DaoError>(DaoError::Arithmetic) && final(self)@ == old(
                        self,
                    )@,
                    Some(sum) => {
                        &&& r == Ok::<Fixed, DaoError>(Fixed::of(sum))
                        &&& mirrored(
                            old(self)@.delegators,
                            final(self)@.delegators,
                            pool,
                            ids@,
                            propose_id,
                            vote,
                        )
                        &&& final(self)@ == (DaoModel {
                            delegators: final(self)@.delegators,
                            ..old(self)@
                        })
                    },
                }
            },
    {
        if !contains_address(&self.dao_controllers, controller_proof.resource_address) {
            return Err(DaoError::UnauthorizedController);
        }
        let sum = match self.pooled_power_of(pool, ids) {
            Some(s) => s,
            None => {
                return Err(DaoError::Arithmetic);
            },
        };
        self.record_pool_votes(pool, ids, propose_id, vote);
        Ok(sum)
    }

    /// Casts a member's vote on a proposal. Where the member runs a voting
    /// pool, the pool comes in `pool`: the vote is mirrored into every
    /// certificate that the pool lists and has in custody, and their voting
    /// power is cast together with the member's. The power
    /// cast is added to the proposal's votes, and to those in favour where
    /// the vote is; the member's certificate records the vote with the
    /// member's own voting power.
    ///
    /// Refuses a badge that names no member's certificate, and a missing or
    /// another pool where the member runs one (`WrongResource`), a proposal
    /// id that is not in the book (`UnknownProposal`), a second vote of the
    /// certificate on the proposal (`AlreadyVoted`), and a sum that cannot
    /// be held (`Arithmetic`). A refusal changes nothing.
    pub fn vote(
        &mut self,
        pool: Option<&GroundVotingPool>,
        member_proof: &Badge,
        propose_id: u64,
        vote: bool,
    ) -> (r: Result<(), DaoError>)
        requires
            old(self).wf(),
        ensures
            final(self).wf(),
            match old(self)@.ballot(brought_pool(pool), *member_proof, propose_id) {
                Err(e) => r matches Err(f) && f == e && final(self)@ == old(self)@,
                Ok(b) => {
                    &&& r is Ok
                    &&& final(self)@ == (DaoModel {
                        proposal_book: old(self)@.proposal_book.update(
                            propose_id as int,
                            DaoModel::tallied(
                                old(self)@.proposal_book[propose_id as int],
                                b.power,
                                vote,
                            ),
                        ),
                        members: old(self)@.members.update(b.member, final(self)@.members[b.member]),
                        delegators: final(self)@.delegators,
                        ..old(self)@
                    })
                    &&& final(self)@.members.len() == old(self)@.members.len()
                    &&& final(self)@.members[b.member] matches Some(m)
                    &&& m.voting_pool == old(self)@.members[b.member]->0.voting_pool
                    &&& voted_record(old(self)@.members[b.member]->0.data, m.data, propose_id, vote)
                    &&& match old(self)@.members[b.member]->0.voting_pool {
                        Some(address) => mirrored(
                            old(self)@.delegators,
                            final(self)@.delegators,
                            address,
                            brought_ids(pool),
                            propose_id,
                            vote,
                        ),
                        None => final(self)@.delegators == old(self)@.delegators,
                    }
                },
            },
    {
        let idx = match self.locate(member_proof) {
            Some((true, i)) => i,
            _ => {
                return Err(DaoError::WrongResource);
            },
        };
        if propose_id >= self.proposal_book.len() as u64 {
            return Err(DaoError::UnknownProposal);
        }
        let (already, own, running) = match &self.members[idx] {
            Some(m) => (
                m.data.voted_proposal.contains_key(&propose_id),
                m.data.voting_power,
                m.voting_pool,
            ),
            None => (false, Fixed::zero(), None),
        };
        if already {
            return Err(DaoError::AlreadyVoted);
        }
        let mut mirror: Option<(u64, &Vec<u64>)> = None;
        let pooled = match running {
            None => Fixed::zero(),
            Some(address) => match pool {
                Some(brought) => {
                    if brought.address != address {
                        return Err(DaoError::WrongResource);
                    }
                    let ids = &brought.delegators;
                    mirror = Some((address, ids));
                    proof {
                        lemma_pooled_power_nonnegative(self@.delegators, address, ids@);
                    }
                    match self.pooled_power_of(address, ids) {
                        Some(p) => p,
                        None => {
                            return Err(DaoError::Arithmetic);
                        },
                    }
                },
                None => {
                    return Err(DaoError::WrongResource);
                },
            },
        };
        let power = match own.checked_add(pooled) {
            Some(p) => p,
            None => {
                proof {
                    lemma_pooled_power_nonnegative(
                        self@.delegators,
                        running->0,
                        brought_ids(pool),
                    );
                }
                return Err(DaoError::Arithmetic);
            },
        };
        let concept = self.proposal_book[propose_id as usize];
        let total_voted = match concept.total_voted.checked_add(power) {
            Some(t) => t,
            None => {
                return Err(DaoError::Arithmetic);
            },
        };
        proof {
            self@.lemma_parts_bounded();
            match running {
                Some(address) => {
                    lemma_pooled_power_nonnegative(
                        self@.delegators,
                        address,
                        brought_ids(pool),
                    );
                },
                None => {},
            }
        }
        let voted_power = if vote {
            concept.voted_power.checked_add(power).unwrap()
        } else {
            concept.voted_power
        };
        match mirror {
            Some((address, ids)) => {
                self.record_pool_votes(address, ids, propose_id, vote);
            },
            None => {},
        }
        self.proposal_book.set(
            propose_id as usize,
            ConceptData { total_voted, voted_power, status: concept.status },
        );
        match &mut self.members[idx] {
            Some(m) => {
                m.data.voted_proposal.insert(propose_id, VotedData { voted_power: own, vote });
            },
            None => {},
        }
        proof {
            let first = old(self)@.members;
            let now = self@.members;
            assert(member_powers(now) =~= member_powers(first));
            assert(member_stakes(now) =~= member_stakes(first));
            assert(now =~= first.update(idx as int, now[idx as int]));
        }
        Ok(())
    }

    /// The share that a vote history has earned: for every proposal in the
    /// book on which it records a vote that went the way the proposal was
    /// resolved, the recorded power divided by all the power cast on the
    /// proposal. Fails with `Arithmetic` where a number has no value.
    pub fn calculate_share(&self, data: &HashMap<u64, VotedData>) -> (r: Result<Fixed, DaoError>)
        requires
            self.wf(),
        ensures
            r == (match share_upto(self@.proposal_book, data@, self.proposal_id_counter as nat) {
                Some(share) => Ok::<Fixed, DaoError>(Fixed::of(share)),
                None => Err(DaoError::Arithmetic),
            }),
    {
        let mut share = Fixed::zero();
        let mut x: u64 = 0;
        while x < self.proposal_id_counter
            invariant
                x <= self.proposal_id_counter,
                self.wf(),
                share_upto(self@.proposal_book, data@, x as nat) == Some(share@),
            decreases self.proposal_id_counter - x,
        {
            let concept = self.proposal_book[x as usize];
            let looked = data.get(&x);
            proof {
                match looked {
                    None => {
                        assert(!data@.contains_key(x));
                    },
                    Some(voted) => {
                        assert(data@.contains_key(x));
                        assert(data@[x] == *voted);
                    },
                }
            }
            let part = match looked {
                None => Some(Fixed::zero()),
                Some(voted) => match concept.status {
                    None => Some(Fixed::zero()),
                    Some(result) => if voted.vote == result {
                        voted.voted_power.checked_div(concept.total_voted)
                    } else {
                        Some(Fixed::zero())
                    },
                },
            };
            proof {
                let step = share_of_vote(self@.proposal_book[x as int], data@, x);
                assert(concept == self@.proposal_book[x as int]) by {
                    assert(x < self.proposal_book.len());
                }
                assert(Fixed::of_checked(step) == part);
                assert(((x + 1) as nat - 1) as nat == x as nat);
                assert(share_upto(self@.proposal_book, data@, (x + 1) as nat) == match step {
                    None => None,
                    Some(p) => bounded(share@ + p),
                });
            }
            let next = match part {
                Some(p) => share.checked_add(p),
                None => None,
            };
            match next {
                Some(n) => {
                    share = n;
                },
                None => {
                    proof {
                        lemma_share_absent_stays(
                            self@.proposal_book,
                            data@,
                            (x + 1) as nat,
                            self.proposal_id_counter as nat,
                        );
                    }
                    return Err(DaoError::Arithmetic);
                },
            }
            x = x + 1;
        }
        Ok(share)
    }

    /// Pays a member the share that the certificate's vote history has
    /// earned from the dividend vault, and clears the history, so that the
    /// same votes are paid once.
    ///
    /// Refuses a badge that names no member's certificate (`WrongResource`),
    /// a share that has no value (`Arithmetic`) or is negative
    /// (`InvalidInput`), and a share above what the dividend vault holds
    /// (`InsufficientFunds`). A refusal changes nothing.
    pub fn take_dividend(&mut self, member_proof: &Badge) -> (r: Result<Bucket, DaoError>)
        requires
            old(self).wf(),
        ensures
            final(self).wf(),
            match old(self)@.dividend_claim(*member_proof) {
                Err(e) => r matches Err(f) && f == e && final(self)@ == old(self)@,
                Ok(share) => {
                    &&& r == Ok::<Bucket, DaoError>(
                        Bucket {
                            resource_address: old(self).dividend_vault.resource_address,
                            amount: Fixed::of(share),
                        },
                    )
                    &&& final(self)@ == (DaoModel {
                        dividend_vault: Vault {
                            resource_address: old(self).dividend_vault.resource_address,
                            amount: Fixed::of(old(self).dividend_vault.amount@ - share),
                        },
                        members: old(self)@.members.update(
                            member_proof.id as int,
                            final(self)@.members[member_proof.id as int],
                        ),
                        ..old(self)@
                    })
                    &&& final(self)@.members.len() == old(self)@.members.len()
                    &&& final(self)@.members[member_proof.id as int] matches Some(m)
                    &&& m.voting_pool == old(self)@.members[member_proof.id as int]->0.voting_pool
                    &&& DaoModel::claimed_record(
                        old(self)@.members[member_proof.id as int]->0.data,
                        m.data,
                    )
                },
            },
    {
        let idx = match self.locate(member_proof) {
            Some((true, i)) => i,
            _ => {
                return Err(DaoError::WrongResource);
            },
        };
        let share = match &self.members[idx] {
            Some(m) => self.calculate_share(&m.data.voted_proposal),
            None => Ok(Fixed::zero()),
        };
        let share = match share {
            Ok(s) => s,
            Err(e) => {
                return Err(e);
            },
        };
        let dividend = match self.dividend_vault.take(share) {
            Ok(b) => b,
            Err(e) => {
                return Err(e);
            },
        };
        match &mut self.members[idx] {
            Some(m) => {
                m.data.voted_proposal = HashMap::new();
            },
            None => {},
        }
        proof {
            let first = old(self)@.members;
            let now = self@.members;
            assert(member_powers(now) =~= member_powers(first));
            assert(member_stakes(now) =~= member_stakes(first));
            assert(now =~= first.update(idx as int, now[idx as int]));
        }
        Ok(dividend)
    }
}

/// The ids that a brought pool lists; none where no pool was brought.
pub open spec fn brought_ids(pool: Option<&GroundVotingPool>) -> Seq<u64> {
    match pool {
        Some(p) => p.delegators@,
        None => Seq::empty(),
    }
}

/// A brought pool as plain values: its address and the ids it lists.
pub open spec fn brought_pool(pool: Option<&GroundVotingPool>) -> Option<(u64, Seq<u64>)> {
    match pool {
        Some(p) => Some((p.address, p.delegators@)),
        None => None,
    }
}

} // verus!
