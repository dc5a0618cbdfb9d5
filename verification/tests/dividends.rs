use ground_business::assets::{Badge, Bucket};
use ground_business::error::DaoError;
use ground_business::fixed::Fixed;
use ground_business::ground_business_dao::{
    ConceptData, GroundBusinessDAO, Method, Methods, Resources, VotedData,
};
use std::collections::HashMap;
use ground_business::ground_cv::{CVdata, CiV, CvProof, GroundCV, Skill};
use ground_business::ground_id::{GroundID, Identity, IdentityData, IdentityProof, IdentityType};
use scrypto::math::Decimal;
use scrypto::types::ComponentAddress;

const SHARE: u64 = 1;
const STABLE: u64 = 2;
const ID_SBT: u64 = 20;
const CV_SBT: u64 = 21;

fn oracle() -> (ComponentAddress, Bucket) {
    let mut raw = [9u8; 30];
    raw[0] = 0xc0;
    (ComponentAddress::new_or_panic(raw), Bucket { resource_address: 30, amount: Fixed::one() })
}

fn dec(text: &str) -> Fixed {
    let parsed = Decimal::try_from(text).unwrap();
    Fixed::from_attos(i128::try_from(parsed.attos()).unwrap())
}

fn resources() -> Resources {
    Resources {
        controller_badge: 10,
        pool_controller_badge: 11,
        dao_badge: 12,
        unstake_badge: 13,
        member_sbt: 14,
        delegator_badge: 15,
        proposal_badge: 16,
    }
}

/// Commit rate 100 percent, dividend rate 1 percent, reward base 2.
fn engine() -> GroundBusinessDAO {
    GroundBusinessDAO::new(
        resources(),
        Bucket { resource_address: SHARE, amount: dec("1000") },
        Bucket { resource_address: STABLE, amount: dec("1000") },
        dec("1"),
        vec![(3001, 0)],
        5,
        dec("1"),
        dec("2"),
        dec("100"),
        dec("10"),
        5,
        100,
        oracle(),
        vec![77],
    )
    .unwrap()
}

fn identity(trust_factor: &str) -> IdentityProof {
    IdentityProof {
        resource_address: ID_SBT,
        identity: Identity {
            data: IdentityData {
                identity: IdentityType::Person,
                income: Fixed::zero(),
                trust_factor: dec(trust_factor),
            },
        },
    }
}

fn skills(levels: &[(u8, u8)]) -> CvProof {
    let mut cvs = Vec::new();
    for (skill_id, level) in levels {
        cvs.push(CiV { cv_data: CVdata::Skill(Skill { skill_id: *skill_id, level: *level }) });
    }
    CvProof { resource_address: CV_SBT, cvs }
}

fn services() -> (GroundID, GroundCV) {
    (GroundID::new(80, ID_SBT, 81, 82), GroundCV::new(90, CV_SBT))
}

fn stake(amount: &str) -> Bucket {
    Bucket { resource_address: SHARE, amount: dec(amount) }
}

/// A member whose voting power is `power`: a quarter of it staked for one
/// year with trust factor one.
fn member(dao: &mut GroundBusinessDAO, power: &str) -> Badge {
    let (id, cv) = services();
    let amount = dec(power).checked_div(dec("4")).unwrap();
    let bucket = Bucket { resource_address: SHARE, amount };
    dao.become_dao_member(&id, &cv, &identity("1"), &skills(&[(1, 0)]), bucket, 1, 0).unwrap()
}

fn component() -> ComponentAddress {
    let mut raw = [7u8; 30];
    raw[0] = 0xc0;
    ComponentAddress::new_or_panic(raw)
}

fn calls() -> Methods {
    Methods {
        methods: vec![Method {
            component: component(),
            method: String::from("pay"),
            args: vec![vec![1, 2, 3]],
        }],
    }
}

fn propose(dao: &mut GroundBusinessDAO, proposer: &Badge, demand: &str) -> Badge {
    let (_, cv) = services();
    dao.propose_concept(&cv, proposer, &skills(&[(2, 5)]), calls(), dec(demand)).unwrap()
}

fn resolved(total_voted: &str, passed: bool) -> ConceptData {
    ConceptData { total_voted: dec(total_voted), voted_power: Fixed::zero(), status: Some(passed) }
}

fn voted(power: &str, vote: bool) -> VotedData {
    VotedData { voted_power: dec(power), vote }
}

#[test]
fn share_adds_the_parts_of_the_votes_that_went_the_way_of_the_outcome() {
    let mut dao = engine();
    dao.proposal_book = vec![resolved("40", true), resolved("20", false)];
    dao.proposals = vec![None, None];
    dao.proposal_id_counter = 2;
    let mut history = HashMap::new();
    history.insert(0, voted("10", true));
    history.insert(1, voted("5", false));
    assert_eq!(dao.calculate_share(&history), Ok(dec("0.5")));
}

#[test]
fn share_leaves_out_pending_lost_and_missing_votes() {
    let mut dao = engine();
    let pending = ConceptData { total_voted: dec("40"), voted_power: dec("40"), status: None };
    dao.proposal_book = vec![resolved("40", true), pending, resolved("20", false), resolved("8", true)];
    dao.proposals = vec![None, None, None, None];
    dao.proposal_id_counter = 4;
    let mut history = HashMap::new();
    history.insert(0, voted("10", false));
    history.insert(1, voted("10", true));
    history.insert(3, voted("2", true));
    history.insert(9, voted("100", true));
    assert_eq!(dao.calculate_share(&history), Ok(dec("0.25")));
    assert_eq!(dao.calculate_share(&HashMap::new()), Ok(Fixed::zero()));
}

#[test]
fn share_counts_the_last_proposal_too() {
    let mut dao = engine();
    dao.proposal_book = vec![resolved("3", true)];
    dao.proposals = vec![None];
    dao.proposal_id_counter = 1;
    let mut history = HashMap::new();
    history.insert(0, voted("1", true));
    assert_eq!(dao.calculate_share(&history).unwrap().attos(), 333_333_333_333_333_333);
    let empty = engine();
    assert_eq!(empty.calculate_share(&history), Ok(Fixed::zero()));
}

#[test]
fn share_of_nothing_cast_has_no_value() {
    let mut dao = engine();
    dao.proposal_book = vec![resolved("0", true)];
    dao.proposals = vec![None];
    dao.proposal_id_counter = 1;
    let mut history = HashMap::new();
    history.insert(0, voted("0", true));
    assert_eq!(dao.calculate_share(&history), Err(DaoError::Arithmetic));
}

#[test]
fn dividend_is_paid_once_for_the_same_votes() {
    let (id, cv) = services();
    let mut dao = engine();
    let m = {
        let (id, cv) = services();
        dao.become_dao_member(&id, &cv, &identity("1"), &skills(&[(1, 0)]), stake("2.5"), 1, 0).unwrap()
    };
    let n = dao
        .become_dao_member(&id, &cv, &identity("1"), &skills(&[(1, 0)]), stake("7.5"), 1, 0)
        .unwrap();
    assert_eq!(dao.total_voting_power, dec("40"));
    let first = propose(&mut dao, &m, "1");
    dao.vote(None, &m, 0, true).unwrap();
    dao.vote(None, &n, 0, true).unwrap();
    assert!(dao.execute_concept(first, dec("100")).unwrap().passed);
    dao.reassess_new_vote_power(&id, &cv, &m, Some(&identity("0")), None).unwrap();
    dao.reassess_new_vote_power(&id, &cv, &n, Some(&identity("0")), None).unwrap();
    assert_eq!(dao.total_voting_power, dec("20"));
    let second = propose(&mut dao, &m, "1");
    dao.vote(None, &m, 1, true).unwrap();
    dao.vote(None, &n, 1, true).unwrap();
    assert_eq!(dao.proposal_book[1].total_voted, dec("20"));
    assert!(dao.execute_concept(second, dec("100")).unwrap().passed);
    let history = &dao.members[0].as_ref().unwrap().data.voted_proposal;
    assert_eq!(history.get(&0).unwrap().voted_power, dec("10"));
    assert_eq!(history.get(&1).unwrap().voted_power, dec("5"));
    assert_eq!(dao.calculate_share(history), Ok(dec("0.5")));
    assert_eq!(dao.take_dividend(&m), Err(DaoError::InsufficientFunds));
    assert_eq!(dao.members[0].as_ref().unwrap().data.voted_proposal.len(), 2);
    dao.deposit_dividend(stake("2")).unwrap();
    let paid = dao.take_dividend(&m).unwrap();
    assert_eq!(paid, Bucket { resource_address: SHARE, amount: dec("0.5") });
    assert_eq!(dao.dividend_vault.amount, dec("1.5"));
    assert!(dao.members[0].as_ref().unwrap().data.voted_proposal.is_empty());
    let again = dao.take_dividend(&m).unwrap();
    assert_eq!(again.amount, Fixed::zero());
    assert_eq!(dao.dividend_vault.amount, dec("1.5"));
    assert_eq!(dao.take_dividend(&n).unwrap().amount, dec("1.5"));
    assert_eq!(dao.dividend_vault.amount, Fixed::zero());
}

#[test]
fn dividend_refuses_other_badges() {
    let (id, cv) = services();
    let mut dao = engine();
    let d = dao.delegate_dao_share(&id, &cv, None, None, stake("3"), 0, 10).unwrap();
    assert_eq!(dao.take_dividend(&d), Err(DaoError::WrongResource));
    assert_eq!(dao.take_dividend(&Badge { resource_address: 14, id: 0 }), Err(DaoError::WrongResource));
}

#[test]
fn dividend_vault_takes_the_share_asset_only() {
    let mut dao = engine();
    let other = Bucket { resource_address: STABLE, amount: dec("1") };
    assert_eq!(dao.deposit_dividend(other), Err(DaoError::WrongResource));
    assert_eq!(dao.deposit_dividend(stake("-1")), Err(DaoError::InvalidInput));
    assert_eq!(dao.deposit_dividend(stake("1")), Ok(()));
    assert_eq!(dao.dividend_vault.amount, dec("1"));
}

#[test]
fn controller_takes_a_share_from_the_dividend_vault() {
    let mut dao = engine();
    dao.deposit_dividend(stake("5")).unwrap();
    let controller = Badge { resource_address: 10, id: 0 };
    let stranger = Badge { resource_address: 11, id: 0 };
    assert_eq!(
        dao.take_dividend_delegator(&stranger, dec("1")),
        Err(DaoError::UnauthorizedController)
    );
    assert_eq!(dao.take_dividend_delegator(&controller, dec("6")), Err(DaoError::InsufficientFunds));
    assert_eq!(dao.take_dividend_delegator(&controller, dec("-1")), Err(DaoError::InvalidInput));
    let paid = dao.take_dividend_delegator(&controller, dec("2")).unwrap();
    assert_eq!(paid, Bucket { resource_address: SHARE, amount: dec("2") });
    assert_eq!(dao.dividend_vault.amount, dec("3"));
}
