use ground_business::assets::{Badge, Bucket};
use ground_business::error::DaoError;
use ground_business::fixed::Fixed;
use ground_business::ground_business_dao::{GroundBusinessDAO, Method, Methods, Resources};
use ground_business::ground_voting_pool::GroundVotingPool;
use ground_business::ground_cv::{CVdata, CiV, CvProof, GroundCV, Skill};
use ground_business::ground_id::{GroundID, Identity, IdentityData, IdentityProof, IdentityType};
use scrypto::math::Decimal;
use scrypto::types::ComponentAddress;

const SHARE: u64 = 1;
const STABLE: u64 = 2;
const ID_SBT: u64 = 20;
const CV_SBT: u64 = 21;

fn oracle() -> (ComponentAddress, Bucket) {
    let mut raw = [9u8; 30];
    raw[0] = 0xc0;
    (ComponentAddress::new_or_panic(raw), Bucket { resource_address: 30, amount: Fixed::one() })
}

fn dec(text: &str) -> Fixed {
    let parsed = Decimal::try_from(text).unwrap();
    Fixed::from_attos(i128::try_from(parsed.attos()).unwrap())
}

fn resources() -> Resources {
    Resources {
        controller_badge: 10,
        pool_controller_badge: 11,
        dao_badge: 12,
        unstake_badge: 13,
        member_sbt: 14,
        delegator_badge: 15,
        proposal_badge: 16,
    }
}

/// Commit rate 100 percent, dividend rate 1 percent, reward base 2.
fn engine() -> GroundBusinessDAO {
    GroundBusinessDAO::new(
        resources(),
        Bucket { resource_address: SHARE, amount: dec("1000") },
        Bucket { resource_address: STABLE, amount: dec("1000") },
        dec("1"),
        vec![(3001, 0)],
        5,
        dec("1"),
        dec("2"),
        dec("100"),
        dec("10"),
        5,
        100,
        oracle(),
        vec![77],
    )
    .unwrap()
}

fn identity(trust_factor: &str) -> IdentityProof {
    IdentityProof {
        resource_address: ID_SBT,
        identity: Identity {
            data: IdentityData {
                identity: IdentityType::Person,
                income: Fixed::zero(),
                trust_factor: dec(trust_factor),
            },
        },
    }
}

fn skills(levels: &[(u8, u8)]) -> CvProof {
    let mut cvs = Vec::new();
    for (skill_id, level) in levels {
        cvs.push(CiV { cv_data: CVdata::Skill(Skill { skill_id: *skill_id, level: *level }) });
    }
    CvProof { resource_address: CV_SBT, cvs }
}

fn services() -> (GroundID, GroundCV) {
    (GroundID::new(80, ID_SBT, 81, 82), GroundCV::new(90, CV_SBT))
}

fn stake(amount: &str) -> Bucket {
    Bucket { resource_address: SHARE, amount: dec(amount) }
}

/// A member whose voting power is `power`: a quarter of it staked for one
/// year with trust factor one.
fn member(dao: &mut GroundBusinessDAO, power: &str) -> Badge {
    let (id, cv) = services();
    let amount = dec(power).checked_div(dec("4")).unwrap();
    let bucket = Bucket { resource_address: SHARE, amount };
    dao.become_dao_member(&id, &cv, &identity("1"), &skills(&[(1, 0)]), bucket, 1, 0).unwrap()
}

fn component() -> ComponentAddress {
    let mut raw = [7u8; 30];
    raw[0] = 0xc0;
    ComponentAddress::new_or_panic(raw)
}

fn calls() -> Methods {
    Methods {
        methods: vec![Method {
            component: component(),
            method: String::from("pay"),
            args: vec![vec![1, 2, 3]],
        }],
    }
}

fn propose(dao: &mut GroundBusinessDAO, proposer: &Badge, demand: &str) -> Badge {
    let (_, cv) = services();
    dao.propose_concept(&cv, proposer, &skills(&[(2, 5)]), calls(), dec(demand)).unwrap()
}

const POOL: u64 = 700;
const RECEIPTS: u64 = 701;

fn delegator(dao: &mut GroundBusinessDAO, power: &str) -> Badge {
    let (id, cv) = services();
    dao.delegate_dao_share(&id, &cv, None, None, stake(power), 0, 0).unwrap()
}

fn open_pool(dao: &mut GroundBusinessDAO, operator: &Badge) -> GroundVotingPool {
    dao.new_voting_pool(operator, String::from("pool"), POOL, RECEIPTS).unwrap()
}

#[test]
fn member_opens_one_pool() {
    let mut dao = engine();
    let a = member(&mut dao, "40");
    let pool = open_pool(&mut dao, &a);
    assert_eq!(pool.address, POOL);
    assert_eq!(pool.operator, a);
    assert_eq!(pool.name, "pool");
    assert_eq!(pool.pool_delegator, RECEIPTS);
    assert_eq!(pool.controller_badge, Badge { resource_address: 11, id: 0 });
    assert_eq!(pool.fee_vault.resource_address, SHARE);
    assert_eq!(pool.fee_vault.amount, Fixed::zero());
    assert!(pool.delegators.is_empty());
    assert_eq!(dao.members[0].as_ref().unwrap().voting_pool, Some(POOL));
    assert_eq!(dao.dao_controllers, vec![10, 11]);
    let again = dao.new_voting_pool(&a, String::from("other"), POOL + 1, RECEIPTS);
    assert_eq!(again.err(), Some(DaoError::PoolAlreadyOpen));
    assert_eq!(dao.members[0].as_ref().unwrap().voting_pool, Some(POOL));
    let d = delegator(&mut dao, "3");
    let refused = dao.new_voting_pool(&d, String::from("other"), POOL + 1, RECEIPTS);
    assert_eq!(refused.err(), Some(DaoError::WrongResource));
    let direct = GroundVotingPool::new(&mut dao, POOL + 2, String::from("x"), a, RECEIPTS);
    assert_eq!(direct.err(), Some(DaoError::PoolAlreadyOpen));
}

#[test]
fn pool_takes_certificates_into_custody_and_hands_them_back() {
    let mut dao = engine();
    let a = member(&mut dao, "40");
    let mut pool = open_pool(&mut dao, &a);
    let d = delegator(&mut dao, "3");
    let e = delegator(&mut dao, "5");
    let receipt = pool.delegate(&mut dao, d).unwrap();
    assert_eq!(receipt, Badge { resource_address: RECEIPTS, id: 0 });
    assert_eq!(dao.delegators[0].as_ref().unwrap().pool, Some(POOL));
    assert!(dao.has_in_custody(POOL, 0));
    assert!(!dao.has_in_custody(POOL, 1));
    assert!(!dao.has_in_custody(POOL + 1, 0));
    assert_eq!(pool.delegate(&mut dao, d), Err(DaoError::WrongResource));
    assert_eq!(pool.delegate(&mut dao, a), Err(DaoError::WrongResource));
    let second = pool.delegate(&mut dao, e).unwrap();
    assert_eq!(second.id, 1);
    assert_eq!(pool.delegators, vec![0, 1]);
    assert!(pool.lists(1));
    assert_eq!(dao.start_unstake(d, 0), Err(DaoError::WrongResource));
    let (id, cv) = services();
    assert_eq!(
        dao.reassess_new_vote_power(&id, &cv, &d, None, None),
        Err(DaoError::WrongResource)
    );
    let back = pool.stop_delegate(&mut dao, receipt).unwrap();
    assert_eq!(back, d);
    assert_eq!(pool.delegators, vec![1]);
    assert_eq!(dao.delegators[0].as_ref().unwrap().pool, None);
    assert_eq!(pool.stop_delegate(&mut dao, receipt), Err(DaoError::WrongResource));
    assert_eq!(pool.stop_delegate(&mut dao, d), Err(DaoError::WrongResource));
    assert!(dao.start_unstake(d, 0).is_ok());
    assert_eq!(dao.total_voting_power, dec("45"));
}

#[test]
fn vote_of_the_operator_is_mirrored_into_the_pool() {
    let mut dao = engine();
    let a = member(&mut dao, "40");
    let b = member(&mut dao, "20");
    let mut pool = open_pool(&mut dao, &a);
    let d = delegator(&mut dao, "3");
    let e = delegator(&mut dao, "5");
    let outside = delegator(&mut dao, "7");
    pool.delegate(&mut dao, d).unwrap();
    pool.delegate(&mut dao, e).unwrap();
    propose(&mut dao, &a, "1");
    assert_eq!(dao.vote(None, &a, 0, true), Err(DaoError::WrongResource));
    pool.address = POOL + 1;
    assert_eq!(dao.vote(Some(&pool), &a, 0, true), Err(DaoError::WrongResource));
    pool.address = POOL;
    assert_eq!(dao.proposal_book[0].total_voted, Fixed::zero());
    dao.vote(Some(&pool), &a, 0, true).unwrap();
    assert_eq!(dao.proposal_book[0].total_voted, dec("48"));
    assert_eq!(dao.proposal_book[0].voted_power, dec("48"));
    let own = dao.members[0].as_ref().unwrap().data.voted_proposal.get(&0).unwrap();
    assert_eq!(own.voted_power, dec("40"));
    let first = dao.delegators[0].as_ref().unwrap().data.voted_proposal.get(&0).unwrap();
    assert_eq!((first.voted_power, first.vote), (dec("3"), true));
    let second = dao.delegators[1].as_ref().unwrap().data.voted_proposal.get(&0).unwrap();
    assert_eq!((second.voted_power, second.vote), (dec("5"), true));
    assert!(dao.delegators[outside.id as usize].as_ref().unwrap().data.voted_proposal.is_empty());
    dao.vote(Some(&pool), &b, 0, false).unwrap();
    assert_eq!(dao.proposal_book[0].total_voted, dec("68"));
    assert_eq!(dao.proposal_book[0].voted_power, dec("48"));
    assert_eq!(dao.total_voting_power, dec("75"));
}

#[test]
fn pool_mirrors_a_vote_for_its_operator_only() {
    let mut dao = engine();
    let a = member(&mut dao, "40");
    let b = member(&mut dao, "20");
    let mut pool = open_pool(&mut dao, &a);
    let d = delegator(&mut dao, "3");
    let e = delegator(&mut dao, "5");
    pool.delegate(&mut dao, d).unwrap();
    pool.delegate(&mut dao, e).unwrap();
    propose(&mut dao, &a, "1");
    assert_eq!(pool.vote_pool(&mut dao, &b, 0, true), Err(DaoError::WrongResource));
    assert!(dao.delegators[0].as_ref().unwrap().data.voted_proposal.is_empty());
    assert_eq!(pool.vote_pool(&mut dao, &a, 0, false), Ok(dec("8")));
    let first = dao.delegators[0].as_ref().unwrap().data.voted_proposal.get(&0).unwrap();
    assert_eq!((first.voted_power, first.vote), (dec("3"), false));
    assert_eq!(dao.pooled_power_of(POOL, &pool.delegators), Some(dec("8")));
    assert_eq!(dao.pooled_power_of(POOL + 1, &pool.delegators), Some(Fixed::zero()));
    let stranger = Badge { resource_address: 12, id: 0 };
    assert_eq!(
        dao.mirror_vote(&stranger, POOL, &pool.delegators, 0, true),
        Err(DaoError::UnauthorizedController)
    );
}

#[test]
fn pool_keeps_its_fee_of_a_dividend() {
    let mut dao = engine();
    let a = member(&mut dao, "12");
    let mut pool = open_pool(&mut dao, &a);
    let d = delegator(&mut dao, "4");
    let receipt = pool.delegate(&mut dao, d).unwrap();
    let proposal = propose(&mut dao, &a, "1");
    dao.vote(Some(&pool), &a, 0, true).unwrap();
    assert_eq!(dao.proposal_book[0].total_voted, dec("16"));
    assert!(dao.execute_concept(proposal, dec("100")).unwrap().passed);
    assert_eq!(dao.share_in_custody(POOL, 0), Ok(dec("0.25")));
    assert_eq!(pool.take_dividend(&mut dao, &receipt), Err(DaoError::InsufficientFunds));
    dao.deposit_dividend(stake("1")).unwrap();
    let paid = pool.take_dividend(&mut dao, &receipt).unwrap();
    // share 4 / 16, fee 10 percent
    assert_eq!(paid, Bucket { resource_address: SHARE, amount: dec("0.225") });
    assert_eq!(pool.fee_vault.amount, dec("0.025"));
    assert_eq!(dao.dividend_vault.amount, dec("0.75"));
    assert!(dao.delegators[0].as_ref().unwrap().data.voted_proposal.is_empty());
    let again = pool.take_dividend(&mut dao, &receipt).unwrap();
    assert_eq!(again.amount, Fixed::zero());
    assert_eq!(dao.dividend_vault.amount, dec("0.75"));
    assert_eq!(pool.take_dividend(&mut dao, &d), Err(DaoError::WrongResource));
    assert_eq!(pool.take_fee(&d), Err(DaoError::WrongResource));
    let fee = pool.take_fee(&a).unwrap();
    assert_eq!(fee, Bucket { resource_address: SHARE, amount: dec("0.025") });
    assert_eq!(pool.fee_vault.amount, Fixed::zero());
    assert_eq!(dao.take_dividend(&a).unwrap().amount, dec("0.75"));
}

#[test]
fn custody_is_for_registered_controllers() {
    let mut dao = engine();
    let d = delegator(&mut dao, "4");
    let pools = Badge { resource_address: 11, id: 0 };
    assert_eq!(dao.take_into_custody(&pools, POOL, &d), Err(DaoError::UnauthorizedController));
    let engine_authority = Badge { resource_address: 10, id: 0 };
    assert_eq!(dao.take_into_custody(&engine_authority, POOL, &d), Ok(()));
    assert_eq!(dao.take_into_custody(&engine_authority, POOL, &d), Err(DaoError::WrongResource));
    assert_eq!(dao.share_in_custody(POOL + 1, 0), Err(DaoError::WrongResource));
    assert_eq!(dao.clear_votes_in_custody(&pools, POOL, 0), Err(DaoError::UnauthorizedController));
    assert_eq!(dao.clear_votes_in_custody(&engine_authority, POOL + 1, 0), Err(DaoError::WrongResource));
    assert_eq!(dao.clear_votes_in_custody(&engine_authority, POOL, 0), Ok(()));
    assert_eq!(dao.release_from_custody(&engine_authority, POOL, 1), Err(DaoError::WrongResource));
    assert_eq!(dao.release_from_custody(&engine_authority, POOL, 0), Ok(d));
    assert_eq!(dao.release_from_custody(&engine_authority, POOL, 0), Err(DaoError::WrongResource));
}
