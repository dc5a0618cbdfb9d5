use ground_business::assets::{Badge, Bucket};
use ground_business::error::DaoError;
use ground_business::fixed::Fixed;
use ground_business::ground_business_dao::{GroundBusinessDAO, Method, Methods, Resources, YEAR};
use ground_business::ground_cv::{CVdata, CiV, CvProof, GroundCV, Skill};
use ground_business::ground_id::{GroundID, Identity, IdentityData, IdentityProof, IdentityType};
use scrypto::math::Decimal;
use scrypto::types::ComponentAddress;

const SHARE: u64 = 1;
const STABLE: u64 = 2;
const ID_SBT: u64 = 20;
const CV_SBT: u64 = 21;

fn oracle() -> (ComponentAddress, Bucket) {
    let mut raw = [9u8; 30];
    raw[0] = 0xc0;
    (ComponentAddress::new_or_panic(raw), Bucket { resource_address: 30, amount: Fixed::one() })
}

fn dec(text: &str) -> Fixed {
    let parsed = Decimal::try_from(text).unwrap();
    Fixed::from_attos(i128::try_from(parsed.attos()).unwrap())
}

fn resources() -> Resources {
    Resources {
        controller_badge: 10,
        pool_controller_badge: 11,
        dao_badge: 12,
        unstake_badge: 13,
        member_sbt: 14,
        delegator_badge: 15,
        proposal_badge: 16,
    }
}

/// Commit rate 100 percent, dividend rate 1 percent, reward base 2.
fn engine() -> GroundBusinessDAO {
    GroundBusinessDAO::new(
        resources(),
        Bucket { resource_address: SHARE, amount: dec("1000") },
        Bucket { resource_address: STABLE, amount: dec("1000") },
        dec("1"),
        vec![(3001, 0)],
        5,
        dec("1"),
        dec("2"),
        dec("100"),
        dec("10"),
        5,
        100,
        oracle(),
        vec![77],
    )
    .unwrap()
}

fn identity(trust_factor: &str) -> IdentityProof {
    IdentityProof {
        resource_address: ID_SBT,
        identity: Identity {
            data: IdentityData {
                identity: IdentityType::Person,
                income: Fixed::zero(),
                trust_factor: dec(trust_factor),
            },
        },
    }
}

fn skills(levels: &[(u8, u8)]) -> CvProof {
    let mut cvs = Vec::new();
    for (skill_id, level) in levels {
        cvs.push(CiV { cv_data: CVdata::Skill(Skill { skill_id: *skill_id, level: *level }) });
    }
    CvProof { resource_address: CV_SBT, cvs }
}

fn services() -> (GroundID, GroundCV) {
    (GroundID::new(80, ID_SBT, 81, 82), GroundCV::new(90, CV_SBT))
}

fn stake(amount: &str) -> Bucket {
    Bucket { resource_address: SHARE, amount: dec(amount) }
}

/// A member whose voting power is `power`: a quarter of it staked for one
/// year with trust factor one.
fn member(dao: &mut GroundBusinessDAO, power: &str) -> Badge {
    let (id, cv) = services();
    let amount = dec(power).checked_div(dec("4")).unwrap();
    let bucket = Bucket { resource_address: SHARE, amount };
    dao.become_dao_member(&id, &cv, &identity("1"), &skills(&[(1, 0)]), bucket, 1, 0).unwrap()
}

fn component() -> ComponentAddress {
    let mut raw = [7u8; 30];
    raw[0] = 0xc0;
    ComponentAddress::new_or_panic(raw)
}

fn calls() -> Methods {
    Methods {
        methods: vec![Method {
            component: component(),
            method: String::from("pay"),
            args: vec![vec![1, 2, 3]],
        }],
    }
}

fn propose(dao: &mut GroundBusinessDAO, proposer: &Badge, demand: &str) -> Badge {
    let (_, cv) = services();
    dao.propose_concept(&cv, proposer, &skills(&[(2, 5)]), calls(), dec(demand)).unwrap()
}

#[test]
fn unstaking_begins_when_the_lock_has_run_out() {
    let mut dao = engine();
    let a = member(&mut dao, "40");
    assert_eq!(dao.start_unstake(a, YEAR - 1), Err(DaoError::NotYetUnlocked));
    assert_eq!(dao.total_voting_power, dec("40"));
    assert!(dao.members[0].is_some());
    let receipt = dao.start_unstake(a, YEAR).unwrap();
    assert_eq!(receipt, Badge { resource_address: 13, id: 0 });
    assert!(dao.members[0].is_none());
    assert_eq!(dao.total_voting_power, Fixed::zero());
    let unstake = dao.unstakes[0].unwrap();
    assert_eq!(unstake.amount, dec("10"));
    assert_eq!(unstake.end_time, YEAR + 100);
    assert_eq!(dao.stake_vault.amount, dec("10"));
    assert_eq!(dao.start_unstake(a, YEAR), Err(DaoError::WrongResource));
}

#[test]
fn withdrawal_waits_for_the_unstake_delay() {
    let mut dao = engine();
    let a = member(&mut dao, "40");
    let b = member(&mut dao, "8");
    let receipt = dao.start_unstake(a, YEAR + 7).unwrap();
    assert_eq!(dao.unstake(receipt, YEAR + 106), Err(DaoError::NotYetUnlocked));
    assert_eq!(dao.stake_vault.amount, dec("12"));
    assert!(dao.unstakes[0].is_some());
    let paid = dao.unstake(receipt, YEAR + 107).unwrap();
    assert_eq!(paid, Bucket { resource_address: SHARE, amount: dec("10") });
    assert_eq!(dao.stake_vault.amount, dec("2"));
    assert!(dao.unstakes[0].is_none());
    assert_eq!(dao.unstake(receipt, YEAR + 107), Err(DaoError::WrongResource));
    let later = dao.start_unstake(b, u64::MAX - 100).unwrap();
    assert_eq!(dao.unstake(later, u64::MAX - 1), Err(DaoError::NotYetUnlocked));
    let paid = dao.unstake(later, u64::MAX).unwrap();
    assert_eq!(paid.amount, dec("2"));
    assert_eq!(dao.stake_vault.amount, Fixed::zero());
}

#[test]
fn withdrawal_pays_the_stake_recorded_at_stake_time() {
    let (id, cv) = services();
    let mut dao = engine();
    let a = dao
        .become_dao_member(&id, &cv, &identity("1"), &skills(&[(1, 0)]), stake("3.75"), 2, 50)
        .unwrap();
    dao.reassess_new_vote_power(&id, &cv, &a, Some(&identity("9")), None).unwrap();
    let receipt = dao.start_unstake(a, 50 + 2 * YEAR).unwrap();
    let paid = dao.unstake(receipt, 50 + 2 * YEAR + 100).unwrap();
    assert_eq!(paid.amount, dec("3.75"));
}

#[test]
fn unstaking_refuses_other_badges_and_late_times() {
    let (id, cv) = services();
    let mut dao = engine();
    let d = dao.delegate_dao_share(&id, &cv, None, None, stake("3"), 0, 10).unwrap();
    assert_eq!(
        dao.start_unstake(Badge { resource_address: 16, id: 0 }, 10),
        Err(DaoError::WrongResource)
    );
    assert_eq!(
        dao.start_unstake(Badge { resource_address: 15, id: 1 }, 10),
        Err(DaoError::WrongResource)
    );
    assert_eq!(dao.start_unstake(d, 9), Err(DaoError::NotYetUnlocked));
    assert_eq!(dao.start_unstake(d, u64::MAX - 99), Err(DaoError::Arithmetic));
    let receipt = dao.start_unstake(d, 10).unwrap();
    assert_eq!(dao.unstake(Badge { resource_address: 15, id: 0 }, 500), Err(DaoError::WrongResource));
    assert_eq!(dao.unstake(Badge { resource_address: 13, id: 1 }, 500), Err(DaoError::WrongResource));
    assert_eq!(dao.unstake(receipt, 110).unwrap().amount, dec("3"));
}
