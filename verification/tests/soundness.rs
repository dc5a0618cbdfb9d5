use ground_business::assets::{Badge, Bucket};
use ground_business::fixed::Fixed;
use ground_business::ground_business_dao::{GroundBusinessDAO, Resources};
use ground_business::ground_cv::{CVdata, CiV, CvProof, GroundCV, Skill};
use ground_business::ground_id::{GroundID, Identity, IdentityData, IdentityProof, IdentityType};
use ground_business::ground_voting_pool::GroundVotingPool;
use scrypto::types::ComponentAddress;

const SHARE: u64 = 1;

fn oracle() -> (ComponentAddress, Bucket) {
    let mut raw = [9u8; 30];
    raw[0] = 0xc0;
    (ComponentAddress::new_or_panic(raw), Bucket { resource_address: 30, amount: Fixed::one() })
}

fn engine() -> GroundBusinessDAO {
    let resources = Resources {
        controller_badge: 10,
        pool_controller_badge: 11,
        dao_badge: 12,
        unstake_badge: 13,
        member_sbt: 14,
        delegator_badge: 15,
        proposal_badge: 16,
    };
    GroundBusinessDAO::new(
        resources,
        Bucket { resource_address: SHARE, amount: Fixed::from_int(1000) },
        Bucket { resource_address: 2, amount: Fixed::from_int(1000) },
        Fixed::from_int(1),
        vec![(3001, 0)],
        5,
        Fixed::from_int(1),
        Fixed::from_int(2),
        Fixed::from_int(100),
        Fixed::from_int(10),
        5,
        100,
        oracle(),
        Vec::new(),
    )
    .unwrap()
}

fn populated() -> (GroundBusinessDAO, Badge, Badge) {
    let id = GroundID::new(80, 20, 81, 82);
    let cv = GroundCV::new(90, 21);
    let who = IdentityProof {
        resource_address: 20,
        identity: Identity {
            data: IdentityData {
                identity: IdentityType::Person,
                income: Fixed::zero(),
                trust_factor: Fixed::one(),
            },
        },
    };
    let cvs = CvProof {
        resource_address: 21,
        cvs: vec![CiV { cv_data: CVdata::Skill(Skill { skill_id: 1, level: 3 }) }],
    };
    let mut dao = engine();
    let stake = Bucket { resource_address: SHARE, amount: Fixed::from_int(10) };
    let member = dao.become_dao_member(&id, &cv, &who, &cvs, stake, 1, 0).unwrap();
    let delegator = dao.delegate_dao_share(&id, &cv, None, None, stake, 0, 0).unwrap();
    (dao, member, delegator)
}

#[test]
fn states_that_the_operations_leave_are_sound() {
    let mut dao = engine();
    assert!(dao.is_sound());
    let (mut dao2, member, delegator) = populated();
    assert!(dao2.is_sound());
    dao2.start_unstake(delegator, 0).unwrap();
    assert!(dao2.is_sound());
    let mut pool = dao2.new_voting_pool(&member, String::from("p"), 700, 701).unwrap();
    assert!(dao2.is_sound());
    assert!(pool.is_sound());
    let stake = Bucket { resource_address: SHARE, amount: Fixed::from_int(3) };
    let id = GroundID::new(80, 20, 81, 82);
    let cv = GroundCV::new(90, 21);
    let d = dao2.delegate_dao_share(&id, &cv, None, None, stake, 0, 0).unwrap();
    pool.delegate(&mut dao2, d).unwrap();
    assert!(pool.is_sound());
    assert!(dao2.is_sound());
    dao.deposit_dividend(stake).unwrap();
    assert!(dao.is_sound());
}

#[test]
fn tampered_states_are_not_sound() {
    let (fresh, _, _) = populated();
    assert!(fresh.is_sound());
    let (mut dao, _, _) = populated();
    dao.total_voting_power = dao.total_voting_power.checked_add(Fixed::from_attos(1)).unwrap();
    assert!(!dao.is_sound());
    let (mut dao, _, _) = populated();
    dao.stake_vault.amount = Fixed::from_int(19);
    assert!(!dao.is_sound());
    let (mut dao, _, _) = populated();
    dao.members[0].as_mut().unwrap().data.staking_amount = Fixed::zero();
    assert!(!dao.is_sound());
    let (mut dao, _, _) = populated();
    dao.delegators[0].as_mut().unwrap().data.voting_power = Fixed::from_attos(-1);
    assert!(!dao.is_sound());
    let (mut dao, _, _) = populated();
    dao.proposal_id_counter = 1;
    assert!(!dao.is_sound());
    let (mut dao, _, _) = populated();
    dao.settings.swap_fee = Fixed::from_int(2);
    assert!(!dao.is_sound());
    let (mut dao, _, _) = populated();
    dao.resources.delegator_badge = dao.resources.member_sbt;
    assert!(!dao.is_sound());
    let (mut dao, _, _) = populated();
    dao.dividend_vault.amount = Fixed::from_attos(-1);
    assert!(!dao.is_sound());
    let (mut dao, _, _) = populated();
    dao.member_entry_requirement = vec![(3001, 0), (3001, 1)];
    assert!(!dao.is_sound());
    let (mut dao, _, _) = populated();
    dao.members[0].as_mut().unwrap().data.voting_power = Fixed::from_attos(i128::MAX);
    assert!(!dao.is_sound());
}

#[test]
fn pool_that_lists_a_certificate_twice_is_not_sound() {
    let (mut dao, member, _) = populated();
    let mut pool: GroundVotingPool =
        dao.new_voting_pool(&member, String::from("p"), 700, 701).unwrap();
    pool.delegators = vec![3, 4, 5];
    assert!(pool.is_sound());
    pool.delegators = vec![3, 4, 3];
    assert!(!pool.is_sound());
    pool.delegators = vec![3];
    pool.fee_vault.amount = Fixed::from_attos(-1);
    assert!(!pool.is_sound());
}

#[test]
fn identity_service_notices_a_broken_book() {
    let admin = Badge { resource_address: 80, id: 0 };
    let mut id = GroundID::new(80, 20, 81, 82);
    assert!(id.is_sound());
    let holder = id
        .issue_new_id_sbt(&admin, IdentityType::Person, Fixed::zero(), Fixed::one())
        .unwrap();
    id.request_update_data(&holder, Fixed::one(), Fixed::one()).unwrap();
    assert!(id.is_sound());
    id.review_update_data(&admin, 0, true).unwrap();
    assert!(id.is_sound());
    id.request_book[0].reviewed = false;
    assert!(!id.is_sound());
    id.request_book[0].reviewed = true;
    id.request_book[0].sbt_id = 9;
    assert!(!id.is_sound());
    id.request_book[0].sbt_id = 0;
    assert!(id.is_sound());
    id.requests.push(None);
    assert!(!id.is_sound());
}
