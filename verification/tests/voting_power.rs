use ground_business::assets::Bucket;
use ground_business::error::DaoError;
use ground_business::fixed::{Fixed, SCALE};
use ground_business::ground_business_dao::{
    commit_factor_of, voting_power_of, GroundBusinessDAO, Resources,
};
use ground_business::ground_cv::{CVdata, CiV, CvProof, GroundCV, Skill};
use ground_business::ground_id::{GroundID, Identity, IdentityData, IdentityProof, IdentityType};
use scrypto::math::{Decimal, I192};
use scrypto::types::ComponentAddress;

const SHARE: u64 = 1;
const STABLE: u64 = 2;
const ID_SBT: u64 = 20;
const CV_SBT: u64 = 21;

fn oracle() -> (ComponentAddress, Bucket) {
    let mut raw = [9u8; 30];
    raw[0] = 0xc0;
    (ComponentAddress::new_or_panic(raw), Bucket { resource_address: 30, amount: Fixed::one() })
}

fn dec(text: &str) -> Fixed {
    let parsed = Decimal::try_from(text).unwrap();
    Fixed::from_attos(i128::try_from(parsed.attos()).unwrap())
}

fn decimal(value: Fixed) -> Decimal {
    Decimal::from_attos(I192::from(value.attos()))
}

fn resources() -> Resources {
    Resources {
        controller_badge: 10,
        pool_controller_badge: 11,
        dao_badge: 12,
        unstake_badge: 13,
        member_sbt: 14,
        delegator_badge: 15,
        proposal_badge: 16,
    }
}

fn engine(commit_percent: &str, requirement: Vec<(u32, u8)>) -> GroundBusinessDAO {
    GroundBusinessDAO::new(
        resources(),
        Bucket { resource_address: SHARE, amount: dec("1000") },
        Bucket { resource_address: STABLE, amount: dec("1000") },
        dec("1"),
        requirement,
        5,
        dec("1"),
        dec("2"),
        dec(commit_percent),
        dec("10"),
        5,
        100,
        oracle(),
        vec![77],
    )
    .unwrap()
}

fn identity(resource_address: u64, trust_factor: &str) -> IdentityProof {
    IdentityProof {
        resource_address,
        identity: Identity {
            data: IdentityData {
                identity: IdentityType::Person,
                income: Fixed::zero(),
                trust_factor: dec(trust_factor),
            },
        },
    }
}

fn skills(resource_address: u64, levels: &[(u8, u8)]) -> CvProof {
    let mut cvs = Vec::new();
    for (skill_id, level) in levels {
        cvs.push(CiV { cv_data: CVdata::Skill(Skill { skill_id: *skill_id, level: *level }) });
    }
    CvProof { resource_address, cvs }
}

fn services() -> (GroundID, GroundCV) {
    (GroundID::new(80, ID_SBT, 81, 82), GroundCV::new(90, CV_SBT))
}

#[test]
fn voting_power_without_certificates_is_stake_times_commit_factor() {
    let (id, cv) = services();
    let dao = engine("5", vec![(3001, 0)]);
    let power = dao.calculate_voting_power(&id, &cv, None, None, dec("10"), 0);
    assert_eq!(power, Ok(dec("10")));
    let power = dao.calculate_voting_power(&id, &cv, None, None, dec("10"), 2);
    assert_eq!(power, Ok(dec("11.025")));
}

#[test]
fn voting_power_is_the_product_of_its_four_factors() {
    let (id, cv) = services();
    let dao = engine("5", vec![(3001, 0), (3002, 0)]);
    let who = identity(ID_SBT, "0.5");
    let cvs = skills(CV_SBT, &[(1, 5), (2, 7)]);
    let power = dao.calculate_voting_power(&id, &cv, Some(&who), Some(&cvs), dec("12.5"), 3);
    assert_eq!(power.unwrap().attos(), 34_728_750_000_000_000_000);
}

#[test]
fn voting_power_agrees_with_decimal_arithmetic() {
    let (id, cv) = services();
    let dao = engine("7", vec![(3001, 0), (3002, 0), (3003, 0)]);
    let who = identity(ID_SBT, "33.333333333333333333");
    let cvs = skills(CV_SBT, &[(1, 9), (2, 4)]);
    let stake = dec("123.456789012345678901");
    let power = dao.calculate_voting_power(&id, &cv, Some(&who), Some(&cvs), stake, 4).unwrap();
    let one = Decimal::ONE;
    let ten = Decimal::from(10u32);
    let score = (one + Decimal::from(9u32) / ten + one + Decimal::from(4u32) / ten)
        / Decimal::from(3u32);
    let base = one + Decimal::from(7u32) / Decimal::from(100u32);
    let commit = one * base * base * base * base;
    let trust = one + decimal(dec("33.333333333333333333"));
    let expected = score * decimal(stake) * commit * trust;
    assert_eq!(decimal(power), expected);
}

#[test]
fn voting_power_refuses_bad_stake_and_years() {
    let (id, cv) = services();
    let dao = engine("5", vec![(3001, 0)]);
    let zero = dao.calculate_voting_power(&id, &cv, None, None, Fixed::zero(), 1);
    assert_eq!(zero, Err(DaoError::InvalidInput));
    let negative = dao.calculate_voting_power(&id, &cv, None, None, dec("-1"), 1);
    assert_eq!(negative, Err(DaoError::InvalidInput));
    let long = dao.calculate_voting_power(&id, &cv, None, None, dec("1"), 6);
    assert_eq!(long, Err(DaoError::InvalidInput));
    let at_cap = dao.calculate_voting_power(&id, &cv, None, None, dec("1"), 5);
    assert!(at_cap.is_ok());
}

#[test]
fn voting_power_refuses_certificates_of_other_services() {
    let (id, cv) = services();
    let dao = engine("5", vec![(3001, 0)]);
    let forged = identity(ID_SBT + 1, "1");
    let power = dao.calculate_voting_power(&id, &cv, Some(&forged), None, dec("1"), 1);
    assert_eq!(power, Err(DaoError::VerificationFailed));
    let cvs = skills(CV_SBT + 1, &[(1, 5)]);
    let power = dao.calculate_voting_power(&id, &cv, None, Some(&cvs), dec("1"), 1);
    assert_eq!(power, Err(DaoError::VerificationFailed));
    let distrusted = identity(ID_SBT, "100.000000000000000001");
    let power = dao.calculate_voting_power(&id, &cv, Some(&distrusted), None, dec("1"), 1);
    assert_eq!(power, Err(DaoError::VerificationFailed));
    let negative = identity(ID_SBT, "-0.000000000000000001");
    let power = dao.calculate_voting_power(&id, &cv, Some(&negative), None, dec("1"), 1);
    assert_eq!(power, Err(DaoError::VerificationFailed));
}

#[test]
fn voting_power_that_cannot_be_held_is_refused() {
    let (id, cv) = services();
    let dao = engine("100", vec![(3001, 0)]);
    let who = identity(ID_SBT, "100");
    let huge = Fixed::from_attos(i128::MAX / 2);
    let power = dao.calculate_voting_power(&id, &cv, Some(&who), None, huge, 5);
    assert_eq!(power, Err(DaoError::Arithmetic));
    let empty = engine("5", Vec::new());
    let cvs = skills(CV_SBT, &[(1, 5)]);
    let power = empty.calculate_voting_power(&id, &cv, None, Some(&cvs), dec("1"), 1);
    assert_eq!(power, Err(DaoError::Arithmetic));
}

#[test]
fn voting_power_grows_with_stake_trust_and_years() {
    let (id, cv) = services();
    let dao = engine("3", vec![(3001, 0)]);
    let cvs = skills(CV_SBT, &[(1, 3)]);
    let stakes = ["0.000000000000000001", "0.5", "1", "17.3", "1000000"];
    let trusts = ["0", "0.1", "1", "99.9", "100"];
    let mut last = Fixed::from_attos(-1);
    for stake in stakes {
        let who = identity(ID_SBT, "1");
        let power =
            dao.calculate_voting_power(&id, &cv, Some(&who), Some(&cvs), dec(stake), 2).unwrap();
        assert!(last.le(&power));
        last = power;
    }
    let mut last = Fixed::from_attos(-1);
    for trust in trusts {
        let who = identity(ID_SBT, trust);
        let power =
            dao.calculate_voting_power(&id, &cv, Some(&who), Some(&cvs), dec("17.3"), 2).unwrap();
        assert!(last.le(&power));
        last = power;
    }
    let mut last = Fixed::from_attos(-1);
    for years in 0..=5u8 {
        let who = identity(ID_SBT, "1");
        let power =
            dao.calculate_voting_power(&id, &cv, Some(&who), Some(&cvs), dec("17.3"), years).unwrap();
        assert!(last.le(&power));
        last = power;
    }
}

#[test]
fn commit_factor_compounds_yearly() {
    assert_eq!(commit_factor_of(dec("0.05"), 0), Some(Fixed::one()));
    assert_eq!(commit_factor_of(dec("0.05"), 1), Some(dec("1.05")));
    assert_eq!(commit_factor_of(dec("0.05"), 3), Some(dec("1.157625")));
    assert_eq!(commit_factor_of(dec("1"), 5), Some(dec("32")));
    assert_eq!(commit_factor_of(Fixed::from_attos(i128::MAX), 1), None);
}

#[test]
fn voting_power_multiplies_in_order() {
    let third = dec("0.333333333333333333");
    let power = voting_power_of(third, dec("3"), dec("3"), dec("3")).unwrap();
    assert_eq!(power.attos(), 8_999_999_999_999_999_991);
    assert_eq!(voting_power_of(Fixed::zero(), dec("3"), dec("3"), dec("3")), Some(Fixed::zero()));
    assert_eq!(voting_power_of(dec("1"), dec("1"), dec("1"), dec("1")).unwrap().attos(), SCALE);
}
