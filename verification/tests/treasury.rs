use ground_business::assets::{Badge, Bucket};
use ground_business::error::DaoError;
use ground_business::fixed::Fixed;
use ground_business::ground_business_dao::{
    effective_input_of, swap_output_of, GroundBusinessDAO, Method, Methods, Resources,
};
use ground_business::ground_cv::{CVdata, CiV, CvProof, GroundCV, Skill};
use ground_business::ground_id::{GroundID, Identity, IdentityData, IdentityProof, IdentityType};
use scrypto::math::Decimal;
use scrypto::types::ComponentAddress;

const SHARE: u64 = 1;
const STABLE: u64 = 2;
const ID_SBT: u64 = 20;
const CV_SBT: u64 = 21;

fn oracle() -> (ComponentAddress, Bucket) {
    let mut raw = [9u8; 30];
    raw[0] = 0xc0;
    (ComponentAddress::new_or_panic(raw), Bucket { resource_address: 30, amount: Fixed::one() })
}

fn dec(text: &str) -> Fixed {
    let parsed = Decimal::try_from(text).unwrap();
    Fixed::from_attos(i128::try_from(parsed.attos()).unwrap())
}

fn resources() -> Resources {
    Resources {
        controller_badge: 10,
        pool_controller_badge: 11,
        dao_badge: 12,
        unstake_badge: 13,
        member_sbt: 14,
        delegator_badge: 15,
        proposal_badge: 16,
    }
}

/// Commit rate 100 percent, dividend rate 1 percent, reward base 2.
fn engine() -> GroundBusinessDAO {
    GroundBusinessDAO::new(
        resources(),
        Bucket { resource_address: SHARE, amount: dec("1000") },
        Bucket { resource_address: STABLE, amount: dec("1000") },
        dec("1"),
        vec![(3001, 0)],
        5,
        dec("1"),
        dec("2"),
        dec("100"),
        dec("10"),
        5,
        100,
        oracle(),
        vec![77],
    )
    .unwrap()
}

fn identity(trust_factor: &str) -> IdentityProof {
    IdentityProof {
        resource_address: ID_SBT,
        identity: Identity {
            data: IdentityData {
                identity: IdentityType::Person,
                income: Fixed::zero(),
                trust_factor: dec(trust_factor),
            },
        },
    }
}

fn skills(levels: &[(u8, u8)]) -> CvProof {
    let mut cvs = Vec::new();
    for (skill_id, level) in levels {
        cvs.push(CiV { cv_data: CVdata::Skill(Skill { skill_id: *skill_id, level: *level }) });
    }
    CvProof { resource_address: CV_SBT, cvs }
}

fn services() -> (GroundID, GroundCV) {
    (GroundID::new(80, ID_SBT, 81, 82), GroundCV::new(90, CV_SBT))
}

fn stake(amount: &str) -> Bucket {
    Bucket { resource_address: SHARE, amount: dec(amount) }
}

/// A member whose voting power is `power`: a quarter of it staked for one
/// year with trust factor one.
fn member(dao: &mut GroundBusinessDAO, power: &str) -> Badge {
    let (id, cv) = services();
    let amount = dec(power).checked_div(dec("4")).unwrap();
    let bucket = Bucket { resource_address: SHARE, amount };
    dao.become_dao_member(&id, &cv, &identity("1"), &skills(&[(1, 0)]), bucket, 1, 0).unwrap()
}

fn component() -> ComponentAddress {
    let mut raw = [7u8; 30];
    raw[0] = 0xc0;
    ComponentAddress::new_or_panic(raw)
}

fn calls() -> Methods {
    Methods {
        methods: vec![Method {
            component: component(),
            method: String::from("pay"),
            args: vec![vec![1, 2, 3]],
        }],
    }
}

fn propose(dao: &mut GroundBusinessDAO, proposer: &Badge, demand: &str) -> Badge {
    let (_, cv) = services();
    dao.propose_concept(&cv, proposer, &skills(&[(2, 5)]), calls(), dec(demand)).unwrap()
}

fn stable(amount: &str) -> Bucket {
    Bucket { resource_address: STABLE, amount: dec(amount) }
}

fn authority() -> Badge {
    Badge { resource_address: 12, id: 0 }
}

#[test]
fn swap_pays_the_quoted_output_of_the_other_asset() {
    let mut dao = engine();
    // fee 1 percent: 0.00099 counts; 0.00099 * 1000 * (1000 + 0.00099)
    let out = dao.auto_swap(stable("0.001")).unwrap();
    assert_eq!(out.resource_address, SHARE);
    assert_eq!(out.amount.attos(), 990_000_980_100_000_000_000);
    assert_eq!(dao.treasury.0.amount, dec("1000.001"));
    assert_eq!(dao.treasury.1.amount, dec("9.9990199"));
    let back = dao.auto_swap(stake("0.0001")).unwrap();
    assert_eq!(back.resource_address, STABLE);
    // 0.000099 * 1000.001 * (9.9990199 + 0.000099)
    assert_eq!(back.amount.attos(), 989_913_761_012_771_100);
    assert_eq!(dao.treasury.1.amount, dec("9.9991199"));
}

#[test]
fn swap_refuses_more_than_the_other_pool_holds() {
    let mut dao = engine();
    assert_eq!(dao.auto_swap(stable("1")), Err(DaoError::InsufficientFunds));
    assert_eq!(dao.treasury.0.amount, dec("1000"));
    assert_eq!(dao.treasury.1.amount, dec("1000"));
}

#[test]
fn swap_refuses_other_assets_and_negative_amounts() {
    let mut dao = engine();
    let other = Bucket { resource_address: 3, amount: dec("1") };
    assert_eq!(dao.auto_swap(other), Err(DaoError::WrongResource));
    assert_eq!(dao.auto_swap(stable("-0.001")), Err(DaoError::InvalidInput));
    let nothing = dao.auto_swap(stable("0")).unwrap();
    assert_eq!(nothing, Bucket { resource_address: SHARE, amount: Fixed::zero() });
    let huge = Bucket { resource_address: STABLE, amount: Fixed::from_attos(i128::MAX) };
    assert_eq!(dao.auto_swap(huge), Err(DaoError::Arithmetic));
}

#[test]
fn fee_reduces_what_counts_of_the_input() {
    assert_eq!(effective_input_of(dec("7.25"), Fixed::zero()), Some(dec("7.25")));
    assert_eq!(effective_input_of(dec("100"), dec("0.01")), Some(dec("99")));
    assert_eq!(effective_input_of(dec("100"), dec("1")), Some(Fixed::zero()));
    let smallest = Fixed::from_attos(1);
    assert_eq!(effective_input_of(smallest, smallest), Some(Fixed::zero()));
    for amount in ["0.000000000000000001", "0.3", "1", "12345.678"] {
        for fee in ["0.000000000000000001", "0.01", "0.5", "1"] {
            let counted = effective_input_of(dec(amount), dec(fee)).unwrap();
            assert!(counted.lt(&dec(amount)));
            assert!(!counted.is_negative());
        }
        assert_eq!(effective_input_of(dec(amount), Fixed::zero()), Some(dec(amount)));
    }
}

#[test]
fn output_without_fee_is_the_formula_on_the_whole_input() {
    let x = dec("3");
    let y = dec("5");
    let amount = dec("0.2");
    let counted = effective_input_of(amount, Fixed::zero()).unwrap();
    assert_eq!(counted, amount);
    // 0.2 * 5 * (3 + 0.2)
    assert_eq!(swap_output_of(counted, x, y), Some(dec("3.2")));
    let with_fee = effective_input_of(amount, dec("0.5")).unwrap();
    // 0.1 * 5 * (3 + 0.1)
    assert_eq!(swap_output_of(with_fee, x, y), Some(dec("1.55")));
    assert_eq!(swap_output_of(Fixed::from_attos(i128::MAX), x, y), None);
}

#[test]
fn revenue_goes_into_the_stable_pool() {
    let mut dao = engine();
    assert_eq!(dao.deposit(stable("12.5")), Ok(()));
    assert_eq!(dao.treasury.0.amount, dec("1012.5"));
    assert_eq!(dao.deposit(stake("1")), Err(DaoError::WrongResource));
    assert_eq!(dao.deposit(stable("-1")), Err(DaoError::InvalidInput));
    let most = Bucket { resource_address: STABLE, amount: Fixed::from_attos(i128::MAX) };
    assert_eq!(dao.deposit(most), Err(DaoError::Arithmetic));
    assert_eq!(dao.treasury.0.amount, dec("1012.5"));
}

#[test]
fn organisation_withdraws_from_the_stable_pool() {
    let mut dao = engine();
    let stranger = Badge { resource_address: 10, id: 0 };
    assert_eq!(dao.withdraw(&stranger, dec("1")), Err(DaoError::WrongResource));
    assert_eq!(dao.withdraw(&authority(), dec("1000.1")), Err(DaoError::InsufficientFunds));
    assert_eq!(dao.withdraw(&authority(), dec("-1")), Err(DaoError::InvalidInput));
    let out = dao.withdraw(&authority(), dec("1000")).unwrap();
    assert_eq!(out, stable("1000"));
    assert_eq!(dao.treasury.0.amount, Fixed::zero());
}

#[test]
fn registered_protocol_is_compensated() {
    let mut dao = engine();
    let protocol = Badge { resource_address: 77, id: 4 };
    let stranger = Badge { resource_address: 78, id: 4 };
    assert_eq!(dao.compensate(&stranger, dec("1")), Err(DaoError::UnauthorizedProtocol));
    assert_eq!(dao.compensate(&protocol, dec("2000")), Err(DaoError::InsufficientFunds));
    let out = dao.compensate(&protocol, dec("250")).unwrap();
    assert_eq!(out, stable("250"));
    assert_eq!(dao.treasury.0.amount, dec("750"));
}

#[test]
fn protocols_are_added_and_removed() {
    let mut dao = engine();
    let stranger = Badge { resource_address: 10, id: 0 };
    assert_eq!(dao.add_protocol(&stranger, 78), Err(DaoError::WrongResource));
    assert_eq!(dao.remove_protocol(&stranger, 77), Err(DaoError::WrongResource));
    dao.add_protocol(&authority(), 78).unwrap();
    dao.add_protocol(&authority(), 77).unwrap();
    assert_eq!(dao.protocols, vec![77, 78, 77]);
    dao.remove_protocol(&authority(), 77).unwrap();
    assert_eq!(dao.protocols, vec![78, 77]);
    dao.remove_protocol(&authority(), 5).unwrap();
    assert_eq!(dao.protocols, vec![78, 77]);
    dao.remove_protocol(&authority(), 77).unwrap();
    dao.remove_protocol(&authority(), 78).unwrap();
    assert!(dao.protocols.is_empty());
    let protocol = Badge { resource_address: 77, id: 0 };
    assert_eq!(dao.compensate(&protocol, dec("1")), Err(DaoError::UnauthorizedProtocol));
}

#[test]
fn settings_change_under_the_organisation_authority() {
    let mut dao = engine();
    let a = authority();
    dao.change_swap_fee(&a, dec("3")).unwrap();
    dao.change_voting_pool_fee(&a, dec("25")).unwrap();
    dao.change_dividend_rate(&a, dec("0.5")).unwrap();
    dao.change_year_commited_rate(&a, dec("7")).unwrap();
    dao.change_dev_expo_reward(&a, dec("1.5")).unwrap();
    dao.change_proposal_requirement(&a, 9).unwrap();
    dao.change_year_cap(&a, 12).unwrap();
    dao.change_unstake_delay(&a, 3600).unwrap();
    dao.change_member_entry_requirement(&a, vec![(1001, 2)]).unwrap();
    assert_eq!(dao.settings.swap_fee, dec("0.03"));
    assert_eq!(dao.settings.voting_pool_fee, dec("0.25"));
    assert_eq!(dao.pool_fee(), dec("0.25"));
    assert_eq!(dao.settings.dividend_rate, dec("0.005"));
    assert_eq!(dao.settings.year_commited_rate, dec("0.07"));
    assert_eq!(dao.settings.dev_expo_reward, dec("1.5"));
    assert_eq!(dao.settings.proposal_requirement, 9);
    assert_eq!(dao.year_cap(), 12);
    assert_eq!(dao.unstake_delay(), 3600);
    assert_eq!(dao.member_entry_requirement, vec![(1001, 2)]);
}

#[test]
fn settings_refuse_strangers_and_rates_out_of_bounds() {
    let mut dao = engine();
    let a = authority();
    let stranger = Badge { resource_address: 10, id: 0 };
    assert_eq!(dao.change_swap_fee(&stranger, dec("3")), Err(DaoError::WrongResource));
    assert_eq!(dao.change_voting_pool_fee(&stranger, dec("3")), Err(DaoError::WrongResource));
    assert_eq!(dao.change_dividend_rate(&stranger, dec("3")), Err(DaoError::WrongResource));
    assert_eq!(dao.change_year_commited_rate(&stranger, dec("3")), Err(DaoError::WrongResource));
    assert_eq!(dao.change_dev_expo_reward(&stranger, dec("3")), Err(DaoError::WrongResource));
    assert_eq!(dao.change_proposal_requirement(&stranger, 1), Err(DaoError::WrongResource));
    assert_eq!(dao.change_year_cap(&stranger, 1), Err(DaoError::WrongResource));
    assert_eq!(dao.change_unstake_delay(&stranger, 1), Err(DaoError::WrongResource));
    assert_eq!(
        dao.change_member_entry_requirement(&stranger, Vec::new()),
        Err(DaoError::WrongResource)
    );
    assert_eq!(
        dao.change_member_entry_requirement(&a, vec![(3001, 1), (3001, 2)]),
        Err(DaoError::InvalidInput)
    );
    assert_eq!(dao.member_entry_requirement, vec![(3001, 0)]);
    assert_eq!(dao.change_swap_fee(&a, dec("0")), Err(DaoError::InvalidInput));
    assert_eq!(dao.change_voting_pool_fee(&a, dec("100.01")), Err(DaoError::InvalidInput));
    assert_eq!(dao.change_dividend_rate(&a, dec("-1")), Err(DaoError::InvalidInput));
    assert_eq!(dao.change_year_commited_rate(&a, dec("101")), Err(DaoError::InvalidInput));
    assert_eq!(dao.change_dev_expo_reward(&a, dec("0")), Err(DaoError::InvalidInput));
    assert_eq!(dao.settings.swap_fee, dec("0.01"));
    assert_eq!(dao.settings.dev_expo_reward, dec("2"));
    assert_eq!(dao.year_cap(), 5);
}

#[test]
fn oracle_time_is_read_for_the_engine_only() {
    let dao = engine();
    let controller = Badge { resource_address: 10, id: 0 };
    let stranger = Badge { resource_address: 12, id: 0 };
    assert_eq!(dao.current(&controller, "1660000000"), Ok(1_660_000_000));
    assert_eq!(dao.current(&controller, "soon"), Err(DaoError::InvalidInput));
    assert_eq!(dao.current(&stranger, "1660000000"), Err(DaoError::UnauthorizedController));
}

#[test]
fn oracle_is_changed_by_the_organisation() {
    let mut dao = engine();
    let mut raw = [3u8; 30];
    raw[0] = 0xc0;
    let next = ComponentAddress::new_or_panic(raw);
    let badge = Bucket { resource_address: 30, amount: dec("2") };
    let stranger = Badge { resource_address: 10, id: 0 };
    assert_eq!(dao.use_oracle(&stranger, next, badge), Err(DaoError::WrongResource));
    let other = Bucket { resource_address: 31, amount: dec("2") };
    assert_eq!(dao.use_oracle(&authority(), next, other), Err(DaoError::WrongResource));
    let negative = Bucket { resource_address: 30, amount: dec("-2") };
    assert_eq!(dao.use_oracle(&authority(), next, negative), Err(DaoError::InvalidInput));
    assert_eq!(dao.oracle.0, oracle().0);
    assert_eq!(dao.oracle.1.amount, dec("1"));
    let shown = dao.use_oracle(&authority(), next, badge).unwrap();
    assert_eq!(shown, Bucket { resource_address: 30, amount: dec("1") });
    assert_eq!(dao.oracle.0, next);
    assert_eq!(dao.oracle.1.amount, dec("2"));
    assert!(dao.is_sound());
}
