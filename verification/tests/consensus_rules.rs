use ground_business::fixed::Fixed;
use ground_business::ground_business_dao::{
    dev_reward_of, excess_bucket_of, quorum_threshold_of, rate_fraction, ConceptData,
};
use ground_business::error::DaoError;
use scrypto::math::Decimal;

fn dec(text: &str) -> Fixed {
    let parsed = Decimal::try_from(text).unwrap();
    Fixed::from_attos(i128::try_from(parsed.attos()).unwrap())
}

#[test]
fn quorum_is_two_thirds_rounded_toward_zero() {
    assert_eq!(quorum_threshold_of(dec("100")), Some(dec("66.666666666666666666")));
    assert_eq!(quorum_threshold_of(dec("30")), Some(dec("20")));
    assert_eq!(quorum_threshold_of(Fixed::zero()), Some(Fixed::zero()));
    assert_eq!(quorum_threshold_of(Fixed::from_attos(i128::MAX)), None);
}

#[test]
fn bucket_counts_whole_totals_in_the_margin() {
    assert_eq!(excess_bucket_of(dec("68"), dec("66.666666666666666666"), dec("100")), Some(0));
    assert_eq!(excess_bucket_of(dec("100"), dec("20"), dec("30")), Some(2));
    assert_eq!(excess_bucket_of(dec("50"), dec("20"), dec("30")), Some(1));
    assert_eq!(excess_bucket_of(dec("275"), dec("20"), dec("1")), Some(255));
    assert_eq!(excess_bucket_of(dec("276"), dec("20"), dec("1")), None);
    assert_eq!(excess_bucket_of(dec("10"), dec("20"), dec("1")), None);
    assert_eq!(excess_bucket_of(dec("10"), dec("5"), Fixed::zero()), None);
}

#[test]
fn reward_is_the_demand_times_a_power_of_the_base() {
    assert_eq!(dev_reward_of(dec("7"), dec("2"), 0), Some(dec("7")));
    assert_eq!(dev_reward_of(dec("7"), dec("2"), 3), Some(dec("56")));
    assert_eq!(dev_reward_of(dec("7"), dec("0.5"), 2), Some(dec("1.75")));
    assert_eq!(dev_reward_of(dec("7"), dec("100"), 255), None);
}

#[test]
fn percent_becomes_a_fraction() {
    assert_eq!(rate_fraction(dec("100")), Ok(dec("1")));
    assert_eq!(rate_fraction(dec("2.5")), Ok(dec("0.025")));
    assert_eq!(rate_fraction(Fixed::from_attos(99)), Ok(Fixed::zero()));
    assert_eq!(rate_fraction(Fixed::zero()), Err(DaoError::InvalidInput));
    assert_eq!(rate_fraction(dec("100.5")), Err(DaoError::InvalidInput));
}

#[test]
fn consensus_starts_pending_with_nothing_cast() {
    let concept = ConceptData::new();
    assert_eq!(concept.total_voted, Fixed::zero());
    assert_eq!(concept.voted_power, Fixed::zero());
    assert_eq!(concept.status, None);
}
