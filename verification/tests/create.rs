use hapi::aml::policy::is_valid_risk_score;
use hapi::aml::{AmlError, AmlManager, Category, AML, MAX_RISK_LEVEL};
use near_sdk::AccountId;

fn account(name: &str) -> AccountId {
    AccountId::new_unchecked(name.to_string())
}

#[test]
fn every_score_from_one_to_ten_makes_a_policy_with_that_default() {
    for score in 1..=10u8 {
        let aml = AML::new(account("auth.test"), score).unwrap();
        let (authority, thresholds) = aml.get_aml();
        assert_eq!(*authority, account("auth.test"));
        assert_eq!(thresholds, vec![(Category::All, score)]);
    }
}

#[test]
fn a_default_of_zero_is_refused() {
    assert_eq!(AML::new(account("auth.test"), 0).err(), Some(AmlError::InvalidRiskScore));
}

#[test]
fn a_default_above_ten_is_refused() {
    for score in 11..=255u8 {
        assert_eq!(AML::new(account("auth.test"), score).err(), Some(AmlError::InvalidRiskScore));
    }
}

#[test]
fn the_highest_threshold_is_ten() {
    assert_eq!(MAX_RISK_LEVEL, 10);
    assert!(AML::new(account("auth.test"), MAX_RISK_LEVEL).is_ok());
    assert!(AML::new(account("auth.test"), MAX_RISK_LEVEL + 1).is_err());
}

#[test]
fn valid_scores_are_exactly_one_to_ten() {
    assert!(!is_valid_risk_score(0));
    assert!(is_valid_risk_score(1));
    assert!(is_valid_risk_score(5));
    assert!(is_valid_risk_score(10));
    assert!(!is_valid_risk_score(11));
    assert!(!is_valid_risk_score(255));
}

#[test]
fn a_policy_seeded_with_a_category_holds_that_threshold_alone() {
    let aml = AML::new_with_category(account("aml"), Category::Scam, 6).unwrap();
    let (authority, thresholds) = aml.get_aml();
    assert_eq!(*authority, account("aml"));
    assert_eq!(thresholds, vec![(Category::Scam, 6)]);
    assert_eq!(aml.threshold(Category::Scam), Some(6));
    assert_eq!(aml.threshold(Category::All), None);
}

#[test]
fn a_policy_seeded_with_the_default_category_is_the_plain_one() {
    let seeded = AML::new_with_category(account("aml"), Category::All, MAX_RISK_LEVEL).unwrap();
    let plain = AML::new(account("aml"), MAX_RISK_LEVEL).unwrap();
    assert_eq!(seeded.get_aml(), plain.get_aml());
    assert_eq!(seeded.get_aml().1, vec![(Category::All, 10)]);
}

#[test]
fn a_seed_of_zero_or_above_ten_is_refused() {
    for score in [0u8, 11, 12, 100, 255] {
        assert_eq!(
            AML::new_with_category(account("aml"), Category::Mixer, score).err(),
            Some(AmlError::InvalidRiskScore)
        );
        assert_eq!(
            AML::new_with_category(account("aml"), Category::All, score).err(),
            Some(AmlError::InvalidRiskScore)
        );
    }
}

#[test]
fn a_seeded_policy_gets_its_default_by_a_later_write() {
    let mut aml = AML::new_with_category(account("aml"), Category::Scam, 6).unwrap();
    assert_eq!(aml.assert_risk((Category::DeFi, 1)), Err(AmlError::MissingDefaultPolicy));
    assert_eq!(aml.update_category(Category::All, 4), Ok(()));
    assert_eq!(aml.assert_risk((Category::DeFi, 4)), Ok(()));
    assert_eq!(aml.assert_risk((Category::DeFi, 5)), Err(AmlError::RiskTooHigh));
    assert_eq!(aml.get_aml().1, vec![(Category::Scam, 6), (Category::All, 4)]);
}
