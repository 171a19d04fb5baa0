use hapi::aml::{AmlError, AmlManager, Category, RiskScore, AML};
use near_sdk::AccountId;

fn account(name: &str) -> AccountId {
    AccountId::new_unchecked(name.to_string())
}

fn count_of(listing: &[(Category, RiskScore)], category: Category) -> usize {
    listing.iter().filter(|entry| entry.0 == category).count()
}

const CATEGORIES: [Category; 21] = [
    Category::All,
    Category::Unknown,
    Category::WalletService,
    Category::MerchantService,
    Category::MiningPool,
    Category::LowRiskExchange,
    Category::MediumRiskExchange,
    Category::DeFi,
    Category::OTCBroker,
    Category::ATM,
    Category::Gambling,
    Category::IllicitOrganization,
    Category::Mixer,
    Category::DarknetService,
    Category::Scam,
    Category::Ransomware,
    Category::Theft,
    Category::Counterfeit,
    Category::TerroristFinancing,
    Category::Sanctions,
    Category::ChildAbuse,
];

#[test]
fn a_threshold_that_was_set_is_read() {
    let mut aml = AML::new(account("aml"), 10).unwrap();
    assert_eq!(aml.update_category(Category::Scam, 6), Ok(()));
    assert_eq!(aml.threshold(Category::Scam), Some(6));
    let (_, listing) = aml.get_aml();
    assert!(listing.contains(&(Category::Scam, 6)));
    assert!(listing.contains(&(Category::All, 10)));
    assert_eq!(listing.len(), 2);
}

#[test]
fn every_category_takes_every_valid_threshold() {
    for category in CATEGORIES {
        for score in 1..=10u8 {
            let mut aml = AML::new(account("aml"), 7).unwrap();
            assert_eq!(aml.update_category(category, score), Ok(()));
            assert_eq!(aml.threshold(category), Some(score));
            let (_, listing) = aml.get_aml();
            assert!(listing.contains(&(category, score)));
            assert_eq!(count_of(&listing, category), 1);
        }
    }
}

#[test]
fn a_second_write_overwrites_the_first() {
    let mut aml = AML::new(account("aml"), 10).unwrap();
    assert_eq!(aml.update_category(Category::Gambling, 3), Ok(()));
    assert_eq!(aml.update_category(Category::Gambling, 8), Ok(()));
    let (_, listing) = aml.get_aml();
    assert_eq!(listing, vec![(Category::All, 10), (Category::Gambling, 8)]);
    assert_eq!(count_of(&listing, Category::Gambling), 1);
    assert!(!listing.contains(&(Category::Gambling, 3)));
}

#[test]
fn the_default_threshold_can_be_overwritten() {
    let mut aml = AML::new(account("aml"), 10).unwrap();
    assert_eq!(aml.update_category(Category::All, 5), Ok(()));
    assert_eq!(aml.get_aml().1, vec![(Category::All, 5)]);
}

#[test]
fn a_threshold_of_zero_is_refused_and_changes_nothing() {
    let mut aml = AML::new(account("aml"), 10).unwrap();
    aml.update_category(Category::Theft, 4).unwrap();
    assert_eq!(aml.update_category(Category::Theft, 0), Err(AmlError::InvalidRiskScore));
    assert_eq!(aml.update_category(Category::Scam, 0), Err(AmlError::InvalidRiskScore));
    assert_eq!(aml.get_aml().1, vec![(Category::All, 10), (Category::Theft, 4)]);
}

#[test]
fn a_threshold_above_ten_is_refused_and_changes_nothing() {
    let mut aml = AML::new(account("aml"), 10).unwrap();
    aml.update_category(Category::Theft, 4).unwrap();
    for score in [11u8, 12, 128, 255] {
        assert_eq!(aml.update_category(Category::Theft, score), Err(AmlError::InvalidRiskScore));
        assert_eq!(aml.update_category(Category::All, score), Err(AmlError::InvalidRiskScore));
    }
    assert_eq!(aml.get_aml().1, vec![(Category::All, 10), (Category::Theft, 4)]);
}

#[test]
fn a_removed_threshold_is_gone() {
    let mut aml = AML::new(account("aml"), 10).unwrap();
    aml.update_category(Category::Scam, 6).unwrap();
    assert_eq!(aml.remove_category(Category::Scam), Ok(()));
    assert_eq!(aml.threshold(Category::Scam), None);
    assert_eq!(aml.get_aml().1, vec![(Category::All, 10)]);
}

#[test]
fn removing_a_threshold_that_is_not_there_changes_nothing() {
    let mut aml = AML::new(account("aml"), 10).unwrap();
    aml.update_category(Category::Scam, 6).unwrap();
    assert_eq!(aml.remove_category(Category::Mixer), Ok(()));
    assert_eq!(aml.get_aml().1, vec![(Category::All, 10), (Category::Scam, 6)]);
}

#[test]
fn the_default_threshold_cannot_be_removed() {
    let mut fresh = AML::new(account("aml"), 10).unwrap();
    assert_eq!(fresh.remove_category(Category::All), Err(AmlError::CannotRemoveWildcard));
    assert_eq!(fresh.get_aml().1, vec![(Category::All, 10)]);

    let mut grown = AML::new(account("aml"), 3).unwrap();
    grown.update_category(Category::Mixer, 1).unwrap();
    grown.update_category(Category::DeFi, 9).unwrap();
    grown.remove_category(Category::Mixer).unwrap();
    assert_eq!(grown.remove_category(Category::All), Err(AmlError::CannotRemoveWildcard));
    assert_eq!(grown.get_aml().1, vec![(Category::All, 3), (Category::DeFi, 9)]);
}

#[test]
fn the_default_threshold_cannot_be_removed_even_where_there_is_none() {
    let mut aml = AML::new_with_category(account("aml"), Category::Scam, 6).unwrap();
    assert_eq!(aml.remove_category(Category::All), Err(AmlError::CannotRemoveWildcard));
    assert_eq!(aml.get_aml().1, vec![(Category::Scam, 6)]);
}

#[test]
fn every_other_category_can_be_removed() {
    for category in CATEGORIES {
        if category == Category::All {
            continue;
        }
        let mut aml = AML::new(account("aml"), 5).unwrap();
        aml.update_category(category, 8).unwrap();
        assert_eq!(aml.remove_category(category), Ok(()));
        assert_eq!(aml.threshold(category), None);
        assert_eq!(aml.get_aml().1, vec![(Category::All, 5)]);
    }
}

#[test]
fn removing_from_the_middle_keeps_the_other_thresholds() {
    let mut aml = AML::new(account("aml"), 10).unwrap();
    aml.update_category(Category::Scam, 1).unwrap();
    aml.update_category(Category::Theft, 2).unwrap();
    aml.update_category(Category::Mixer, 3).unwrap();
    assert_eq!(aml.remove_category(Category::Scam), Ok(()));
    let (_, listing) = aml.get_aml();
    assert_eq!(listing.len(), 3);
    assert!(listing.contains(&(Category::All, 10)));
    assert!(listing.contains(&(Category::Theft, 2)));
    assert!(listing.contains(&(Category::Mixer, 3)));
    assert_eq!(aml.threshold(Category::Scam), None);
    assert_eq!(aml.threshold(Category::Theft), Some(2));
    assert_eq!(aml.threshold(Category::Mixer), Some(3));
    assert_eq!(aml.threshold(Category::All), Some(10));
}

#[test]
fn the_last_threshold_of_a_seeded_policy_can_be_removed() {
    let mut aml = AML::new_with_category(account("aml"), Category::Scam, 6).unwrap();
    assert_eq!(aml.remove_category(Category::Scam), Ok(()));
    assert_eq!(aml.get_aml().1, vec![]);
    assert_eq!(aml.assert_risk((Category::Scam, 1)), Err(AmlError::MissingDefaultPolicy));
}

#[test]
fn a_threshold_can_be_set_for_the_unknown_category() {
    let mut aml = AML::new(account("aml"), 10).unwrap();
    assert_eq!(aml.update_category(Category::Unknown, 1), Ok(()));
    assert_eq!(aml.threshold(Category::Unknown), Some(1));
    assert_eq!(aml.assert_risk((Category::Unknown, 9)), Ok(()));
}

#[test]
fn all_categories_can_have_a_threshold_at_once() {
    let mut aml = AML::new(account("aml"), 10).unwrap();
    for (place, category) in CATEGORIES.iter().enumerate() {
        let score = (place % 10) as u8 + 1;
        assert_eq!(aml.update_category(*category, score), Ok(()));
    }
    let (_, listing) = aml.get_aml();
    assert_eq!(listing.len(), 21);
    for (place, category) in CATEGORIES.iter().enumerate() {
        let score = (place % 10) as u8 + 1;
        assert_eq!(aml.threshold(*category), Some(score));
        assert_eq!(count_of(&listing, *category), 1);
    }
}
