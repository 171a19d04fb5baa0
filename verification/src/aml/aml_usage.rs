//! Holding a reported classification against a policy.

use vstd::prelude::*;
use near_sdk::AccountId;
use super::aml_registrar::AML;
use super::category::Category;
use super::policy::{risk_verdict, AmlError, RiskScore};

verus! {

/// What an authority reports of an account: its category and its risk score.
pub type CategoryRisk = (Category, RiskScore);

/// The one question a policy's authority answers.
pub trait ExtAmlContract {
    /// The category and the risk score of the account at `address`.
    fn get_address(&self, address: AccountId) -> CategoryRisk;
}

impl AML {
    /// Decides whether a reported category and score pass the policy.
    ///
    /// An unknown account passes whatever its score. Any other category is
    /// held to its own threshold, or to the default one where it has none:
    /// a score above the threshold is refused, a score equal to it passes.
    /// Where neither threshold is there, the policy cannot decide.
    pub fn assert_risk(&self, category_risk: CategoryRisk) -> (verdict: Result<(), AmlError>)
        ensures
            verdict == risk_verdict(self@.thresholds, category_risk.0, category_risk.1),
    {
        let (category, risk) = category_risk;
        if category == Category::Unknown {
            return Ok(());
        }
        let accepted_risk = match self.threshold(category) {
            Some(accepted) => accepted,
            None => match self.threshold(Category::All) {
                Some(accepted) => accepted,
                None => {
                    return Err(AmlError::MissingDefaultPolicy);
                },
            },
        };
        if risk > accepted_risk {
            Err(AmlError::RiskTooHigh)
        } else {
            Ok(())
        }
    }

    /// A copy of the authority's identifier.
    pub fn get_account(&self) -> (id: AccountId)
        ensures
            id == self@.account_id,
    {
        self.account_id().clone()
    }
}

} // verus!
