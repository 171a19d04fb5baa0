//! The policy store, the operations that keep it valid, and the risk check.

pub mod account;
pub mod aml_registrar;
pub mod aml_usage;
pub mod category;
pub mod laws;
pub mod policy;

pub use aml_registrar::{AmlManager, AML};
pub use aml_usage::{CategoryRisk, ExtAmlContract};
pub use category::Category;
pub use policy::{AmlError, Policy, RiskScore, MAX_RISK_LEVEL};
