//! Risk policies for gating an action on an attested risk classification.
//!
//! An authority reports, for an account, a category and a risk score. A policy
//! holds, per category, the highest score that is still accepted, and decides
//! whether a reported pair passes.

pub mod aml;
