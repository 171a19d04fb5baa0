//! The categories an account can be classified under.

use vstd::prelude::*;

verus! {

/// The classification of an account, as an authority reports it.
///
/// Two of the labels classify nothing: `All` is the key of the threshold that
/// applies where a category has none of its own, and `Unknown` is what an
/// authority reports for an account it does not know.
#[derive(Clone, Copy, Debug, PartialEq, Eq, Structural, Hash)]
pub enum Category {
    /// Stands for every category without a threshold of its own.
    All,
    /// The account is not known to the authority.
    Unknown,
    /// Wallet service: custodial or mixed wallets.
    WalletService,
    /// Merchant service.
    MerchantService,
    /// Mining pool.
    MiningPool,
    /// Exchange with high KYC standards.
    LowRiskExchange,
    /// Medium risk exchange.
    MediumRiskExchange,
    /// DeFi application.
    DeFi,
    /// OTC broker.
    OTCBroker,
    /// Cryptocurrency ATM.
    ATM,
    /// Gambling.
    Gambling,
    /// Illicit organization.
    IllicitOrganization,
    /// Mixer.
    Mixer,
    /// Darknet market or service.
    DarknetService,
    /// Scam.
    Scam,
    /// Ransomware.
    Ransomware,
    /// Theft: stolen funds.
    Theft,
    /// Counterfeit: fake assets.
    Counterfeit,
    /// Terrorist financing.
    TerroristFinancing,
    /// Sanctions.
    Sanctions,
    /// Child abuse and porn materials.
    ChildAbuse,
}

} // verus!
