//! Errors of the bonding-curve contract.
use vstd::prelude::*;

verus! {

/// Why the funds attached to a message were refused.
#[derive(Clone, Debug, PartialEq, Eq)]
pub enum PaymentError {
    /// The single coin sent is not of the expected denom, named here.
    MissingDenom(String),
    /// A coin of an unsupported denom, named here, was sent.
    ExtraDenom(String),
    /// Coins of more than one denom were sent.
    MultipleDenoms,
    /// Nothing, or a zero amount, was sent.
    NoFunds,
    /// Funds were sent to a message that takes none.
    NonPayable,
}

#[derive(Clone, Debug, PartialEq, Eq)]
pub enum ContractError {
    /// Checked arithmetic left the range of `u128`, an amount would go
    /// below zero, or the curve and the stored state disagree.
    Overflow,
    /// The attached funds are not a single nonzero payment in the expected denom.
    Payment(PaymentError),
    /// The supply token's description is invalid.
    SupplyTokenError(String),
    /// The hatch phase configuration is invalid.
    HatchPhaseConfigError(String),
    /// The curve or its decimal places are outside what the curve math supports.
    CurveConfigError(String),
    /// During the hatch phase, a buyer outside the allowlist tried to buy.
    SenderNotAllowlisted { sender: String },
    /// The sale is closed: no further supply is minted.
    PhaseClosed,
    /// The supply tokens paid in differ from the amount asked to be burned.
    BurnPaymentMismatch { amount: u128, paid: u128 },
}

} // verus!
