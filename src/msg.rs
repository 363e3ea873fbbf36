//! The messages the contract takes and the answers it gives.
use crate::abc::{CommonsPhaseConfig, ReserveToken, SupplyToken};
use crate::curves::CurveType;
use crate::error::ContractError;
use vstd::prelude::*;

verus! {

#[derive(Debug)]
pub struct InstantiateMsg {
    /// The token the sale issues.
    pub supply: SupplyToken,
    /// The token buyers pay with.
    pub reserve: ReserveToken,
    /// The curve that prices the supply.
    pub curve_type: CurveType,
    /// The configuration of the sale's phases.
    pub phase_config: CommonsPhaseConfig,
}

impl InstantiateMsg {
    pub open spec fn valid(&self) -> bool {
        self.supply.subdenom@.len() > 0 && self.phase_config.valid()
    }

    /// Fails with `SupplyTokenError` on an empty subdenom, then with
    /// `HatchPhaseConfigError` on an invalid phase configuration.
    pub fn validate(&self) -> (r: Result<(), ContractError>)
        ensures
            r is Ok <==> self.valid(),
            self.supply.subdenom@.len() == 0 ==> r matches Err(ContractError::SupplyTokenError(_)),
            self.supply.subdenom@.len() > 0 && !self.phase_config.valid() ==> r matches Err(
                ContractError::HatchPhaseConfigError(_),
            ),
    {
        if self.supply.subdenom.as_str().is_empty() {
            return Err(ContractError::SupplyTokenError("Token subdenom must not be empty.".to_string()));
        }
        self.phase_config.validate()
    }
}

#[derive(Clone, Debug, PartialEq, Eq)]
pub enum ExecuteMsg {
    /// Buys as many supply tokens as the attached reserve tokens pay for.
    Buy,
    /// Burns `amount` supply tokens, attached to the message, for reserve tokens.
    Burn { amount: u128 },
}

#[derive(Clone, Copy, Debug, PartialEq, Eq)]
pub enum QueryMsg {
    /// The reserve, the supply, and the spot price at that supply.
    CurveInfo,
}

#[derive(Clone, Debug, PartialEq, Eq)]
pub struct CurveInfoResponse {
    /// The reserve tokens received.
    pub reserve: u128,
    /// The supply tokens issued.
    pub supply: u128,
    /// The price of one supply token, with 18 fractional digits.
    pub spot_price: u128,
    pub reserve_denom: String,
}

} // verus!
