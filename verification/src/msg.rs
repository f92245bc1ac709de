//! The messages a commons is created, driven and queried with, and the
//! answers to the queries.

use vstd::prelude::*;
use crate::abc::{CommonsPhase, CommonsPhaseConfig, CurveType, MinMax, ReserveToken, SupplyToken};
use crate::decimal::StdDecimal;

verus! {

#[derive(Clone, Debug, PartialEq, Eq)]
pub struct InstantiateMsg {
    /// The code id of the contract that issues the supply token.
    pub token_issuer_code_id: u64,
    /// Supply token information.
    pub supply: SupplyToken,
    /// Reserve token information.
    pub reserve: ReserveToken,
    /// Curve type for this commons.
    pub curve_type: CurveType,
    /// The configuration of each phase.
    pub phase_config: CommonsPhaseConfig,
    /// Who may contribute during the hatch; anyone where there is no list.
    pub hatcher_allowlist: Option<Vec<String>>,
}

/// Update the phase configurations. These can only be called by the owner.
#[derive(Clone, Copy, Debug, PartialEq, Eq, Structural)]
pub enum UpdatePhaseConfigMsg {
    /// Update the hatch phase configuration.
    Hatch {
        contribution_limits: Option<MinMax>,
        exit_tax: Option<StdDecimal>,
        initial_raise: Option<MinMax>,
        initial_allocation_ratio: Option<StdDecimal>,
    },
    /// Update the open phase configuration.
    Open { exit_tax: Option<StdDecimal>, allocation_percentage: Option<StdDecimal> },
    /// Update the closed phase configuration.
    Closed {  },
}

#[derive(Clone, Debug, PartialEq, Eq)]
pub enum ExecuteMsg {
    /// Buy will attempt to purchase as many supply tokens as possible with
    /// the reserve tokens sent along.
    Buy {  },
    /// Burn destroys the supply tokens sent along and releases reserve.
    Burn {  },
    /// Donate adds the reserve tokens sent along to the funding pool.
    Donate {  },
    /// Sets (or unsets if set to None) the maximum supply.
    SetMaxSupply {
        /// The maximum supply able to be minted.
        max_supply: Option<u128>,
    },
    /// Updates the curve type used for pricing tokens. Only callable by owner.
    UpdateCurve { curve_type: CurveType },
    /// Update the hatch phase allowlist. Only callable by owner.
    UpdateHatchAllowlist {
        /// Addresses to be added.
        to_add: Vec<String>,
        /// Addresses to be removed.
        to_remove: Vec<String>,
    },
    /// Update the configuration of a certain phase. Only callable by owner.
    UpdatePhaseConfig(UpdatePhaseConfigMsg),
    /// Closing the bonding curve means no more buys are enabled and exit tax
    /// is set to zero.
    Close {  },
}

#[derive(Clone, Debug, PartialEq, Eq)]
pub enum QueryMsg {
    /// Returns the reserve and supply quantities, as well as the spot price
    /// to buy one token.
    CurveInfo {  },
    /// Returns the current phase configuration.
    PhaseConfig {  },
    /// Returns a list of the donors and their donations.
    Donations { start_after: Option<String>, limit: Option<u32> },
    /// List the hatchers and their contributions.
    Hatchers { start_after: Option<String>, limit: Option<u32> },
    /// Returns the denom of the supply token.
    Denom {  },
    /// Returns the address of the contract that issues the supply token.
    TokenContract {  },
}

#[derive(Clone, Debug, PartialEq, Eq)]
pub struct CurveInfoResponse {
    /// How many reserve tokens have been received.
    pub reserve: u128,
    /// How many supply tokens have been issued.
    pub supply: u128,
    /// The amount of tokens in the funding pool.
    pub funding: u128,
    /// Current spot price of the token.
    pub spot_price: StdDecimal,
    /// Current reserve denom.
    pub reserve_denom: String,
}

#[derive(Clone, Debug, PartialEq, Eq)]
pub struct DenomResponse {
    pub denom: String,
}

#[derive(Clone, Debug, PartialEq, Eq)]
pub struct HatcherAllowlistResponse {
    /// Hatcher allowlist.
    pub allowlist: Option<Vec<String>>,
}

#[derive(Clone, Copy, Debug, PartialEq, Eq, Structural)]
pub struct CommonsPhaseConfigResponse {
    /// The phase configuration.
    pub phase_config: CommonsPhaseConfig,
    /// Current phase.
    pub phase: CommonsPhase,
}

#[derive(Clone, Debug, PartialEq, Eq)]
pub struct DonationsResponse {
    /// The donors with their donations in the reserve token.
    pub donations: Vec<(String, u128)>,
}

#[derive(Clone, Debug, PartialEq, Eq)]
pub struct HatchersResponse {
    /// The hatchers with their contributions in the reserve token.
    pub hatchers: Vec<(String, u128)>,
}

#[derive(Clone, Copy, Debug, PartialEq, Eq, Structural)]
pub struct MigrateMsg {
}

} // verus!
