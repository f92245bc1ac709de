//! The errors of the commons, and how contracts speak of them.

use vstd::prelude::*;

verus! {

/// Which bound an operation ran into.
#[derive(Clone, Copy, Debug, PartialEq, Eq, Structural)]
pub enum Limit {
    /// The per-hatcher contribution range.
    Contribution,
    /// The aggregate initial raise range.
    InitialRaise,
    /// The cap on the total supply.
    MaxSupply,
}

/// Everything an operation of the commons can fail with. A failed operation
/// leaves the state it was issued against untouched.
#[derive(Clone, Debug, PartialEq, Eq)]
pub enum ContractError {
    /// The hatch phase configuration breaks one of its rules; the text names it.
    HatchPhaseConfigError(String),
    /// The open phase configuration breaks one of its rules; the text names it.
    OpenPhaseConfigError(String),
    /// The operation needs another phase than the current one.
    InvalidPhase { expected: String, actual: String },
    /// A contribution, raise or supply bound would be violated.
    LimitExceeded(Limit),
    /// A hatch buy by an address that is not on the allowlist.
    AllowlistDenied { sender: String },
    /// A burn would release more reserve than is held.
    InsufficientReserve,
    /// A burn of more supply than was issued.
    InsufficientSupply,
    /// An owner-only action by somebody else.
    Unauthorized,
    /// A number in the curve or ledger arithmetic does not fit its integer.
    ArithmeticOverflow,
}

/// An error as contracts speak of it: `ContractError` with each text taken
/// by its characters.
pub enum Failure {
    HatchPhaseConfigError(Seq<char>),
    OpenPhaseConfigError(Seq<char>),
    InvalidPhase { expected: Seq<char>, actual: Seq<char> },
    LimitExceeded(Limit),
    AllowlistDenied { sender: Seq<char> },
    InsufficientReserve,
    InsufficientSupply,
    Unauthorized,
    ArithmeticOverflow,
}

impl View for ContractError {
    type V = Failure;

    open spec fn view(&self) -> Failure {
        match self {
            ContractError::HatchPhaseConfigError(text) => Failure::HatchPhaseConfigError(text@),
            ContractError::OpenPhaseConfigError(text) => Failure::OpenPhaseConfigError(text@),
            ContractError::InvalidPhase { expected, actual } => Failure::InvalidPhase {
                expected: expected@,
                actual: actual@,
            },
            ContractError::LimitExceeded(limit) => Failure::LimitExceeded(*limit),
            ContractError::AllowlistDenied { sender } => Failure::AllowlistDenied { sender: sender@ },
            ContractError::InsufficientReserve => Failure::InsufficientReserve,
            ContractError::InsufficientSupply => Failure::InsufficientSupply,
            ContractError::Unauthorized => Failure::Unauthorized,
            ContractError::ArithmeticOverflow => Failure::ArithmeticOverflow,
        }
    }
}

/// A result as contracts speak of it: the error taken by its view.
pub open spec fn outcome<T>(r: Result<T, ContractError>) -> Result<T, Failure> {
    match r {
        Ok(v) => Ok(v),
        Err(e) => Err(e@),
    }
}

} // verus!
