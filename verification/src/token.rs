//! The definition of a fungible token as its ledger keeps it.

use vstd::prelude::*;

verus! {

/// Who may mint, and how much more.
#[derive(Clone, Debug, PartialEq, Eq)]
pub struct MinterData {
    /// The minter's address in its canonical bytes.
    pub minter: Vec<u8>,
    /// How many more tokens the minter can issue; no limit where absent.
    pub cap: Option<u128>,
}

/// A token's definition together with its total supply.
#[derive(Clone, Debug, PartialEq, Eq)]
pub struct Meta {
    pub name: String,
    pub symbol: String,
    pub decimals: u8,
    pub total_supply: u128,
    pub mint: Option<MinterData>,
}

impl Meta {
    /// The minter's cap, where there is a minter and it has one.
    pub open spec fn spec_cap(&self) -> Option<u128> {
        match self.mint {
            Some(minter) => minter.cap,
            None => None,
        }
    }

    /// The minter's cap, where there is a minter and it has one.
    pub fn get_cap(&self) -> (cap: Option<u128>)
        ensures
            cap == self.spec_cap(),
    {
        match &self.mint {
            Some(minter) => minter.cap,
            None => None,
        }
    }
}

} // verus!
