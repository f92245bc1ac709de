//! The commons itself: its ledger, the phase it is in, and the operations
//! that act on it. Every operation checks all it has to check before it
//! changes anything, so a failed operation leaves the commons as it was.

use vstd::prelude::*;
use vstd::string::*;
use crate::abc::{CommonsPhase, CommonsPhaseConfig, CurveType, HatchConfig, OpenConfig};
use crate::accounts::{
    compare_addresses, is_page_start, page_at, pairs, start_key, Accounts, Order,
};
use crate::curves::{agrees, Curve, DecimalPlaces};
use crate::decimal::{lemma_mul_floor_bounded, spec_mul_floor, StdDecimal};
use crate::error::{outcome, ContractError, Failure, Limit};
use crate::msg::{
    CommonsPhaseConfigResponse, CurveInfoResponse, DenomResponse, DonationsResponse, ExecuteMsg,
    HatcherAllowlistResponse, HatchersResponse, InstantiateMsg, QueryMsg, UpdatePhaseConfigMsg,
};

verus! {

/// The totals of the ledger.
#[derive(Clone, Copy, Debug, PartialEq, Eq, Structural)]
pub struct CurveState {
    /// Reserve held against the supply.
    pub reserve: u128,
    /// Supply issued.
    pub supply: u128,
    /// Balance of the funding pool.
    pub funding: u128,
    /// The decimal places of the two tokens.
    pub decimals: DecimalPlaces,
}

/// A commons: configuration, phase and ledger.
#[derive(Clone, Debug, PartialEq, Eq)]
pub struct Commons {
    /// Who may issue the administrative actions.
    pub owner: String,
    pub phase: CommonsPhase,
    pub phase_config: CommonsPhaseConfig,
    pub curve_type: CurveType,
    pub curve_state: CurveState,
    /// The most supply that may ever be issued, where there is a cap.
    pub max_supply: Option<u128>,
    /// Who may contribute during the hatch; anyone where there is no list.
    pub hatcher_allowlist: Option<Vec<String>>,
    /// What each hatcher contributed, in the reserve token.
    pub hatchers: Accounts,
    /// What each donor donated, in the reserve token.
    pub donations: Accounts,
    pub supply_denom: String,
    pub reserve_denom: String,
    /// The address of the contract that issues the supply token.
    pub token_contract: String,
}

/// What a buy did: the supply it minted, and how the payment was split
/// between the reserve and the funding pool.
#[derive(Clone, Copy, Debug, PartialEq, Eq, Structural)]
pub struct BuyOutcome {
    pub minted: u128,
    pub reserved: u128,
    pub funded: u128,
}

/// Whether the address is among those listed.
pub open spec fn listed(list: Seq<String>, addr: Seq<char>) -> bool {
    exists|i: int| 0 <= i < list.len() && (#[trigger] list[i])@ == addr
}

/// Whether the address is among those listed.
pub fn is_listed(list: &Vec<String>, addr: &str) -> (b: bool)
    ensures
        b == listed(list@, addr@),
{
    let mut i: usize = 0;
    while i < list.len()
        invariant
            i <= list.len(),
            forall|j: int| 0 <= j < i ==> (#[trigger] list@[j])@ != addr@,
        decreases list.len() - i,
    {
        match compare_addresses(list[i].as_str(), addr) {
            Order::Same => {
                return true;
            },
            Order::Before => {
                proof {
                    crate::accounts::lemma_addr_lt_distinct(list@[i as int]@, addr@);
                }
            },
            Order::After => {
                proof {
                    crate::accounts::lemma_addr_lt_distinct(addr@, list@[i as int]@);
                }
            },
        }
        i = i + 1;
    }
    false
}

/// The part of a payment that goes to the funding pool.
pub open spec fn funded_part(payment: nat, ratio: StdDecimal) -> nat {
    spec_mul_floor(payment, ratio.atomics as nat)
}

/// The part of a payment that goes to the reserve.
pub open spec fn reserved_part(payment: nat, ratio: StdDecimal) -> nat {
    (payment - funded_part(payment, ratio)) as nat
}

/// Splits a payment between the reserve and the funding pool: the pool
/// gets `ratio` of it, rounded down, the reserve the rest.
pub fn calculate_reserved_and_funded(payment: u128, ratio: StdDecimal) -> (r: (u128, u128))
    requires
        ratio.is_ratio(),
    ensures
        r.0 == reserved_part(payment as nat, ratio),
        r.1 == funded_part(payment as nat, ratio),
        r.0 + r.1 == payment,
{
    proof {
        lemma_mul_floor_bounded(payment as nat, ratio.atomics as nat);
    }
    let funded = ratio.mul_floor(payment).unwrap();
    (payment - funded, funded)
}

impl Commons {
    /// The configuration is valid and the records are in order.
    pub open spec fn wf(&self) -> bool {
        &&& self.phase_config.is_valid()
        &&& self.curve_type.is_valid()
        &&& self.curve_state.decimals.wf()
        &&& self.hatchers.wf()
        &&& self.donations.wf()
    }

    /// The curve in force.
    pub open spec fn curve(&self) -> Curve {
        self.curve_type.spec_curve(self.curve_state.decimals)
    }

    /// Whether the address may contribute during the hatch.
    pub open spec fn allows(&self, addr: Seq<char>) -> bool {
        match self.hatcher_allowlist {
            None => true,
            Some(list) => listed(list@, addr),
        }
    }

    /// Whether two commons differ in nothing but the ledger totals and the
    /// hatchers' contributions.
    pub open spec fn same_but_ledger(&self, other: &Commons) -> bool {
        &&& self.owner == other.owner
        &&& self.phase == other.phase
        &&& self.phase_config == other.phase_config
        &&& self.curve_type == other.curve_type
        &&& self.curve_state.decimals == other.curve_state.decimals
        &&& self.max_supply == other.max_supply
        &&& self.hatcher_allowlist == other.hatcher_allowlist
        &&& self.donations == other.donations
        &&& self.supply_denom == other.supply_denom
        &&& self.reserve_denom == other.reserve_denom
        &&& self.token_contract == other.token_contract
    }

    /// What stands in the way of a hatch contribution, if anything: the
    /// allowlist, the contributor's limits, or the cap on the raise.
    pub open spec fn hatch_check(&self, buyer: Seq<char>, payment: nat) -> Result<(), Failure> {
        let config = self.phase_config.hatch;
        let contributed = self.hatchers.amount_of(buyer) + payment;
        if !self.allows(buyer) {
            Err(Failure::AllowlistDenied { sender: buyer })
        } else if contributed < config.contribution_limits.min || contributed
            > config.contribution_limits.max {
            Err(Failure::LimitExceeded(Limit::Contribution))
        } else if self.hatchers.total() + payment > config.initial_raise.max {
            Err(Failure::LimitExceeded(Limit::InitialRaise))
        } else {
            Ok(())
        }
    }

    /// The supply that reserve mints on the curve at the current supply:
    /// the supply that the curve gives for the reserve backing the current
    /// supply and the new reserve together, less the current supply. `None`
    /// where a step does not fit, or the curve gives less than there is.
    pub open spec fn open_mint(&self, reserved: nat) -> Option<nat> {
        let supply = self.curve_state.supply as nat;
        match self.curve().spec_reserve(supply) {
            None => None,
            Some(base) => if base + reserved > u128::MAX {
                None
            } else {
                match self.curve().spec_supply(base + reserved) {
                    None => None,
                    Some(target) => if target < supply {
                        None
                    } else {
                        Some((target - supply) as nat)
                    },
                }
            },
        }
    }

    /// The totals after a buy, where they fit and respect the supply cap.
    pub open spec fn settle(&self, minted: nat, reserved: nat, funded: nat) -> Result<
        CurveState,
        Failure,
    > {
        let state = self.curve_state;
        if state.supply + minted > u128::MAX {
            Err(Failure::ArithmeticOverflow)
        } else if self.max_supply is Some && state.supply + minted > self.max_supply.unwrap() {
            Err(Failure::LimitExceeded(Limit::MaxSupply))
        } else if state.reserve + reserved > u128::MAX || state.funding + funded > u128::MAX {
            Err(Failure::ArithmeticOverflow)
        } else {
            Ok(
                CurveState {
                    reserve: (state.reserve + reserved) as u128,
                    supply: (state.supply + minted) as u128,
                    funding: (state.funding + funded) as u128,
                    decimals: state.decimals,
                },
            )
        }
    }

    /// The ratio of a payment that goes to the funding pool in this phase.
    pub open spec fn allocation(&self) -> StdDecimal {
        match self.phase {
            CommonsPhase::Hatch => self.phase_config.hatch.initial_allocation_ratio,
            _ => self.phase_config.open.allocation_percentage,
        }
    }

    /// What a payment mints in this phase: at the flat price during the
    /// hatch, on the curve afterwards.
    pub open spec fn mint(&self, reserved: nat) -> Option<nat> {
        match self.phase {
            CommonsPhase::Hatch => Some(reserved / (self.phase_config.hatch.initial_price as nat)),
            _ => self.open_mint(reserved),
        }
    }

    /// What a buy answers: the outcome, or why there is none.
    pub open spec fn spec_buy(&self, buyer: Seq<char>, payment: u128) -> Result<BuyOutcome, Failure> {
        let reserved = reserved_part(payment as nat, self.allocation());
        let funded = funded_part(payment as nat, self.allocation());
        if self.phase == CommonsPhase::Closed {
            Err(self.phase.wrong_phase(CommonsPhase::Open))
        } else if self.phase == CommonsPhase::Hatch && self.hatch_check(buyer, payment as nat) is Err {
            Err(self.hatch_check(buyer, payment as nat)->Err_0)
        } else {
            match self.mint(reserved) {
                None => Err(Failure::ArithmeticOverflow),
                Some(minted) => match self.settle(minted, reserved, funded) {
                    Err(failure) => Err(failure),
                    Ok(_) => Ok(
                        BuyOutcome {
                            minted: minted as u128,
                            reserved: reserved as u128,
                            funded: funded as u128,
                        },
                    ),
                },
            }
        }
    }

    /// Whether `after` is this commons once a buy with the given outcome is
    /// booked: the totals grow by the outcome, a hatcher's contribution by
    /// the payment, and nothing else changes.
    pub open spec fn bought(
        &self,
        after: &Commons,
        buyer: Seq<char>,
        payment: u128,
        o: BuyOutcome,
    ) -> bool {
        &&& self.same_but_ledger(after)
        &&& after.curve_state.supply == self.curve_state.supply + o.minted
        &&& after.curve_state.reserve == self.curve_state.reserve + o.reserved
        &&& after.curve_state.funding == self.curve_state.funding + o.funded
        &&& if self.phase == CommonsPhase::Hatch {
            &&& after.hatchers@ == self.hatchers@.insert(
                buyer,
                (self.hatchers.amount_of(buyer) + payment) as nat,
            )
            &&& after.hatchers.total() == self.hatchers.total() + payment
        } else {
            after.hatchers == self.hatchers
        }
    }

    /// Whether the configuration is valid and the records are in order.
    pub fn is_wf(&self) -> (b: bool)
        ensures
            b == self.wf(),
    {
        self.phase_config.validate().is_ok() && self.curve_type.to_curve_fn().is_ok()
            && self.curve_state.decimals.is_valid() && self.hatchers.is_wf()
            && self.donations.is_wf()
    }

    /// Whether the address may contribute during the hatch.
    pub fn is_allowed(&self, addr: &str) -> (b: bool)
        ensures
            b == self.allows(addr@),
    {
        match &self.hatcher_allowlist {
            None => true,
            Some(list) => is_listed(list, addr),
        }
    }

    /// The curve in force.
    pub fn bound_curve(&self) -> (curve: Curve)
        requires
            self.wf(),
        ensures
            curve == self.curve(),
    {
        self.curve_type.to_curve_fn().unwrap().call(self.curve_state.decimals)
    }
}

impl Commons {
    /// Checks a hatch contribution against the allowlist, the contributor's
    /// limits and the cap on the raise.
    fn check_hatch_contribution(&self, buyer: &str, payment: u128) -> (r: Result<(), ContractError>)
        requires
            self.wf(),
        ensures
            outcome(r) == self.hatch_check(buyer@, payment as nat),
    {
        let config = &self.phase_config.hatch;
        if !self.is_allowed(buyer) {
            return Err(ContractError::AllowlistDenied { sender: String::from_str(buyer) });
        }
        let within = match self.hatchers.get(buyer).checked_add(payment) {
            Some(contributed) => config.contribution_limits.min <= contributed && contributed
                <= config.contribution_limits.max,
            None => false,
        };
        if !within {
            return Err(ContractError::LimitExceeded(Limit::Contribution));
        }
        let fits = match self.hatchers.total_amount().checked_add(payment) {
            Some(raised) => raised <= config.initial_raise.max,
            None => false,
        };
        if !fits {
            return Err(ContractError::LimitExceeded(Limit::InitialRaise));
        }
        Ok(())
    }

    /// The supply that reserve mints on the curve at the current supply.
    fn mint_on_curve(&self, reserved: u128) -> (r: Result<u128, ContractError>)
        requires
            self.wf(),
        ensures
            agrees(r, self.open_mint(reserved as nat)),
    {
        let curve = self.bound_curve();
        let supply = self.curve_state.supply;
        let base = match curve.reserve(supply) {
            Ok(base) => base,
            Err(e) => { return Err(e); },
        };
        let backing = match base.checked_add(reserved) {
            Some(backing) => backing,
            None => { return Err(ContractError::ArithmeticOverflow); },
        };
        let target = match curve.supply(backing) {
            Ok(target) => target,
            Err(e) => { return Err(e); },
        };
        if target < supply {
            return Err(ContractError::ArithmeticOverflow);
        }
        Ok(target - supply)
    }

    /// The totals after a buy, where they fit and respect the supply cap.
    fn settled(&self, minted: u128, reserved: u128, funded: u128) -> (r: Result<
        CurveState,
        ContractError,
    >)
        ensures
            outcome(r) == self.settle(minted as nat, reserved as nat, funded as nat),
    {
        let state = &self.curve_state;
        let supply = match state.supply.checked_add(minted) {
            Some(supply) => supply,
            None => { return Err(ContractError::ArithmeticOverflow); },
        };
        if let Some(max) = self.max_supply {
            if supply > max {
                return Err(ContractError::LimitExceeded(Limit::MaxSupply));
            }
        }
        let reserve = match state.reserve.checked_add(reserved) {
            Some(reserve) => reserve,
            None => { return Err(ContractError::ArithmeticOverflow); },
        };
        let funding = match state.funding.checked_add(funded) {
            Some(funding) => funding,
            None => { return Err(ContractError::ArithmeticOverflow); },
        };
        Ok(CurveState { reserve, supply, funding, decimals: state.decimals })
    }

    /// Buys supply with a payment of reserve. During the hatch the buyer
    /// has to be allowed, the contribution has to stay within the limits,
    /// and the supply is minted at the flat initial price; once open, it is
    /// minted on the curve. Part of the payment goes to the funding pool.
    /// A closed commons sells nothing.
    pub fn buy(&mut self, buyer: &str, payment: u128) -> (r: Result<BuyOutcome, ContractError>)
        requires
            old(self).wf(),
        ensures
            outcome(r) == old(self).spec_buy(buyer@, payment),
            final(self).wf(),
            match r {
                Ok(o) => old(self).bought(final(self), buyer@, payment, o),
                Err(_) => *final(self) == *old(self),
            },
    {
        let (reserved, funded, minted) = match self.phase {
            CommonsPhase::Closed => {
                return Err(self.phase.invalid_phase(CommonsPhase::Open));
            },
            CommonsPhase::Hatch => {
                match self.check_hatch_contribution(buyer, payment) {
                    Ok(()) => {},
                    Err(e) => { return Err(e); },
                }
                let (reserved, funded) = calculate_reserved_and_funded(
                    payment,
                    self.phase_config.hatch.initial_allocation_ratio,
                );
                (reserved, funded, reserved / self.phase_config.hatch.initial_price)
            },
            CommonsPhase::Open => {
                let (reserved, funded) = calculate_reserved_and_funded(
                    payment,
                    self.phase_config.open.allocation_percentage,
                );
                match self.mint_on_curve(reserved) {
                    Ok(minted) => (reserved, funded, minted),
                    Err(e) => { return Err(e); },
                }
            },
        };
        let state = match self.settled(minted, reserved, funded) {
            Ok(state) => state,
            Err(e) => { return Err(e); },
        };
        if let CommonsPhase::Hatch = self.phase {
            match self.hatchers.add(buyer, payment) {
                Ok(_) => {},
                Err(e) => { return Err(e); },
            }
        }
        self.curve_state = state;
        Ok(BuyOutcome { minted, reserved, funded })
    }
}

/// What a burn did: the supply it destroyed, the reserve it released, the
/// part of that which the funding pool kept, and what is left for the
/// seller.
#[derive(Clone, Copy, Debug, PartialEq, Eq, Structural)]
pub struct BurnOutcome {
    pub burned: u128,
    pub released: u128,
    pub taxed: u128,
    pub payout: u128,
}

impl Commons {
    /// The share of a burn's proceeds that the funding pool keeps in this
    /// phase. A closed commons keeps nothing, whatever was configured.
    pub open spec fn exit_tax(&self) -> StdDecimal {
        match self.phase {
            CommonsPhase::Hatch => self.phase_config.hatch.exit_tax,
            CommonsPhase::Open => self.phase_config.open.exit_tax,
            CommonsPhase::Closed => StdDecimal { atomics: 0 },
        }
    }

    /// The reserve that burning an amount of supply releases. During the
    /// hatch it is the amount at the flat initial price. Afterwards it is
    /// what the reserve holds above what the curve asks for the supply that
    /// is left, so that a burn leaves the reserve on the curve. There is
    /// none where a step does not fit, nor where more would be released
    /// than is held: where the curve asks for more than the reserve holds.
    pub open spec fn release(&self, amount: nat) -> Result<nat, Failure> {
        let supply = self.curve_state.supply as nat;
        let reserve = self.curve_state.reserve as nat;
        match self.phase {
            CommonsPhase::Hatch => {
                let released = amount * (self.phase_config.hatch.initial_price as nat);
                if released > u128::MAX {
                    Err(Failure::ArithmeticOverflow)
                } else if released > reserve {
                    Err(Failure::InsufficientReserve)
                } else {
                    Ok(released)
                }
            },
            _ => match self.curve().spec_reserve((supply - amount) as nat) {
                None => Err(Failure::ArithmeticOverflow),
                Some(left) => if left > reserve {
                    Err(Failure::InsufficientReserve)
                } else {
                    Ok((reserve - left) as nat)
                },
            },
        }
    }

    /// What a burn answers: the outcome, or why there is none.
    pub open spec fn spec_burn(&self, amount: u128) -> Result<BurnOutcome, Failure> {
        if amount > self.curve_state.supply {
            Err(Failure::InsufficientSupply)
        } else {
            match self.release(amount as nat) {
                Err(failure) => Err(failure),
                Ok(released) => {
                    let taxed = spec_mul_floor(released, self.exit_tax().atomics as nat);
                    if self.curve_state.funding + taxed > u128::MAX {
                        Err(Failure::ArithmeticOverflow)
                    } else {
                        Ok(
                            BurnOutcome {
                                burned: amount,
                                released: released as u128,
                                taxed: taxed as u128,
                                payout: (released - taxed) as u128,
                            },
                        )
                    }
                },
            }
        }
    }

    /// Whether `after` is this commons once a burn with the given outcome
    /// is booked: supply and reserve shrink, the funding pool grows by the
    /// tax, and nothing else changes.
    pub open spec fn burned(&self, after: &Commons, o: BurnOutcome) -> bool {
        &&& self.same_but_ledger(after)
        &&& after.hatchers == self.hatchers
        &&& after.curve_state.supply == self.curve_state.supply - o.burned
        &&& after.curve_state.reserve == self.curve_state.reserve - o.released
        &&& after.curve_state.funding == self.curve_state.funding + o.taxed
        &&& o.payout + o.taxed == o.released
    }

    /// The share of a burn's proceeds that the funding pool keeps in this
    /// phase.
    pub fn current_exit_tax(&self) -> (tax: StdDecimal)
        ensures
            tax == self.exit_tax(),
    {
        match self.phase {
            CommonsPhase::Hatch => self.phase_config.hatch.exit_tax,
            CommonsPhase::Open => self.phase_config.open.exit_tax,
            CommonsPhase::Closed => StdDecimal::zero(),
        }
    }

    /// The reserve that burning an amount of supply releases.
    fn released_by(&self, amount: u128) -> (r: Result<u128, ContractError>)
        requires
            self.wf(),
            amount <= self.curve_state.supply,
        ensures
            match r {
                Ok(released) => self.release(amount as nat) == Ok::<nat, Failure>(released as nat),
                Err(e) => self.release(amount as nat) == Err::<nat, Failure>(e@),
            },
    {
        let reserve = self.curve_state.reserve;
        match self.phase {
            CommonsPhase::Hatch => match amount.checked_mul(self.phase_config.hatch.initial_price) {
                None => Err(ContractError::ArithmeticOverflow),
                Some(released) => if released > reserve {
                    Err(ContractError::InsufficientReserve)
                } else {
                    Ok(released)
                },
            },
            _ => match self.bound_curve().reserve(self.curve_state.supply - amount) {
                Err(e) => Err(e),
                Ok(left) => if left > reserve {
                    Err(ContractError::InsufficientReserve)
                } else {
                    Ok(reserve - left)
                },
            },
        }
    }

    /// Burns supply and releases reserve for it. During the hatch the
    /// supply goes at the flat initial price. Afterwards the reserve is
    /// brought down to what the curve asks for the supply that is left,
    /// and all above that is released. The funding pool keeps the exit tax
    /// of the phase, the rest is the seller's. A closed commons takes no
    /// tax.
    pub fn burn(&mut self, amount: u128) -> (r: Result<BurnOutcome, ContractError>)
        requires
            old(self).wf(),
        ensures
            outcome(r) == old(self).spec_burn(amount),
            final(self).wf(),
            match r {
                Ok(o) => old(self).burned(final(self), o),
                Err(_) => *final(self) == *old(self),
            },
    {
        if amount > self.curve_state.supply {
            return Err(ContractError::InsufficientSupply);
        }
        let released = match self.released_by(amount) {
            Ok(released) => released,
            Err(e) => { return Err(e); },
        };
        let tax = self.current_exit_tax();
        proof {
            if self.phase == CommonsPhase::Closed {
                crate::decimal::lemma_mul_floor_zero(released as nat);
            }
            lemma_mul_floor_bounded(released as nat, tax.atomics as nat);
        }
        let taxed = tax.mul_floor(released).unwrap();
        let funding = match self.curve_state.funding.checked_add(taxed) {
            Some(funding) => funding,
            None => { return Err(ContractError::ArithmeticOverflow); },
        };
        self.curve_state = CurveState {
            reserve: self.curve_state.reserve - released,
            supply: self.curve_state.supply - amount,
            funding,
            decimals: self.curve_state.decimals,
        };
        Ok(BurnOutcome { burned: amount, released, taxed, payout: released - taxed })
    }

    /// What a donation answers: nothing, or why it was not taken.
    pub open spec fn spec_donate(&self, amount: u128) -> Result<(), Failure> {
        if self.curve_state.funding + amount > u128::MAX || self.donations.total() + amount
            > u128::MAX {
            Err(Failure::ArithmeticOverflow)
        } else {
            Ok(())
        }
    }

    /// Whether `after` is this commons once a donation is booked: the
    /// funding pool and the donor's record grow by the amount, and nothing
    /// else changes.
    pub open spec fn donated(&self, after: &Commons, donor: Seq<char>, amount: u128) -> bool {
        &&& self.owner == after.owner
        &&& self.phase == after.phase
        &&& self.phase_config == after.phase_config
        &&& self.curve_type == after.curve_type
        &&& self.max_supply == after.max_supply
        &&& self.hatcher_allowlist == after.hatcher_allowlist
        &&& self.hatchers == after.hatchers
        &&& self.supply_denom == after.supply_denom
        &&& self.reserve_denom == after.reserve_denom
        &&& self.token_contract == after.token_contract
        &&& after.curve_state == CurveState {
            funding: (self.curve_state.funding + amount) as u128,
            ..self.curve_state
        }
        &&& after.donations@ == self.donations@.insert(
            donor,
            (self.donations.amount_of(donor) + amount) as nat,
        )
        &&& after.donations.total() == self.donations.total() + amount
    }

    /// Donates reserve to the funding pool, in any phase. No supply is
    /// minted for it; the donation is recorded under the donor.
    pub fn donate(&mut self, donor: &str, amount: u128) -> (r: Result<(), ContractError>)
        requires
            old(self).wf(),
        ensures
            outcome(r) == old(self).spec_donate(amount),
            final(self).wf(),
            match r {
                Ok(_) => old(self).donated(final(self), donor@, amount),
                Err(_) => *final(self) == *old(self),
            },
    {
        let funding = match self.curve_state.funding.checked_add(amount) {
            Some(funding) => funding,
            None => { return Err(ContractError::ArithmeticOverflow); },
        };
        match self.donations.add(donor, amount) {
            Ok(_) => {},
            Err(e) => { return Err(e); },
        }
        self.curve_state.funding = funding;
        Ok(())
    }
}

/// One more listed address lists that address too, and no other.
pub proof fn lemma_listed_push(list: Seq<String>, added: String, addr: Seq<char>)
    ensures
        listed(list.push(added), addr) <==> (listed(list, addr) || added@ == addr),
{
    let longer = list.push(added);
    if listed(longer, addr) {
        let i = choose|i: int| 0 <= i < longer.len() && (#[trigger] longer[i])@ == addr;
        if i < list.len() {
            assert(list[i]@ == addr);
        }
    }
    if listed(list, addr) {
        let i = choose|i: int| 0 <= i < list.len() && (#[trigger] list[i])@ == addr;
        assert(longer[i]@ == addr);
    }
    if added@ == addr {
        assert(longer[list.len() as int]@ == addr);
    }
}

/// Whether an address is on the allowlist after an update: it was on it or
/// is added, and it is not removed.
pub open spec fn listed_after(
    current: Option<Vec<String>>,
    to_add: Seq<String>,
    to_remove: Seq<String>,
    addr: Seq<char>,
) -> bool {
    ((current is Some && listed(current.unwrap()@, addr)) || listed(to_add, addr)) && !listed(
        to_remove,
        addr,
    )
}

/// Appends to `out` the addresses of `from` that are neither removed nor in
/// `out` already.
fn append_kept(out: &mut Vec<String>, from: &Vec<String>, to_remove: &Vec<String>)
    ensures
        forall|addr: Seq<char>|
            #[trigger] listed(final(out)@, addr) <==> (listed(old(out)@, addr) || (listed(
                from@,
                addr,
            ) && !listed(to_remove@, addr))),
{
    let mut i: usize = 0;
    assert(from@.take(0) =~= Seq::<String>::empty());
    while i < from.len()
        invariant
            i <= from.len(),
            forall|addr: Seq<char>|
                #[trigger] listed(out@, addr) <==> (listed(old(out)@, addr) || (listed(
                    from@.take(i as int),
                    addr,
                ) && !listed(to_remove@, addr))),
        decreases from.len() - i,
    {
        let ghost before = out@;
        let ghost next = from@[i as int];
        let keep = !is_listed(to_remove, from[i].as_str()) && !is_listed(out, from[i].as_str());
        if keep {
            out.push(from[i].clone());
        }
        proof {
            assert(from@.take(i + 1) =~= from@.take(i as int).push(next));
            assert forall|addr: Seq<char>| #[trigger]
                listed(out@, addr) <==> (listed(old(out)@, addr) || (listed(
                    from@.take(i + 1),
                    addr,
                ) && !listed(to_remove@, addr))) by {
                lemma_listed_push(before, next, addr);
                lemma_listed_push(from@.take(i as int), next, addr);
                assert(listed(before, addr) <==> (listed(old(out)@, addr) || (listed(
                    from@.take(i as int),
                    addr,
                ) && !listed(to_remove@, addr))));
            }
        }
        i = i + 1;
    }
    assert(from@.take(from.len() as int) =~= from@);
}

impl Commons {
    /// Whether the sender is the owner.
    pub fn is_owner(&self, sender: &str) -> (b: bool)
        ensures
            b == (sender@ == self.owner@),
    {
        match compare_addresses(sender, self.owner.as_str()) {
            Order::Same => true,
            Order::Before => {
                proof {
                    crate::accounts::lemma_addr_lt_distinct(sender@, self.owner@);
                }
                false
            },
            Order::After => {
                proof {
                    crate::accounts::lemma_addr_lt_distinct(self.owner@, sender@);
                }
                false
            },
        }
    }

    /// What an administrative action answers to the sender before anything
    /// else is looked at.
    pub open spec fn gate(&self, sender: Seq<char>) -> Result<(), Failure> {
        if sender == self.owner@ {
            Ok(())
        } else {
            Err(Failure::Unauthorized)
        }
    }

    /// Lets the owner pass and nobody else.
    pub fn assert_owner(&self, sender: &str) -> (r: Result<(), ContractError>)
        ensures
            outcome(r) == self.gate(sender@),
    {
        if self.is_owner(sender) {
            Ok(())
        } else {
            Err(ContractError::Unauthorized)
        }
    }

    /// What setting the supply cap answers.
    pub open spec fn spec_set_max_supply(&self, sender: Seq<char>) -> Result<(), Failure> {
        self.gate(sender)
    }

    /// Sets the cap on the supply, or lifts it. Owner only. What has been
    /// issued stays issued, also where it is above the new cap.
    pub fn set_max_supply(&mut self, sender: &str, max_supply: Option<u128>) -> (r: Result<
        (),
        ContractError,
    >)
        requires
            old(self).wf(),
        ensures
            outcome(r) == old(self).spec_set_max_supply(sender@),
            final(self).wf(),
            match r {
                Ok(_) => *final(self) == (Commons { max_supply, ..*old(self) }),
                Err(_) => *final(self) == *old(self),
            },
    {
        match self.assert_owner(sender) {
            Ok(()) => {},
            Err(e) => { return Err(e); },
        }
        self.max_supply = max_supply;
        Ok(())
    }

    /// What replacing the curve answers.
    pub open spec fn spec_update_curve(&self, sender: Seq<char>, curve_type: CurveType) -> Result<
        (),
        Failure,
    > {
        if self.gate(sender) is Err {
            self.gate(sender)
        } else if !curve_type.is_valid() {
            Err(Failure::ArithmeticOverflow)
        } else {
            Ok(())
        }
    }

    /// Replaces the curve. Owner only. The new curve has to be one that can
    /// be selected; the ledger totals stay as they are.
    pub fn update_curve(&mut self, sender: &str, curve_type: CurveType) -> (r: Result<
        (),
        ContractError,
    >)
        requires
            old(self).wf(),
        ensures
            outcome(r) == old(self).spec_update_curve(sender@, curve_type),
            final(self).wf(),
            match r {
                Ok(_) => *final(self) == (Commons { curve_type, ..*old(self) }),
                Err(_) => *final(self) == *old(self),
            },
    {
        match self.assert_owner(sender) {
            Ok(()) => {},
            Err(e) => { return Err(e); },
        }
        match curve_type.to_curve_fn() {
            Ok(_) => {},
            Err(e) => { return Err(e); },
        }
        self.curve_type = curve_type;
        Ok(())
    }

    /// What an update of the allowlist answers.
    pub open spec fn spec_update_hatch_allowlist(&self, sender: Seq<char>) -> Result<(), Failure> {
        if self.gate(sender) is Err {
            self.gate(sender)
        } else {
            self.phase.spec_expect(CommonsPhase::Hatch)
        }
    }

    /// Adds addresses to the hatch allowlist and removes others. Owner
    /// only, and only during the hatch. An address that is both added and
    /// removed is off the list. From then on there is a list, if only an
    /// empty one.
    pub fn update_hatch_allowlist(
        &mut self,
        sender: &str,
        to_add: Vec<String>,
        to_remove: Vec<String>,
    ) -> (r: Result<(), ContractError>)
        requires
            old(self).wf(),
        ensures
            outcome(r) == old(self).spec_update_hatch_allowlist(sender@),
            final(self).wf(),
            match r {
                Ok(_) => {
                    &&& *final(self) == (Commons {
                        hatcher_allowlist: final(self).hatcher_allowlist,
                        ..*old(self)
                    })
                    &&& final(self).hatcher_allowlist is Some
                    &&& forall|addr: Seq<char>|
                        #[trigger] listed(final(self).hatcher_allowlist.unwrap()@, addr)
                            <==> listed_after(
                            old(self).hatcher_allowlist,
                            to_add@,
                            to_remove@,
                            addr,
                        )
                },
                Err(_) => *final(self) == *old(self),
            },
    {
        match self.assert_owner(sender) {
            Ok(()) => {},
            Err(e) => { return Err(e); },
        }
        match self.phase.expect_hatch() {
            Ok(()) => {},
            Err(e) => { return Err(e); },
        }
        let mut list: Vec<String> = Vec::new();
        if let Some(current) = &self.hatcher_allowlist {
            append_kept(&mut list, current, &to_remove);
        }
        append_kept(&mut list, &to_add, &to_remove);
        self.hatcher_allowlist = Some(list);
        Ok(())
    }
}

/// `replacement` where there is one, else `current`.
pub open spec fn replaced<T>(current: T, replacement: Option<T>) -> T {
    match replacement {
        Some(value) => value,
        None => current,
    }
}

fn replace_with<T: Copy>(current: T, replacement: Option<T>) -> (r: T)
    ensures
        r == replaced(current, replacement),
{
    match replacement {
        Some(value) => value,
        None => current,
    }
}

impl Commons {
    /// The phase configuration that an update asks for.
    pub open spec fn updated_config(&self, msg: UpdatePhaseConfigMsg) -> CommonsPhaseConfig {
        let config = self.phase_config;
        match msg {
            UpdatePhaseConfigMsg::Hatch {
                contribution_limits,
                exit_tax,
                initial_raise,
                initial_allocation_ratio,
            } => CommonsPhaseConfig {
                hatch: HatchConfig {
                    contribution_limits: replaced(
                        config.hatch.contribution_limits,
                        contribution_limits,
                    ),
                    initial_raise: replaced(config.hatch.initial_raise, initial_raise),
                    initial_price: config.hatch.initial_price,
                    initial_allocation_ratio: replaced(
                        config.hatch.initial_allocation_ratio,
                        initial_allocation_ratio,
                    ),
                    exit_tax: replaced(config.hatch.exit_tax, exit_tax),
                },
                ..config
            },
            UpdatePhaseConfigMsg::Open { exit_tax, allocation_percentage } => CommonsPhaseConfig {
                open: OpenConfig {
                    allocation_percentage: replaced(
                        config.open.allocation_percentage,
                        allocation_percentage,
                    ),
                    exit_tax: replaced(config.open.exit_tax, exit_tax),
                },
                ..config
            },
            UpdatePhaseConfigMsg::Closed {  } => config,
        }
    }

    /// The phase whose configuration an update speaks of, and in which
    /// alone it is taken.
    pub open spec fn phase_of(msg: UpdatePhaseConfigMsg) -> CommonsPhase {
        match msg {
            UpdatePhaseConfigMsg::Hatch { .. } => CommonsPhase::Hatch,
            UpdatePhaseConfigMsg::Open { .. } => CommonsPhase::Open,
            UpdatePhaseConfigMsg::Closed {  } => CommonsPhase::Closed,
        }
    }

    /// What an update of the phase configuration answers.
    pub open spec fn spec_update_phase_config(
        &self,
        sender: Seq<char>,
        msg: UpdatePhaseConfigMsg,
    ) -> Result<(), Failure> {
        if self.gate(sender) is Err {
            self.gate(sender)
        } else if self.phase.spec_expect(Self::phase_of(msg)) is Err {
            self.phase.spec_expect(Self::phase_of(msg))
        } else {
            self.updated_config(msg).spec_validate()
        }
    }

    /// Updates the configuration of the current phase: the fields that the
    /// message gives replace the old ones. Owner only, only for the phase
    /// the commons is in, and only where the result is valid.
    pub fn update_phase_config(&mut self, sender: &str, msg: UpdatePhaseConfigMsg) -> (r: Result<
        (),
        ContractError,
    >)
        requires
            old(self).wf(),
        ensures
            outcome(r) == old(self).spec_update_phase_config(sender@, msg),
            final(self).wf(),
            match r {
                Ok(_) => *final(self) == (Commons {
                    phase_config: old(self).updated_config(msg),
                    ..*old(self)
                }),
                Err(_) => *final(self) == *old(self),
            },
    {
        match self.assert_owner(sender) {
            Ok(()) => {},
            Err(e) => { return Err(e); },
        }
        let current = self.phase_config;
        let config = match msg {
            UpdatePhaseConfigMsg::Hatch {
                contribution_limits,
                exit_tax,
                initial_raise,
                initial_allocation_ratio,
            } => {
                match self.phase.expect_hatch() {
                    Ok(()) => {},
                    Err(e) => { return Err(e); },
                }
                CommonsPhaseConfig {
                    hatch: HatchConfig {
                        contribution_limits: replace_with(
                            current.hatch.contribution_limits,
                            contribution_limits,
                        ),
                        initial_raise: replace_with(current.hatch.initial_raise, initial_raise),
                        initial_price: current.hatch.initial_price,
                        initial_allocation_ratio: replace_with(
                            current.hatch.initial_allocation_ratio,
                            initial_allocation_ratio,
                        ),
                        exit_tax: replace_with(current.hatch.exit_tax, exit_tax),
                    },
                    open: current.open,
                    closed: current.closed,
                }
            },
            UpdatePhaseConfigMsg::Open { exit_tax, allocation_percentage } => {
                match self.phase.expect_open() {
                    Ok(()) => {},
                    Err(e) => { return Err(e); },
                }
                CommonsPhaseConfig {
                    hatch: current.hatch,
                    open: OpenConfig {
                        allocation_percentage: replace_with(
                            current.open.allocation_percentage,
                            allocation_percentage,
                        ),
                        exit_tax: replace_with(current.open.exit_tax, exit_tax),
                    },
                    closed: current.closed,
                }
            },
            UpdatePhaseConfigMsg::Closed {  } => {
                match self.phase.expect_closed() {
                    Ok(()) => {},
                    Err(e) => { return Err(e); },
                }
                current
            },
        };
        match config.validate() {
            Ok(()) => {},
            Err(e) => { return Err(e); },
        }
        self.phase_config = config;
        Ok(())
    }

    /// What opening the commons answers.
    pub open spec fn spec_open(&self, sender: Seq<char>) -> Result<(), Failure> {
        let raise = self.phase_config.hatch.initial_raise;
        if self.gate(sender) is Err {
            self.gate(sender)
        } else if self.phase.spec_expect(CommonsPhase::Hatch) is Err {
            self.phase.spec_expect(CommonsPhase::Hatch)
        } else if self.hatchers.total() < raise.min || self.hatchers.total() > raise.max {
            Err(Failure::LimitExceeded(Limit::InitialRaise))
        } else {
            Ok(())
        }
    }

    /// Ends the hatch and opens the commons. Owner only, only during the
    /// hatch, and only once what the hatchers contributed lies within the
    /// initial raise range.
    pub fn open(&mut self, sender: &str) -> (r: Result<(), ContractError>)
        requires
            old(self).wf(),
        ensures
            outcome(r) == old(self).spec_open(sender@),
            final(self).wf(),
            match r {
                Ok(_) => *final(self) == (Commons { phase: CommonsPhase::Open, ..*old(self) }),
                Err(_) => *final(self) == *old(self),
            },
    {
        match self.assert_owner(sender) {
            Ok(()) => {},
            Err(e) => { return Err(e); },
        }
        match self.phase.expect_hatch() {
            Ok(()) => {},
            Err(e) => { return Err(e); },
        }
        let raised = self.hatchers.total_amount();
        let raise = self.phase_config.hatch.initial_raise;
        if raised < raise.min || raised > raise.max {
            return Err(ContractError::LimitExceeded(Limit::InitialRaise));
        }
        self.phase = CommonsPhase::Open;
        Ok(())
    }

    /// What closing the commons answers.
    pub open spec fn spec_close(&self, sender: Seq<char>) -> Result<(), Failure> {
        if self.gate(sender) is Err {
            self.gate(sender)
        } else {
            self.phase.spec_expect(CommonsPhase::Open)
        }
    }

    /// Closes the commons. Owner only, and only once it is open. From then
    /// on nothing is sold, and burns pay no exit tax.
    pub fn close(&mut self, sender: &str) -> (r: Result<(), ContractError>)
        requires
            old(self).wf(),
        ensures
            outcome(r) == old(self).spec_close(sender@),
            final(self).wf(),
            match r {
                Ok(_) => *final(self) == (Commons { phase: CommonsPhase::Closed, ..*old(self) }),
                Err(_) => *final(self) == *old(self),
            },
    {
        match self.assert_owner(sender) {
            Ok(()) => {},
            Err(e) => { return Err(e); },
        }
        match self.phase.expect_open() {
            Ok(()) => {},
            Err(e) => { return Err(e); },
        }
        self.phase = CommonsPhase::Closed;
        Ok(())
    }
}

/// What a command did.
#[derive(Clone, Copy, Debug, PartialEq, Eq, Structural)]
pub enum ExecuteResponse {
    Bought(BuyOutcome),
    Burned(BurnOutcome),
    Done,
}

/// `Done` for a success without an outcome of its own.
pub open spec fn done(r: Result<(), Failure>) -> Result<ExecuteResponse, Failure> {
    match r {
        Ok(_) => Ok(ExecuteResponse::Done),
        Err(failure) => Err(failure),
    }
}

impl Commons {
    /// What creating a commons answers: the complaint about the phase
    /// configuration if there is one, else about a curve parameter or
    /// decimal places that are out of range.
    pub open spec fn spec_instantiate(msg: &InstantiateMsg) -> Result<(), Failure> {
        let places = DecimalPlaces {
            supply_decimals: msg.supply.decimals,
            reserve_decimals: msg.reserve.decimals,
        };
        if msg.phase_config.spec_validate() is Err {
            msg.phase_config.spec_validate()
        } else if !msg.curve_type.is_valid() || !places.wf() {
            Err(Failure::ArithmeticOverflow)
        } else {
            Ok(())
        }
    }

    /// Whether this is the commons that the message creates for the owner:
    /// in the hatch phase, with nothing on the ledger.
    pub open spec fn created_from(&self, msg: &InstantiateMsg, owner: String) -> bool {
        &&& self.owner == owner
        &&& self.phase == CommonsPhase::Hatch
        &&& self.phase_config == msg.phase_config
        &&& self.curve_type == msg.curve_type
        &&& self.curve_state == CurveState {
            reserve: 0,
            supply: 0,
            funding: 0,
            decimals: DecimalPlaces {
                supply_decimals: msg.supply.decimals,
                reserve_decimals: msg.reserve.decimals,
            },
        }
        &&& self.max_supply is None
        &&& self.hatcher_allowlist == msg.hatcher_allowlist
        &&& self.hatchers@ == Map::<Seq<char>, nat>::empty()
        &&& self.hatchers.total() == 0
        &&& self.donations@ == Map::<Seq<char>, nat>::empty()
        &&& self.donations.total() == 0
        &&& self.supply_denom == msg.supply.subdenom
        &&& self.reserve_denom == msg.reserve.denom
        &&& self.token_contract@.len() == 0
    }

    /// Creates a commons in the hatch phase with an empty ledger. The phase
    /// configuration is validated first, then the curve and the decimal
    /// places.
    pub fn instantiate(msg: InstantiateMsg, owner: String) -> (r: Result<Commons, ContractError>)
        ensures
            match r {
                Ok(commons) => Self::spec_instantiate(&msg) is Ok && commons.wf()
                    && commons.created_from(&msg, owner),
                Err(e) => Self::spec_instantiate(&msg) == Err::<(), Failure>(e@),
            },
    {
        match msg.phase_config.validate() {
            Ok(()) => {},
            Err(e) => { return Err(e); },
        }
        match msg.curve_type.to_curve_fn() {
            Ok(_) => {},
            Err(e) => { return Err(e); },
        }
        let decimals = DecimalPlaces::new(msg.supply.decimals, msg.reserve.decimals);
        if !decimals.is_valid() {
            return Err(ContractError::ArithmeticOverflow);
        }
        Ok(
            Commons {
                owner,
                phase: CommonsPhase::Hatch,
                phase_config: msg.phase_config,
                curve_type: msg.curve_type,
                curve_state: CurveState { reserve: 0, supply: 0, funding: 0, decimals },
                max_supply: None,
                hatcher_allowlist: msg.hatcher_allowlist,
                hatchers: Accounts::new(),
                donations: Accounts::new(),
                supply_denom: msg.supply.subdenom,
                reserve_denom: msg.reserve.denom,
                token_contract: String::new(),
            },
        )
    }

    /// What a command answers.
    pub open spec fn spec_execute(&self, sender: Seq<char>, payment: u128, msg: ExecuteMsg) -> Result<
        ExecuteResponse,
        Failure,
    > {
        match msg {
            ExecuteMsg::Buy {  } => match self.spec_buy(sender, payment) {
                Ok(o) => Ok(ExecuteResponse::Bought(o)),
                Err(failure) => Err(failure),
            },
            ExecuteMsg::Burn {  } => match self.spec_burn(payment) {
                Ok(o) => Ok(ExecuteResponse::Burned(o)),
                Err(failure) => Err(failure),
            },
            ExecuteMsg::Donate {  } => done(self.spec_donate(payment)),
            ExecuteMsg::SetMaxSupply { max_supply } => done(self.spec_set_max_supply(sender)),
            ExecuteMsg::UpdateCurve { curve_type } => done(
                self.spec_update_curve(sender, curve_type),
            ),
            ExecuteMsg::UpdateHatchAllowlist { to_add, to_remove } => done(
                self.spec_update_hatch_allowlist(sender),
            ),
            ExecuteMsg::UpdatePhaseConfig(update) => done(
                self.spec_update_phase_config(sender, update),
            ),
            ExecuteMsg::Close {  } => done(self.spec_close(sender)),
        }
    }

    /// Whether `after` is this commons once the command is carried out with
    /// the given response.
    pub open spec fn applied(
        &self,
        after: &Commons,
        sender: Seq<char>,
        payment: u128,
        msg: ExecuteMsg,
        response: ExecuteResponse,
    ) -> bool {
        match msg {
            ExecuteMsg::Buy {  } => response matches ExecuteResponse::Bought(o) && self.bought(
                after,
                sender,
                payment,
                o,
            ),
            ExecuteMsg::Burn {  } => response matches ExecuteResponse::Burned(o) && self.burned(
                after,
                o,
            ),
            ExecuteMsg::Donate {  } => self.donated(after, sender, payment),
            ExecuteMsg::SetMaxSupply { max_supply } => *after == (Commons { max_supply, ..*self }),
            ExecuteMsg::UpdateCurve { curve_type } => *after == (Commons { curve_type, ..*self }),
            ExecuteMsg::UpdateHatchAllowlist { to_add, to_remove } => {
                &&& *after == (Commons { hatcher_allowlist: after.hatcher_allowlist, ..*self })
                &&& after.hatcher_allowlist is Some
                &&& forall|addr: Seq<char>|
                    #[trigger] listed(after.hatcher_allowlist.unwrap()@, addr) <==> listed_after(
                        self.hatcher_allowlist,
                        to_add@,
                        to_remove@,
                        addr,
                    )
            },
            ExecuteMsg::UpdatePhaseConfig(update) => *after == (Commons {
                phase_config: self.updated_config(update),
                ..*self
            }),
            ExecuteMsg::Close {  } => *after == (Commons { phase: CommonsPhase::Closed, ..*self }),
        }
    }

    /// Carries out a command of `sender`. `payment` is what came with the
    /// command: reserve for a buy or a donation, supply for a burn. A
    /// command that fails changes nothing.
    pub fn execute(&mut self, sender: &str, payment: u128, msg: ExecuteMsg) -> (r: Result<
        ExecuteResponse,
        ContractError,
    >)
        requires
            old(self).wf(),
        ensures
            outcome(r) == old(self).spec_execute(sender@, payment, msg),
            final(self).wf(),
            match r {
                Ok(response) => old(self).applied(final(self), sender@, payment, msg, response),
                Err(_) => *final(self) == *old(self),
            },
    {
        match msg {
            ExecuteMsg::Buy {  } => match self.buy(sender, payment) {
                Ok(o) => Ok(ExecuteResponse::Bought(o)),
                Err(e) => Err(e),
            },
            ExecuteMsg::Burn {  } => match self.burn(payment) {
                Ok(o) => Ok(ExecuteResponse::Burned(o)),
                Err(e) => Err(e),
            },
            ExecuteMsg::Donate {  } => match self.donate(sender, payment) {
                Ok(()) => Ok(ExecuteResponse::Done),
                Err(e) => Err(e),
            },
            ExecuteMsg::SetMaxSupply { max_supply } => match self.set_max_supply(
                sender,
                max_supply,
            ) {
                Ok(()) => Ok(ExecuteResponse::Done),
                Err(e) => Err(e),
            },
            ExecuteMsg::UpdateCurve { curve_type } => match self.update_curve(sender, curve_type) {
                Ok(()) => Ok(ExecuteResponse::Done),
                Err(e) => Err(e),
            },
            ExecuteMsg::UpdateHatchAllowlist { to_add, to_remove } => match self.update_hatch_allowlist(
                sender,
                to_add,
                to_remove,
            ) {
                Ok(()) => Ok(ExecuteResponse::Done),
                Err(e) => Err(e),
            },
            ExecuteMsg::UpdatePhaseConfig(update) => match self.update_phase_config(sender, update) {
                Ok(()) => Ok(ExecuteResponse::Done),
                Err(e) => Err(e),
            },
            ExecuteMsg::Close {  } => match self.close(sender) {
                Ok(()) => Ok(ExecuteResponse::Done),
                Err(e) => Err(e),
            },
        }
    }
}

/// The answer to a query.
#[derive(Clone, Debug, PartialEq, Eq)]
pub enum QueryResponse {
    CurveInfo(CurveInfoResponse),
    PhaseConfig(CommonsPhaseConfigResponse),
    Donations(DonationsResponse),
    Hatchers(HatchersResponse),
    Denom(DenomResponse),
    TokenContract(String),
}

/// The most accounts a page may hold: as many as asked for, or any number.
pub open spec fn page_limit(limit: Option<u32>) -> nat {
    match limit {
        Some(limit) => limit as nat,
        None => u32::MAX as nat,
    }
}

/// The address after which a page begins.
pub open spec fn page_key(start_after: Option<String>) -> Option<Seq<char>> {
    match start_after {
        Some(addr) => Some(addr@),
        None => None,
    }
}

/// Whether `page` is the page of the accounts that begins after
/// `start_after` and holds at most `limit` of them, in the order of the
/// addresses.
pub open spec fn is_page(
    accounts: &Accounts,
    start_after: Option<String>,
    limit: Option<u32>,
    page: Seq<(String, u128)>,
) -> bool {
    exists|from: int|
        is_page_start(accounts.entries@, page_key(start_after), from) && pairs(page) == page_at(
            accounts.entries@,
            from,
            page_limit(limit),
        )
}

fn page_of(accounts: &Accounts, start_after: &Option<String>, limit: Option<u32>) -> (page: Vec<
    (String, u128),
>)
    requires
        accounts.wf(),
    ensures
        page@.len() <= page_limit(limit),
        is_page(accounts, *start_after, limit, page@),
{
    let limit = match limit {
        Some(limit) => limit,
        None => u32::MAX,
    };
    let page = match start_after {
        Some(addr) => {
            let key = addr.as_str();
            assert(start_key(Some(key)) == page_key(*start_after));
            accounts.page(Some(key), limit)
        },
        None => {
            assert(start_key(None) == page_key(*start_after));
            accounts.page(None, limit)
        },
    };
    page
}

impl Commons {
    /// The ledger totals and the spot price at the current supply.
    pub fn query_curve_info(&self) -> (r: Result<CurveInfoResponse, ContractError>)
        requires
            self.wf(),
        ensures
            match r {
                Ok(info) => {
                    &&& info.reserve == self.curve_state.reserve
                    &&& info.supply == self.curve_state.supply
                    &&& info.funding == self.curve_state.funding
                    &&& self.curve().spec_spot_price(self.curve_state.supply as nat) == Some(
                        info.spot_price.atomics as nat,
                    )
                    &&& info.reserve_denom == self.reserve_denom
                },
                Err(e) => e@ == Failure::ArithmeticOverflow && self.curve().spec_spot_price(
                    self.curve_state.supply as nat,
                ) is None,
            },
    {
        let spot_price = match self.bound_curve().spot_price(self.curve_state.supply) {
            Ok(price) => price,
            Err(e) => { return Err(e); },
        };
        Ok(
            CurveInfoResponse {
                reserve: self.curve_state.reserve,
                supply: self.curve_state.supply,
                funding: self.curve_state.funding,
                spot_price,
                reserve_denom: self.reserve_denom.clone(),
            },
        )
    }

    /// The phase configuration and the current phase.
    pub fn query_phase_config(&self) -> (r: CommonsPhaseConfigResponse)
        ensures
            r.phase_config == self.phase_config,
            r.phase == self.phase,
    {
        CommonsPhaseConfigResponse { phase_config: self.phase_config, phase: self.phase }
    }

    /// A page of the donors with their donations.
    pub fn query_donations(&self, start_after: Option<String>, limit: Option<u32>) -> (r:
        DonationsResponse)
        requires
            self.wf(),
        ensures
            r.donations@.len() <= page_limit(limit),
            is_page(&self.donations, start_after, limit, r.donations@),
    {
        DonationsResponse { donations: page_of(&self.donations, &start_after, limit) }
    }

    /// A page of the hatchers with their contributions.
    pub fn query_hatchers(&self, start_after: Option<String>, limit: Option<u32>) -> (r:
        HatchersResponse)
        requires
            self.wf(),
        ensures
            r.hatchers@.len() <= page_limit(limit),
            is_page(&self.hatchers, start_after, limit, r.hatchers@),
    {
        HatchersResponse { hatchers: page_of(&self.hatchers, &start_after, limit) }
    }

    /// The denom of the supply token.
    pub fn query_denom(&self) -> (r: DenomResponse)
        ensures
            r.denom == self.supply_denom,
    {
        DenomResponse { denom: self.supply_denom.clone() }
    }

    /// The hatch allowlist.
    pub fn query_hatcher_allowlist(&self) -> (r: HatcherAllowlistResponse)
        ensures
            r.allowlist is Some <==> self.hatcher_allowlist is Some,
            forall|addr: Seq<char>|
                r.allowlist is Some ==> (#[trigger] listed(r.allowlist.unwrap()@, addr)
                    <==> self.allows(addr)),
    {
        match &self.hatcher_allowlist {
            None => HatcherAllowlistResponse { allowlist: None },
            Some(list) => {
                let mut copy: Vec<String> = Vec::new();
                let removed: Vec<String> = Vec::new();
                append_kept(&mut copy, list, &removed);
                HatcherAllowlistResponse { allowlist: Some(copy) }
            },
        }
    }

    /// Whether `response` answers the query.
    pub open spec fn answers(&self, msg: QueryMsg, response: QueryResponse) -> bool {
        match msg {
            QueryMsg::CurveInfo {  } => response matches QueryResponse::CurveInfo(info) && {
                &&& info.reserve == self.curve_state.reserve
                &&& info.supply == self.curve_state.supply
                &&& info.funding == self.curve_state.funding
                &&& self.curve().spec_spot_price(self.curve_state.supply as nat) == Some(
                    info.spot_price.atomics as nat,
                )
                &&& info.reserve_denom == self.reserve_denom
            },
            QueryMsg::PhaseConfig {  } => response matches QueryResponse::PhaseConfig(config)
                && config.phase_config == self.phase_config && config.phase == self.phase,
            QueryMsg::Donations { start_after, limit } => response matches QueryResponse::Donations(
                page,
            ) && is_page(&self.donations, start_after, limit, page.donations@),
            QueryMsg::Hatchers { start_after, limit } => response matches QueryResponse::Hatchers(
                page,
            ) && is_page(&self.hatchers, start_after, limit, page.hatchers@),
            QueryMsg::Denom {  } => response matches QueryResponse::Denom(denom) && denom.denom
                == self.supply_denom,
            QueryMsg::TokenContract {  } => response matches QueryResponse::TokenContract(addr)
                && addr == self.token_contract,
        }
    }

    /// Answers a query. Only the spot price can fail, where it does not fit.
    pub fn query(&self, msg: QueryMsg) -> (r: Result<QueryResponse, ContractError>)
        requires
            self.wf(),
        ensures
            match r {
                Ok(response) => self.answers(msg, response),
                Err(e) => msg is CurveInfo && e@ == Failure::ArithmeticOverflow
                    && self.curve().spec_spot_price(self.curve_state.supply as nat) is None,
            },
    {
        match msg {
            QueryMsg::CurveInfo {  } => match self.query_curve_info() {
                Ok(info) => Ok(QueryResponse::CurveInfo(info)),
                Err(e) => Err(e),
            },
            QueryMsg::PhaseConfig {  } => Ok(QueryResponse::PhaseConfig(self.query_phase_config())),
            QueryMsg::Donations { start_after, limit } => Ok(
                QueryResponse::Donations(self.query_donations(start_after, limit)),
            ),
            QueryMsg::Hatchers { start_after, limit } => Ok(
                QueryResponse::Hatchers(self.query_hatchers(start_after, limit)),
            ),
            QueryMsg::Denom {  } => Ok(QueryResponse::Denom(self.query_denom())),
            QueryMsg::TokenContract {  } => Ok(
                QueryResponse::TokenContract(self.token_contract.clone()),
            ),
        }
    }
}

} // verus!
