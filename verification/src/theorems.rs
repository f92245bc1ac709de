//! What holds of the commons across its operations.

use vstd::prelude::*;
use crate::abc::CommonsPhase;
use crate::contract::{BurnOutcome, BuyOutcome, Commons, ExecuteResponse};
use crate::curve_laws::{lemma_inverse_bounded, lemma_reserve_monotone};
use crate::decimal::lemma_mul_floor_zero;
use crate::error::Failure;
use crate::msg::{ExecuteMsg, UpdatePhaseConfigMsg};

verus! {

/// How far along its life a phase is.
pub open spec fn rank(phase: CommonsPhase) -> nat {
    match phase {
        CommonsPhase::Hatch => 0,
        CommonsPhase::Open => 1,
        CommonsPhase::Closed => 2,
    }
}

/// A closed commons rejects every buy, naming the phase it wanted and the
/// phase it is in.
pub proof fn lemma_closed_rejects_buy(commons: Commons, buyer: Seq<char>, payment: u128)
    requires
        commons.phase == CommonsPhase::Closed,
    ensures
        commons.spec_buy(buyer, payment) == Err::<BuyOutcome, Failure>(
            Failure::InvalidPhase { expected: "Open"@, actual: "Closed"@ },
        ),
{
}

/// A burn in a closed commons pays no exit tax, whatever tax the phases
/// were configured with: the seller gets all that is released.
pub proof fn lemma_closed_burn_untaxed(commons: Commons, amount: u128, burned: BurnOutcome)
    requires
        commons.phase == CommonsPhase::Closed,
        commons.spec_burn(amount) == Ok::<BurnOutcome, Failure>(burned),
    ensures
        burned.taxed == 0,
        burned.payout == burned.released,
{
    lemma_mul_floor_zero(commons.release(amount as nat)->Ok_0);
}

/// The owner's update of a phase's configuration is rejected in every other
/// phase, naming the phase it wanted and the phase the commons is in.
pub proof fn lemma_update_in_wrong_phase_rejected(commons: Commons, msg: UpdatePhaseConfigMsg)
    requires
        commons.phase != Commons::phase_of(msg),
    ensures
        commons.spec_update_phase_config(commons.owner@, msg) == Err::<(), Failure>(
            Failure::InvalidPhase {
                expected: Commons::phase_of(msg).spec_name(),
                actual: commons.phase.spec_name(),
            },
        ),
{
}

/// The owner can close the commons only while it is open, open it only
/// during the hatch, and change the allowlist only during the hatch. In
/// any other phase the action is rejected, naming the phase it wanted and
/// the phase the commons is in.
pub proof fn lemma_transition_in_wrong_phase_rejected(commons: Commons)
    ensures
        commons.phase != CommonsPhase::Open ==> commons.spec_close(commons.owner@) == Err::<
            (),
            Failure,
        >(Failure::InvalidPhase { expected: "Open"@, actual: commons.phase.spec_name() }),
        commons.phase != CommonsPhase::Hatch ==> commons.spec_open(commons.owner@) == Err::<
            (),
            Failure,
        >(Failure::InvalidPhase { expected: "Hatch"@, actual: commons.phase.spec_name() }),
        commons.phase != CommonsPhase::Hatch ==> commons.spec_update_hatch_allowlist(
            commons.owner@,
        ) == Err::<(), Failure>(
            Failure::InvalidPhase { expected: "Hatch"@, actual: commons.phase.spec_name() },
        ),
{
}

/// The commons is opened only out of the hatch and closed only out of the
/// open phase, whoever asks.
pub proof fn lemma_transitions_leave_their_phase(commons: Commons, sender: Seq<char>)
    ensures
        commons.spec_open(sender) is Ok ==> commons.phase == CommonsPhase::Hatch,
        commons.spec_close(sender) is Ok ==> commons.phase == CommonsPhase::Open,
{
}

/// No command moves the commons back to an earlier phase. A closed commons
/// in particular stays closed.
pub proof fn lemma_phase_only_advances(
    before: Commons,
    after: Commons,
    sender: Seq<char>,
    payment: u128,
    msg: ExecuteMsg,
    response: ExecuteResponse,
)
    requires
        before.applied(&after, sender, payment, msg, response),
    ensures
        rank(before.phase) <= rank(after.phase),
        before.phase == CommonsPhase::Closed ==> after.phase == CommonsPhase::Closed,
{
}

/// No command but a buy, a burn or a donation changes the ledger totals.
pub proof fn lemma_administration_keeps_totals(
    before: Commons,
    after: Commons,
    sender: Seq<char>,
    payment: u128,
    msg: ExecuteMsg,
    response: ExecuteResponse,
)
    requires
        before.applied(&after, sender, payment, msg, response),
        !(msg is Buy || msg is Burn || msg is Donate),
    ensures
        after.curve_state == before.curve_state,
        after.hatchers == before.hatchers,
        after.donations == before.donations,
{
}

/// Whether the reserve holds at least what the curve asks for the supply.
pub open spec fn covered(commons: Commons) -> bool {
    commons.curve().spec_reserve(commons.curve_state.supply as nat) matches Some(asked) && asked
        <= commons.curve_state.reserve
}

/// Once the hatch is over, a burn leaves the reserve on the curve: the
/// reserve is then exactly what the curve asks for the supply that is left.
pub proof fn lemma_burn_lands_on_curve(
    before: Commons,
    after: Commons,
    amount: u128,
    burned: BurnOutcome,
)
    requires
        before.phase != CommonsPhase::Hatch,
        before.spec_burn(amount) == Ok::<BurnOutcome, Failure>(burned),
        before.burned(&after, burned),
    ensures
        after.curve().spec_reserve(after.curve_state.supply as nat) == Some(
            after.curve_state.reserve as nat,
        ),
{
    assert(after.curve() == before.curve());
}

/// An open buy never leaves the reserve short: where the reserve held at
/// least what the curve asks for the supply, it still does after the buy.
pub proof fn lemma_buy_keeps_reserve_covered(
    before: Commons,
    between: Commons,
    buyer: Seq<char>,
    payment: u128,
    bought: BuyOutcome,
)
    requires
        before.phase == CommonsPhase::Open,
        covered(before),
        before.spec_buy(buyer, payment) == Ok::<BuyOutcome, Failure>(bought),
        before.bought(&between, buyer, payment, bought),
    ensures
        covered(between),
{
    let curve = before.curve();
    let supply = before.curve_state.supply as nat;
    assert(between.curve() == curve);
    assert(before.open_mint(bought.reserved as nat) is Some);
    let paid = (curve.spec_reserve(supply).unwrap() + bought.reserved) as nat;
    assert(curve.spec_supply(paid).unwrap() == between.curve_state.supply);
    lemma_inverse_bounded(curve, paid);
}

/// Once the hatch is over, a reserve that holds at least what the curve
/// asks for the supply has enough for every burn of supply that exists.
pub proof fn lemma_covered_reserve_suffices(commons: Commons, amount: u128)
    requires
        commons.phase != CommonsPhase::Hatch,
        covered(commons),
        amount <= commons.curve_state.supply,
    ensures
        commons.release(amount as nat) is Ok,
{
    let supply = commons.curve_state.supply as nat;
    lemma_reserve_monotone(commons.curve(), (supply - amount) as nat, supply);
}

/// In the open phase, from a reserve that is on the curve, what a buy
/// minted can be burned again, and the burn releases exactly the reserve
/// that the buy added. With no exit tax all of it goes to the seller.
pub proof fn lemma_burn_after_buy_succeeds(
    before: Commons,
    between: Commons,
    buyer: Seq<char>,
    payment: u128,
    bought: BuyOutcome,
)
    requires
        before.phase == CommonsPhase::Open,
        before.phase_config.open.exit_tax.atomics == 0,
        before.curve().spec_reserve(before.curve_state.supply as nat) == Some(
            before.curve_state.reserve as nat,
        ),
        before.spec_buy(buyer, payment) == Ok::<BuyOutcome, Failure>(bought),
        before.bought(&between, buyer, payment, bought),
    ensures
        between.spec_burn(bought.minted) == Ok::<BurnOutcome, Failure>(
            BurnOutcome {
                burned: bought.minted,
                released: bought.reserved,
                taxed: 0,
                payout: bought.reserved,
            },
        ),
{
    assert(between.curve() == before.curve());
    assert(before.open_mint(bought.reserved as nat) is Some);
    assert(between.release(bought.minted as nat) == Ok::<nat, Failure>(bought.reserved as nat));
    lemma_mul_floor_zero(bought.reserved as nat);
}

/// In the open phase, from a reserve that is on the curve, a burn of what
/// a buy minted undoes the buy: supply and reserve are back where they
/// were. What the buy gave to the funding pool stays there, and so does
/// the exit tax of the burn; with no exit tax the funding pool has gained
/// its share of the payment and nothing else.
pub proof fn lemma_buy_then_burn_restores(
    before: Commons,
    between: Commons,
    after: Commons,
    buyer: Seq<char>,
    payment: u128,
    bought: BuyOutcome,
    burned: BurnOutcome,
)
    requires
        before.phase == CommonsPhase::Open,
        before.curve().spec_reserve(before.curve_state.supply as nat) == Some(
            before.curve_state.reserve as nat,
        ),
        before.spec_buy(buyer, payment) == Ok::<BuyOutcome, Failure>(bought),
        before.bought(&between, buyer, payment, bought),
        between.spec_burn(bought.minted) == Ok::<BurnOutcome, Failure>(burned),
        between.burned(&after, burned),
    ensures
        after.curve_state.supply == before.curve_state.supply,
        after.curve_state.reserve == before.curve_state.reserve,
        after.curve_state.funding == before.curve_state.funding + bought.funded + burned.taxed,
        before.phase_config.open.exit_tax.atomics == 0 ==> after.curve_state.funding
            == before.curve_state.funding + bought.funded,
{
    assert(between.curve() == before.curve());
    assert(before.open_mint(bought.reserved as nat) is Some);
    assert(between.release(bought.minted as nat) == Ok::<nat, Failure>(bought.reserved as nat));
    lemma_mul_floor_zero(bought.reserved as nat);
}

} // verus!
