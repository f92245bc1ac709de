use cw_abc::abc::{
    ClosedConfig, CommonsPhase, CommonsPhaseConfig, CurveType, HatchConfig, MinMax, OpenConfig,
    ReserveToken, SupplyToken,
};
use cw_abc::accounts::{compare_addresses, Account, Accounts, Order};
use cw_abc::contract::{
    calculate_reserved_and_funded, is_listed, BurnOutcome, BuyOutcome, Commons, CurveState,
    ExecuteResponse, QueryResponse,
};
use cw_abc::curves::DecimalPlaces;
use cw_abc::decimal::StdDecimal;
use cw_abc::error::{ContractError, Limit};
use cw_abc::msg::{ExecuteMsg, InstantiateMsg, QueryMsg, UpdatePhaseConfigMsg};
use cw_abc::token::{Meta, MinterData};

const OWNER: &str = "owner";

fn phase_config() -> CommonsPhaseConfig {
    CommonsPhaseConfig {
        hatch: HatchConfig {
            contribution_limits: MinMax { min: 10, max: 1_000 },
            initial_raise: MinMax { min: 100, max: 2_000 },
            initial_price: 2,
            initial_allocation_ratio: StdDecimal::percent(10),
            exit_tax: StdDecimal::percent(10),
        },
        open: OpenConfig {
            allocation_percentage: StdDecimal::percent(20),
            exit_tax: StdDecimal::percent(5),
        },
        closed: ClosedConfig {},
    }
}

fn instantiate_msg() -> InstantiateMsg {
    InstantiateMsg {
        token_issuer_code_id: 7,
        supply: SupplyToken { subdenom: "ucommons".to_string(), metadata: None, decimals: 0 },
        reserve: ReserveToken { denom: "ureserve".to_string(), decimals: 0 },
        curve_type: CurveType::Linear { slope: 1, scale: 0 },
        phase_config: phase_config(),
        hatcher_allowlist: None,
    }
}

fn new_commons() -> Commons {
    Commons::instantiate(instantiate_msg(), OWNER.to_string()).unwrap()
}

fn open_commons(curve_type: CurveType, supply: u128, reserve: u128, open: OpenConfig) -> Commons {
    let mut commons = new_commons();
    commons.phase = CommonsPhase::Open;
    commons.curve_type = curve_type;
    commons.curve_state.supply = supply;
    commons.curve_state.reserve = reserve;
    commons.phase_config.open = open;
    commons
}

fn invalid_phase(expected: &str, actual: &str) -> ContractError {
    ContractError::InvalidPhase { expected: expected.to_string(), actual: actual.to_string() }
}

#[test]
fn instantiate_starts_in_hatch_with_empty_ledger() {
    let commons = new_commons();
    assert_eq!(commons.owner, OWNER);
    assert_eq!(commons.phase, CommonsPhase::Hatch);
    assert_eq!(commons.phase_config, phase_config());
    assert_eq!(commons.curve_type, CurveType::Linear { slope: 1, scale: 0 });
    assert_eq!(
        commons.curve_state,
        CurveState { reserve: 0, supply: 0, funding: 0, decimals: DecimalPlaces::new(0, 0) }
    );
    assert_eq!(commons.max_supply, None);
    assert_eq!(commons.hatcher_allowlist, None);
    assert!(commons.hatchers.entries.is_empty());
    assert!(commons.donations.entries.is_empty());
    assert_eq!(commons.supply_denom, "ucommons");
    assert_eq!(commons.reserve_denom, "ureserve");
    assert_eq!(commons.token_contract, "");
}

#[test]
fn instantiate_validates_phase_config_first() {
    let mut msg = instantiate_msg();
    msg.phase_config.hatch.contribution_limits.max = u128::MAX;
    msg.curve_type = CurveType::Linear { slope: 1, scale: 99 };
    assert_eq!(
        Commons::instantiate(msg, OWNER.to_string()),
        Err(ContractError::HatchPhaseConfigError(
            "Max contribution limit cannot be greater than the maximum initial raise."
                .to_string()
        ))
    );
}

#[test]
fn instantiate_rejects_curve_and_decimals_out_of_range() {
    let mut msg = instantiate_msg();
    msg.curve_type = CurveType::Linear { slope: 1, scale: 39 };
    assert_eq!(
        Commons::instantiate(msg, OWNER.to_string()),
        Err(ContractError::ArithmeticOverflow)
    );
    let mut msg = instantiate_msg();
    msg.supply.decimals = 19;
    assert_eq!(
        Commons::instantiate(msg, OWNER.to_string()),
        Err(ContractError::ArithmeticOverflow)
    );
    let mut msg = instantiate_msg();
    msg.reserve.decimals = 18;
    msg.supply.decimals = 18;
    assert!(Commons::instantiate(msg, OWNER.to_string()).is_ok());
}

#[test]
fn split_of_a_payment() {
    assert_eq!(calculate_reserved_and_funded(100, StdDecimal::percent(10)), (90, 10));
    assert_eq!(calculate_reserved_and_funded(5, StdDecimal::percent(10)), (5, 0));
    assert_eq!(calculate_reserved_and_funded(1_000, StdDecimal::percent(0)), (1_000, 0));
    assert_eq!(calculate_reserved_and_funded(1_000, StdDecimal::percent(100)), (0, 1_000));
    assert_eq!(
        calculate_reserved_and_funded(u128::MAX, StdDecimal::percent(100)),
        (0, u128::MAX)
    );
}

#[test]
fn hatch_buy_mints_at_initial_price() {
    let mut commons = new_commons();
    assert_eq!(
        commons.buy("alice", 100),
        Ok(BuyOutcome { minted: 45, reserved: 90, funded: 10 })
    );
    assert_eq!(commons.curve_state.reserve, 90);
    assert_eq!(commons.curve_state.supply, 45);
    assert_eq!(commons.curve_state.funding, 10);
    assert_eq!(commons.hatchers.get("alice"), 100);
    assert_eq!(commons.phase, CommonsPhase::Hatch);

    assert_eq!(commons.buy("alice", 5), Ok(BuyOutcome { minted: 2, reserved: 5, funded: 0 }));
    assert_eq!(commons.curve_state.reserve, 95);
    assert_eq!(commons.curve_state.supply, 47);
    assert_eq!(commons.curve_state.funding, 10);
    assert_eq!(commons.hatchers.get("alice"), 105);
    assert_eq!(commons.hatchers.total_amount(), 105);
}

#[test]
fn hatch_buy_enforces_contribution_limits() {
    let mut commons = new_commons();
    let before = commons.clone();
    assert_eq!(
        commons.buy("bob", 9),
        Err(ContractError::LimitExceeded(Limit::Contribution))
    );
    assert_eq!(
        commons.buy("bob", 1_001),
        Err(ContractError::LimitExceeded(Limit::Contribution))
    );
    assert_eq!(
        commons.buy("bob", u128::MAX),
        Err(ContractError::LimitExceeded(Limit::Contribution))
    );
    assert_eq!(commons, before);
    assert!(commons.buy("bob", 10).is_ok());
    assert!(commons.buy("bob", 990).is_ok());
    assert_eq!(commons.buy("bob", 1), Err(ContractError::LimitExceeded(Limit::Contribution)));
    assert_eq!(commons.hatchers.get("bob"), 1_000);
}

#[test]
fn hatch_buy_enforces_initial_raise() {
    let mut commons = new_commons();
    assert!(commons.buy("alice", 1_000).is_ok());
    assert!(commons.buy("bob", 990).is_ok());
    let before = commons.clone();
    assert_eq!(
        commons.buy("carol", 11),
        Err(ContractError::LimitExceeded(Limit::InitialRaise))
    );
    assert_eq!(commons, before);
    assert!(commons.buy("carol", 10).is_ok());
    assert_eq!(commons.hatchers.total_amount(), 2_000);
}

#[test]
fn hatch_buy_enforces_allowlist() {
    let mut msg = instantiate_msg();
    msg.hatcher_allowlist = Some(vec!["alice".to_string()]);
    let mut commons = Commons::instantiate(msg, OWNER.to_string()).unwrap();
    let before = commons.clone();
    assert_eq!(
        commons.buy("bob", 100),
        Err(ContractError::AllowlistDenied { sender: "bob".to_string() })
    );
    assert_eq!(commons, before);
    assert!(commons.buy("alice", 100).is_ok());
    assert!(commons.is_allowed("alice"));
    assert!(!commons.is_allowed("alic"));
}

#[test]
fn hatch_burn_releases_at_initial_price() {
    let mut commons = new_commons();
    commons.buy("alice", 1_000).unwrap();
    assert_eq!(commons.curve_state.reserve, 900);
    assert_eq!(commons.curve_state.supply, 450);
    assert_eq!(commons.curve_state.funding, 100);
    assert_eq!(
        commons.burn(10),
        Ok(BurnOutcome { burned: 10, released: 20, taxed: 2, payout: 18 })
    );
    assert_eq!(commons.curve_state.reserve, 880);
    assert_eq!(commons.curve_state.supply, 440);
    assert_eq!(commons.curve_state.funding, 102);
    assert_eq!(commons.hatchers.get("alice"), 1_000);
}

#[test]
fn burn_needs_supply_and_reserve() {
    let mut commons = new_commons();
    commons.buy("alice", 1_000).unwrap();
    let before = commons.clone();
    assert_eq!(commons.burn(451), Err(ContractError::InsufficientSupply));
    assert_eq!(commons, before);
    commons.curve_state.reserve = 19;
    let before = commons.clone();
    assert_eq!(commons.burn(10), Err(ContractError::InsufficientReserve));
    assert_eq!(commons, before);
    commons.phase_config.hatch.initial_price = u128::MAX;
    assert_eq!(commons.burn(2), Err(ContractError::ArithmeticOverflow));
}

#[test]
fn open_needs_owner_hatch_and_raise() {
    let mut commons = new_commons();
    assert_eq!(commons.open("alice"), Err(ContractError::Unauthorized));
    assert_eq!(commons.open(OWNER), Err(ContractError::LimitExceeded(Limit::InitialRaise)));
    commons.buy("alice", 99).unwrap();
    assert_eq!(commons.open(OWNER), Err(ContractError::LimitExceeded(Limit::InitialRaise)));
    commons.buy("alice", 1).unwrap();
    assert_eq!(commons.phase, CommonsPhase::Hatch);
    assert_eq!(commons.open(OWNER), Ok(()));
    assert_eq!(commons.phase, CommonsPhase::Open);
    assert_eq!(commons.open(OWNER), Err(invalid_phase("Hatch", "Open")));
    assert_eq!(commons.close(OWNER), Ok(()));
    assert_eq!(commons.open(OWNER), Err(invalid_phase("Hatch", "Closed")));
}

#[test]
fn open_buy_and_burn_follow_the_curve() {
    let mut commons = new_commons();
    commons.buy("alice", 1_000).unwrap();
    commons.buy("bob", 105).unwrap();
    commons.burn(10).unwrap();
    assert_eq!(
        commons.curve_state,
        CurveState { reserve: 975, supply: 487, funding: 112, decimals: DecimalPlaces::new(0, 0) }
    );
    commons.update_curve(OWNER, CurveType::Linear { slope: 1, scale: 3 }).unwrap();
    commons.open(OWNER).unwrap();

    assert_eq!(
        commons.buy("dave", 1_000),
        Ok(BuyOutcome { minted: 867, reserved: 800, funded: 200 })
    );
    assert_eq!(commons.curve_state.reserve, 1_775);
    assert_eq!(commons.curve_state.supply, 1_354);
    assert_eq!(commons.curve_state.funding, 312);
    assert_eq!(commons.hatchers.get("dave"), 0);
    assert_eq!(commons.hatchers.total_amount(), 1_105);

    assert_eq!(
        commons.burn(1),
        Ok(BurnOutcome { burned: 1, released: 860, taxed: 43, payout: 817 })
    );
    assert_eq!(commons.curve_state.reserve, 915);
    assert_eq!(commons.curve_state.supply, 1_353);
    assert_eq!(commons.curve_state.funding, 355);
    assert_eq!(commons.bound_curve().reserve(1_353), Ok(915));
}

#[test]
fn burn_fails_where_the_curve_asks_for_more_than_is_held() {
    let open = OpenConfig { allocation_percentage: StdDecimal::zero(), exit_tax: StdDecimal::zero() };
    let mut commons = open_commons(CurveType::Constant { value: 2, scale: 0 }, 10, 17, open);
    let before = commons.clone();
    assert_eq!(commons.burn(1), Err(ContractError::InsufficientReserve));
    assert_eq!(commons, before);
    assert_eq!(commons.burn(2), Ok(BurnOutcome { burned: 2, released: 1, taxed: 0, payout: 1 }));
    assert_eq!(commons.curve_state.reserve, 16);
    assert_eq!(commons.curve_state.supply, 8);
    commons.curve_type = CurveType::Linear { slope: u128::MAX, scale: 0 };
    assert_eq!(commons.burn(1), Err(ContractError::ArithmeticOverflow));
}

#[test]
fn closed_rejects_buy_and_takes_no_exit_tax() {
    let mut commons = new_commons();
    commons.buy("alice", 1_000).unwrap();
    commons.buy("bob", 105).unwrap();
    commons.burn(10).unwrap();
    commons.update_curve(OWNER, CurveType::Linear { slope: 1, scale: 3 }).unwrap();
    commons.open(OWNER).unwrap();
    assert_eq!(commons.close("alice"), Err(ContractError::Unauthorized));
    assert_eq!(commons.close(OWNER), Ok(()));
    assert_eq!(commons.phase, CommonsPhase::Closed);
    let before = commons.clone();
    assert_eq!(commons.buy("alice", 100), Err(invalid_phase("Open", "Closed")));
    assert_eq!(commons.buy("alice", 0), Err(invalid_phase("Open", "Closed")));
    assert_eq!(
        commons.execute("alice", 100, ExecuteMsg::Buy {}),
        Err(invalid_phase("Open", "Closed"))
    );
    assert_eq!(commons, before);
    assert_eq!(
        commons.burn(1),
        Ok(BurnOutcome { burned: 1, released: 857, taxed: 0, payout: 857 })
    );
    assert_eq!(commons.curve_state.reserve, 118);
    assert_eq!(commons.curve_state.supply, 486);
    assert_eq!(commons.curve_state.funding, before.curve_state.funding);
    assert_eq!(commons.close(OWNER), Err(invalid_phase("Open", "Closed")));
    assert_eq!(commons.phase, CommonsPhase::Closed);
}

#[test]
fn close_needs_open_phase() {
    let mut commons = new_commons();
    let before = commons.clone();
    assert_eq!(commons.close(OWNER), Err(invalid_phase("Open", "Hatch")));
    assert_eq!(commons, before);
}

#[test]
fn buy_then_burn_restores_totals() {
    let open =
        OpenConfig { allocation_percentage: StdDecimal::percent(25), exit_tax: StdDecimal::zero() };
    let mut commons = open_commons(CurveType::Constant { value: 2, scale: 0 }, 10, 20, open);
    let bought = commons.buy("alice", 8).unwrap();
    assert_eq!(bought, BuyOutcome { minted: 3, reserved: 6, funded: 2 });
    assert_eq!(commons.curve_state.supply, 13);
    assert_eq!(commons.curve_state.reserve, 26);
    assert_eq!(commons.curve_state.funding, 2);
    assert_eq!(
        commons.burn(bought.minted),
        Ok(BurnOutcome { burned: 3, released: 6, taxed: 0, payout: 6 })
    );
    assert_eq!(commons.curve_state.supply, 10);
    assert_eq!(commons.curve_state.reserve, 20);
    assert_eq!(commons.curve_state.funding, 2);
}

#[test]
fn buy_then_burn_restores_totals_where_the_mint_rounds_down() {
    let open = OpenConfig { allocation_percentage: StdDecimal::zero(), exit_tax: StdDecimal::zero() };
    let mut commons = open_commons(CurveType::Constant { value: 2, scale: 0 }, 10, 20, open);
    let bought = commons.buy("alice", 7).unwrap();
    assert_eq!(bought, BuyOutcome { minted: 3, reserved: 7, funded: 0 });
    assert_eq!(commons.curve_state.reserve, 27);
    assert_eq!(
        commons.burn(3),
        Ok(BurnOutcome { burned: 3, released: 7, taxed: 0, payout: 7 })
    );
    assert_eq!(commons.curve_state.supply, 10);
    assert_eq!(commons.curve_state.reserve, 20);
    assert_eq!(commons.curve_state.funding, 0);
}

#[test]
fn buy_then_burn_restores_totals_from_an_empty_ledger() {
    let mut msg = instantiate_msg();
    msg.curve_type = CurveType::Constant { value: 15, scale: 1 };
    msg.phase_config.hatch.initial_raise = MinMax { min: 0, max: 2_000 };
    msg.phase_config.open =
        OpenConfig { allocation_percentage: StdDecimal::zero(), exit_tax: StdDecimal::zero() };
    let mut commons = Commons::instantiate(msg, OWNER.to_string()).unwrap();
    commons.open(OWNER).unwrap();
    assert_eq!(commons.buy("alice", 2), Ok(BuyOutcome { minted: 1, reserved: 2, funded: 0 }));
    assert_eq!(commons.curve_state.reserve, 2);
    assert_eq!(commons.curve_state.supply, 1);
    assert_eq!(commons.burn(1), Ok(BurnOutcome { burned: 1, released: 2, taxed: 0, payout: 2 }));
    assert_eq!(commons.curve_state.reserve, 0);
    assert_eq!(commons.curve_state.supply, 0);
    assert_eq!(commons.curve_state.funding, 0);
}

#[test]
fn buy_then_burn_restores_reserve_and_supply_under_exit_tax() {
    let open = OpenConfig {
        allocation_percentage: StdDecimal::percent(10),
        exit_tax: StdDecimal::percent(50),
    };
    let mut commons = open_commons(CurveType::Linear { slope: 1, scale: 0 }, 4, 8, open);
    let bought = commons.buy("alice", 20).unwrap();
    assert_eq!(bought, BuyOutcome { minted: 3, reserved: 18, funded: 2 });
    assert_eq!(commons.curve_state.reserve, 26);
    assert_eq!(
        commons.burn(3),
        Ok(BurnOutcome { burned: 3, released: 18, taxed: 9, payout: 9 })
    );
    assert_eq!(commons.curve_state.supply, 4);
    assert_eq!(commons.curve_state.reserve, 8);
    assert_eq!(commons.curve_state.funding, 11);
}

#[test]
fn buy_respects_max_supply() {
    let open = OpenConfig { allocation_percentage: StdDecimal::zero(), exit_tax: StdDecimal::zero() };
    let mut commons = open_commons(CurveType::Constant { value: 2, scale: 0 }, 10, 20, open);
    assert_eq!(commons.set_max_supply("alice", Some(12)), Err(ContractError::Unauthorized));
    assert_eq!(commons.max_supply, None);
    assert_eq!(commons.set_max_supply(OWNER, Some(12)), Ok(()));
    assert_eq!(commons.max_supply, Some(12));
    let before = commons.clone();
    assert_eq!(commons.buy("alice", 6), Err(ContractError::LimitExceeded(Limit::MaxSupply)));
    assert_eq!(commons, before);
    assert_eq!(commons.buy("alice", 4), Ok(BuyOutcome { minted: 2, reserved: 4, funded: 0 }));
    assert_eq!(commons.set_max_supply(OWNER, None), Ok(()));
    assert_eq!(commons.buy("alice", 6), Ok(BuyOutcome { minted: 3, reserved: 6, funded: 0 }));
    assert_eq!(commons.set_max_supply(OWNER, Some(1)), Ok(()));
    assert_eq!(commons.curve_state.supply, 15);
}

#[test]
fn buy_reports_overflow() {
    let open = OpenConfig { allocation_percentage: StdDecimal::zero(), exit_tax: StdDecimal::zero() };
    let mut commons = open_commons(CurveType::Constant { value: 0, scale: 0 }, 10, 20, open);
    let before = commons.clone();
    assert_eq!(commons.buy("alice", 6), Err(ContractError::ArithmeticOverflow));
    assert_eq!(commons, before);
    let mut commons = open_commons(CurveType::Constant { value: 1, scale: 0 }, 10, u128::MAX, open);
    assert_eq!(commons.buy("alice", 6), Err(ContractError::ArithmeticOverflow));
    let mut commons = open_commons(CurveType::Constant { value: 3, scale: 0 }, 10, 0, open);
    commons.curve_state.funding = u128::MAX;
    commons.phase_config.open.allocation_percentage = StdDecimal::percent(50);
    assert_eq!(commons.buy("alice", 6), Err(ContractError::ArithmeticOverflow));
}

#[test]
fn burn_reports_overflow_of_the_funding_pool() {
    let open =
        OpenConfig { allocation_percentage: StdDecimal::zero(), exit_tax: StdDecimal::percent(50) };
    let mut commons = open_commons(CurveType::Constant { value: 3, scale: 0 }, 10, 30, open);
    commons.curve_state.funding = u128::MAX;
    let before = commons.clone();
    assert_eq!(commons.burn(1), Err(ContractError::ArithmeticOverflow));
    assert_eq!(commons, before);
    commons.curve_state.funding = u128::MAX - 1;
    assert_eq!(commons.burn(1), Ok(BurnOutcome { burned: 1, released: 3, taxed: 1, payout: 2 }));
    assert_eq!(commons.curve_state.funding, u128::MAX);
}

#[test]
fn donate_adds_to_funding_in_any_phase() {
    let mut commons = new_commons();
    assert_eq!(commons.donate("carol", 5), Ok(()));
    assert_eq!(commons.curve_state.funding, 5);
    assert_eq!(commons.curve_state.supply, 0);
    assert_eq!(commons.curve_state.reserve, 0);
    commons.buy("alice", 100).unwrap();
    commons.open(OWNER).unwrap();
    assert_eq!(commons.donate("carol", 7), Ok(()));
    commons.close(OWNER).unwrap();
    assert_eq!(commons.donate("alice", 1), Ok(()));
    assert_eq!(commons.donations.get("carol"), 12);
    assert_eq!(commons.donations.get("alice"), 1);
    assert_eq!(commons.donations.get("bob"), 0);
    assert_eq!(commons.curve_state.funding, 10 + 13);
    assert_eq!(commons.curve_state.supply, 45);
    let before = commons.clone();
    assert_eq!(commons.donate("bob", u128::MAX), Err(ContractError::ArithmeticOverflow));
    assert_eq!(commons, before);
}

#[test]
fn update_phase_config_only_in_its_phase() {
    let mut commons = new_commons();
    let before = commons.clone();
    let open_update = UpdatePhaseConfigMsg::Open {
        exit_tax: Some(StdDecimal::percent(1)),
        allocation_percentage: None,
    };
    let hatch_update = UpdatePhaseConfigMsg::Hatch {
        contribution_limits: None,
        exit_tax: Some(StdDecimal::percent(50)),
        initial_raise: Some(MinMax { min: 1, max: 5_000 }),
        initial_allocation_ratio: None,
    };
    assert_eq!(
        commons.update_phase_config("alice", hatch_update),
        Err(ContractError::Unauthorized)
    );
    assert_eq!(
        commons.update_phase_config(OWNER, open_update),
        Err(invalid_phase("Open", "Hatch"))
    );
    assert_eq!(
        commons.update_phase_config(OWNER, UpdatePhaseConfigMsg::Closed {}),
        Err(invalid_phase("Closed", "Hatch"))
    );
    assert_eq!(commons, before);
    assert_eq!(commons.update_phase_config(OWNER, hatch_update), Ok(()));
    assert_eq!(
        commons.phase_config.hatch,
        HatchConfig {
            contribution_limits: MinMax { min: 10, max: 1_000 },
            initial_raise: MinMax { min: 1, max: 5_000 },
            initial_price: 2,
            initial_allocation_ratio: StdDecimal::percent(10),
            exit_tax: StdDecimal::percent(50),
        }
    );
    assert_eq!(commons.phase_config.open, before.phase_config.open);

    commons.buy("alice", 100).unwrap();
    commons.open(OWNER).unwrap();
    assert_eq!(
        commons.update_phase_config(OWNER, hatch_update),
        Err(invalid_phase("Hatch", "Open"))
    );
    assert_eq!(commons.update_phase_config(OWNER, open_update), Ok(()));
    assert_eq!(
        commons.phase_config.open,
        OpenConfig {
            allocation_percentage: StdDecimal::percent(20),
            exit_tax: StdDecimal::percent(1)
        }
    );
    commons.close(OWNER).unwrap();
    let closed = commons.clone();
    assert_eq!(
        commons.update_phase_config(OWNER, open_update),
        Err(invalid_phase("Open", "Closed"))
    );
    assert_eq!(commons.update_phase_config(OWNER, UpdatePhaseConfigMsg::Closed {}), Ok(()));
    assert_eq!(commons, closed);
}

#[test]
fn update_phase_config_is_validated() {
    let mut commons = new_commons();
    let before = commons.clone();
    assert_eq!(
        commons.update_phase_config(
            OWNER,
            UpdatePhaseConfigMsg::Hatch {
                contribution_limits: Some(MinMax { min: 1, max: 2_001 }),
                exit_tax: None,
                initial_raise: None,
                initial_allocation_ratio: None,
            }
        ),
        Err(ContractError::HatchPhaseConfigError(
            "Max contribution limit cannot be greater than the maximum initial raise."
                .to_string()
        ))
    );
    assert_eq!(commons, before);
    commons.phase = CommonsPhase::Open;
    let before = commons.clone();
    assert_eq!(
        commons.update_phase_config(
            OWNER,
            UpdatePhaseConfigMsg::Open {
                exit_tax: None,
                allocation_percentage: Some(StdDecimal::percent(101)),
            }
        ),
        Err(ContractError::OpenPhaseConfigError(
            "Reserve percentage must be between 0 and 100.".to_string()
        ))
    );
    assert_eq!(commons, before);
}

#[test]
fn update_curve_is_owner_only_and_validated() {
    let mut commons = new_commons();
    commons.buy("alice", 100).unwrap();
    let before = commons.clone();
    let curve = CurveType::SquareRoot { slope: 35, scale: 2 };
    assert_eq!(commons.update_curve("alice", curve), Err(ContractError::Unauthorized));
    assert_eq!(
        commons.update_curve(OWNER, CurveType::SquareRoot { slope: 35, scale: 39 }),
        Err(ContractError::ArithmeticOverflow)
    );
    assert_eq!(commons, before);
    assert_eq!(commons.update_curve(OWNER, curve), Ok(()));
    assert_eq!(commons.curve_type, curve);
    assert_eq!(commons.curve_state, before.curve_state);
    assert_eq!(commons.hatchers, before.hatchers);
}

#[test]
fn update_hatch_allowlist_adds_and_removes() {
    let mut commons = new_commons();
    assert!(commons.is_allowed("anyone"));
    assert_eq!(
        commons.update_hatch_allowlist("alice", vec!["alice".to_string()], vec![]),
        Err(ContractError::Unauthorized)
    );
    assert_eq!(commons.hatcher_allowlist, None);
    assert_eq!(
        commons.update_hatch_allowlist(
            OWNER,
            vec!["alice".to_string(), "bob".to_string(), "alice".to_string(), "eve".to_string()],
            vec!["eve".to_string()]
        ),
        Ok(())
    );
    assert_eq!(commons.hatcher_allowlist, Some(vec!["alice".to_string(), "bob".to_string()]));
    assert!(commons.is_allowed("alice"));
    assert!(commons.is_allowed("bob"));
    assert!(!commons.is_allowed("eve"));
    assert!(!commons.is_allowed("anyone"));
    assert_eq!(
        commons.update_hatch_allowlist(
            OWNER,
            vec!["carol".to_string()],
            vec!["alice".to_string(), "zed".to_string()]
        ),
        Ok(())
    );
    assert_eq!(commons.hatcher_allowlist, Some(vec!["bob".to_string(), "carol".to_string()]));
    assert_eq!(
        commons.query_hatcher_allowlist().allowlist,
        Some(vec!["bob".to_string(), "carol".to_string()])
    );
    assert_eq!(
        commons.update_hatch_allowlist(
            OWNER,
            vec![],
            vec!["bob".to_string(), "carol".to_string()]
        ),
        Ok(())
    );
    assert_eq!(commons.hatcher_allowlist, Some(vec![]));
    assert!(!commons.is_allowed("bob"));

    commons.hatcher_allowlist = None;
    commons.buy("alice", 100).unwrap();
    commons.open(OWNER).unwrap();
    let before = commons.clone();
    assert_eq!(
        commons.update_hatch_allowlist(OWNER, vec!["alice".to_string()], vec![]),
        Err(invalid_phase("Hatch", "Open"))
    );
    assert_eq!(commons, before);
}

#[test]
fn execute_dispatches_each_command() {
    let mut commons = new_commons();
    assert_eq!(
        commons.execute("alice", 100, ExecuteMsg::Buy {}),
        Ok(ExecuteResponse::Bought(BuyOutcome { minted: 45, reserved: 90, funded: 10 }))
    );
    assert_eq!(
        commons.execute("alice", 5, ExecuteMsg::Burn {}),
        Ok(ExecuteResponse::Burned(BurnOutcome { burned: 5, released: 10, taxed: 1, payout: 9 }))
    );
    assert_eq!(commons.execute("bob", 3, ExecuteMsg::Donate {}), Ok(ExecuteResponse::Done));
    assert_eq!(commons.curve_state.funding, 14);
    assert_eq!(
        commons.execute(OWNER, 0, ExecuteMsg::SetMaxSupply { max_supply: Some(1_000) }),
        Ok(ExecuteResponse::Done)
    );
    assert_eq!(commons.max_supply, Some(1_000));
    assert_eq!(
        commons.execute(
            OWNER,
            0,
            ExecuteMsg::UpdateCurve { curve_type: CurveType::Constant { value: 1, scale: 0 } }
        ),
        Ok(ExecuteResponse::Done)
    );
    assert_eq!(commons.curve_type, CurveType::Constant { value: 1, scale: 0 });
    assert_eq!(
        commons.execute(
            OWNER,
            0,
            ExecuteMsg::UpdateHatchAllowlist { to_add: vec!["bob".to_string()], to_remove: vec![] }
        ),
        Ok(ExecuteResponse::Done)
    );
    assert_eq!(commons.hatcher_allowlist, Some(vec!["bob".to_string()]));
    assert_eq!(
        commons.execute(
            OWNER,
            0,
            ExecuteMsg::UpdatePhaseConfig(UpdatePhaseConfigMsg::Hatch {
                contribution_limits: None,
                exit_tax: None,
                initial_raise: None,
                initial_allocation_ratio: Some(StdDecimal::percent(1)),
            })
        ),
        Ok(ExecuteResponse::Done)
    );
    assert_eq!(commons.phase_config.hatch.initial_allocation_ratio, StdDecimal::percent(1));
    assert_eq!(
        commons.execute(OWNER, 0, ExecuteMsg::Close {}),
        Err(invalid_phase("Open", "Hatch"))
    );
    assert_eq!(
        commons.execute("bob", 0, ExecuteMsg::Close {}),
        Err(ContractError::Unauthorized)
    );
    commons.open(OWNER).unwrap();
    assert_eq!(commons.execute(OWNER, 0, ExecuteMsg::Close {}), Ok(ExecuteResponse::Done));
    assert_eq!(commons.phase, CommonsPhase::Closed);
}

#[test]
fn queries_answer_from_the_state() {
    let mut commons = new_commons();
    commons.buy("alice", 100).unwrap();
    commons.token_contract = "issuer".to_string();
    let info = commons.query_curve_info().unwrap();
    assert_eq!(info.reserve, 90);
    assert_eq!(info.supply, 45);
    assert_eq!(info.funding, 10);
    assert_eq!(info.spot_price, StdDecimal { atomics: 45_000_000_000_000_000_000 });
    assert_eq!(info.reserve_denom, "ureserve");
    assert_eq!(commons.query(QueryMsg::CurveInfo {}), Ok(QueryResponse::CurveInfo(info)));
    let config = commons.query_phase_config();
    assert_eq!(config.phase, CommonsPhase::Hatch);
    assert_eq!(config.phase_config, phase_config());
    assert_eq!(commons.query(QueryMsg::PhaseConfig {}), Ok(QueryResponse::PhaseConfig(config)));
    assert_eq!(commons.query_denom().denom, "ucommons");
    assert_eq!(
        commons.query(QueryMsg::Denom {}),
        Ok(QueryResponse::Denom(commons.query_denom()))
    );
    assert_eq!(
        commons.query(QueryMsg::TokenContract {}),
        Ok(QueryResponse::TokenContract("issuer".to_string()))
    );
    assert_eq!(commons.query_hatcher_allowlist().allowlist, None);
    commons.curve_type = CurveType::Linear { slope: u128::MAX, scale: 0 };
    assert_eq!(commons.query_curve_info(), Err(ContractError::ArithmeticOverflow));
    assert_eq!(commons.query(QueryMsg::CurveInfo {}), Err(ContractError::ArithmeticOverflow));
}

fn pair(address: &str, amount: u128) -> (String, u128) {
    (address.to_string(), amount)
}

#[test]
fn listings_are_paged_in_address_order() {
    let mut commons = new_commons();
    commons.donate("carol", 3).unwrap();
    commons.donate("alice", 1).unwrap();
    commons.donate("bob", 2).unwrap();
    commons.donate("alice", 10).unwrap();
    commons.buy("zoe", 50).unwrap();
    commons.buy("adam", 60).unwrap();
    assert_eq!(
        commons.query_donations(None, None).donations,
        vec![pair("alice", 11), pair("bob", 2), pair("carol", 3)]
    );
    assert_eq!(
        commons.query_donations(None, Some(2)).donations,
        vec![pair("alice", 11), pair("bob", 2)]
    );
    assert_eq!(
        commons.query_donations(Some("alice".to_string()), Some(1)).donations,
        vec![pair("bob", 2)]
    );
    assert_eq!(
        commons.query_donations(Some("b".to_string()), None).donations,
        vec![pair("bob", 2), pair("carol", 3)]
    );
    assert_eq!(commons.query_donations(Some("carol".to_string()), None).donations, vec![]);
    assert_eq!(commons.query_donations(None, Some(0)).donations, vec![]);
    assert_eq!(
        commons.query_hatchers(None, None).hatchers,
        vec![pair("adam", 60), pair("zoe", 50)]
    );
    assert_eq!(
        commons.query(QueryMsg::Hatchers { start_after: Some("adam".to_string()), limit: None }),
        Ok(QueryResponse::Hatchers(cw_abc::msg::HatchersResponse {
            hatchers: vec![pair("zoe", 50)]
        }))
    );
    assert_eq!(
        commons.query(QueryMsg::Donations { start_after: None, limit: Some(1) }),
        Ok(QueryResponse::Donations(cw_abc::msg::DonationsResponse {
            donations: vec![pair("alice", 11)]
        }))
    );
}

#[test]
fn accounts_keep_order_and_totals() {
    let mut accounts = Accounts::new();
    assert!(accounts.is_wf());
    assert_eq!(accounts.add("b", 2), Ok(2));
    assert_eq!(accounts.add("a", 1), Ok(1));
    assert_eq!(accounts.add("c", 3), Ok(3));
    assert_eq!(accounts.add("b", 5), Ok(7));
    assert_eq!(accounts.add("ab", 0), Ok(0));
    assert_eq!(
        accounts.entries,
        vec![
            Account { address: "a".to_string(), amount: 1 },
            Account { address: "ab".to_string(), amount: 0 },
            Account { address: "b".to_string(), amount: 7 },
            Account { address: "c".to_string(), amount: 3 },
        ]
    );
    assert!(accounts.is_wf());
    assert_eq!(accounts.total_amount(), 11);
    assert_eq!(accounts.get("b"), 7);
    assert_eq!(accounts.get("d"), 0);
    let before = accounts.clone();
    assert_eq!(accounts.add("d", u128::MAX - 10), Err(ContractError::ArithmeticOverflow));
    assert_eq!(accounts, before);
    assert_eq!(accounts.add("d", u128::MAX - 11), Ok(u128::MAX - 11));
    assert_eq!(accounts.page(Some("ab"), 2), vec![pair("b", 7), pair("c", 3)]);
}

#[test]
fn accounts_out_of_order_are_not_well_formed() {
    let unsorted = Accounts {
        entries: vec![
            Account { address: "b".to_string(), amount: 1 },
            Account { address: "a".to_string(), amount: 1 },
        ],
    };
    assert!(!unsorted.is_wf());
    let twice = Accounts {
        entries: vec![
            Account { address: "a".to_string(), amount: 1 },
            Account { address: "a".to_string(), amount: 1 },
        ],
    };
    assert!(!twice.is_wf());
    let too_much = Accounts {
        entries: vec![
            Account { address: "a".to_string(), amount: u128::MAX },
            Account { address: "b".to_string(), amount: 1 },
        ],
    };
    assert!(!too_much.is_wf());
}

#[test]
fn addresses_are_ordered_by_their_bytes() {
    assert_eq!(compare_addresses("a", "b"), Order::Before);
    assert_eq!(compare_addresses("b", "a"), Order::After);
    assert_eq!(compare_addresses("abc", "abc"), Order::Same);
    assert_eq!(compare_addresses("ab", "abc"), Order::Before);
    assert_eq!(compare_addresses("abc", "ab"), Order::After);
    assert_eq!(compare_addresses("", ""), Order::Same);
    assert_eq!(compare_addresses("", "a"), Order::Before);
    assert_eq!(compare_addresses("Z", "a"), Order::Before);
    assert_eq!(compare_addresses("é", "z"), Order::After);
}

#[test]
fn listed_addresses() {
    let list = vec!["alice".to_string(), "bob".to_string()];
    assert!(is_listed(&list, "alice"));
    assert!(is_listed(&list, "bob"));
    assert!(!is_listed(&list, "carol"));
    assert!(!is_listed(&vec![], "alice"));
}

#[test]
fn owner_gate() {
    let commons = new_commons();
    assert!(commons.is_owner(OWNER));
    assert!(!commons.is_owner("owne"));
    assert_eq!(commons.assert_owner(OWNER), Ok(()));
    assert_eq!(commons.assert_owner("alice"), Err(ContractError::Unauthorized));
}

#[test]
fn exit_tax_by_phase() {
    let mut commons = new_commons();
    assert_eq!(commons.current_exit_tax(), StdDecimal::percent(10));
    commons.phase = CommonsPhase::Open;
    assert_eq!(commons.current_exit_tax(), StdDecimal::percent(5));
    commons.phase = CommonsPhase::Closed;
    assert_eq!(commons.current_exit_tax(), StdDecimal::zero());
}

#[test]
fn minter_cap() {
    let mut meta = Meta {
        name: "Commons".to_string(),
        symbol: "CMN".to_string(),
        decimals: 6,
        total_supply: 1_000,
        mint: None,
    };
    assert_eq!(meta.get_cap(), None);
    meta.mint = Some(MinterData { minter: vec![1, 2, 3], cap: None });
    assert_eq!(meta.get_cap(), None);
    meta.mint = Some(MinterData { minter: vec![1, 2, 3], cap: Some(500) });
    assert_eq!(meta.get_cap(), Some(500));
}
