use cw_abc::abc::{CommonsPhase, CommonsPhaseConfig, HatchConfig, HatchPhase, ReserveToken, SupplyToken};
use cw_abc::contract::{
    execute_buy, execute_sell, full_denom, instantiate, query_curve_info, CurveState, Intent,
};
use cw_abc::curves::{CurveType, DecimalPlaces};
use cw_abc::error::{ContractError, PaymentError};
use cw_abc::msg::InstantiateMsg;
use cw_abc::payment::{Coin, MessageInfo};
use token_bindings::Metadata;

const DENOM: &str = "satoshi";
const CREATOR: &str = "creator";
const INVESTOR: &str = "investor";
const BUYER: &str = "buyer";
const SUPPLY_DENOM: &str = "subdenom";
const CONTRACT: &str = "contract";

fn default_supply_metadata() -> Metadata {
    Metadata {
        name: Some("Bonded".to_string()),
        symbol: Some("EPOXY".to_string()),
        description: None,
        denom_units: vec![],
        base: None,
        display: None,
    }
}

fn hatch_config(allowlist: Option<Vec<String>>) -> HatchConfig {
    HatchConfig {
        allowlist,
        initial_raise: (1, 100),
        initial_price: 1,
        initial_allocation: 10,
        reserve_percentage: 10,
    }
}

fn default_instantiate(decimals: u8, reserve_decimals: u8, curve_type: CurveType) -> InstantiateMsg {
    InstantiateMsg {
        supply: SupplyToken {
            subdenom: SUPPLY_DENOM.to_string(),
            metadata: default_supply_metadata(),
            decimals,
        },
        reserve: ReserveToken { denom: DENOM.to_string(), decimals: reserve_decimals },
        curve_type,
        phase_config: CommonsPhaseConfig { hatch: hatch_config(None) },
    }
}

fn info(sender: &str, funds: &[(u128, &str)]) -> MessageInfo {
    MessageInfo {
        sender: sender.to_string(),
        funds: funds.iter().map(|(a, d)| Coin { denom: d.to_string(), amount: *a }).collect(),
    }
}

fn linear() -> CurveType {
    CurveType::Linear { slope: 1, scale: 1 }
}

fn square_root() -> CurveType {
    CurveType::SquareRoot { slope: 1, scale: 1 }
}

fn fresh_state() -> CurveState {
    CurveState::new(DENOM.to_string(), DecimalPlaces::new(2, 8).unwrap())
}

fn open_config() -> CommonsPhaseConfig {
    CommonsPhaseConfig { hatch: hatch_config(None) }
}

fn supply_denom() -> String {
    full_denom(&CONTRACT.to_string(), &SUPPLY_DENOM.to_string())
}

#[test]
fn proper_instantiation() {
    let creator = String::from("creator");
    let curve_type = CurveType::SquareRoot { slope: 1, scale: 1 };
    let msg = default_instantiate(2, 8, curve_type);
    let res = instantiate(&CONTRACT.to_string(), &info(&creator, &[]), msg).unwrap();
    assert_eq!(res.intents.len(), 1);
    match &res.intents[0] {
        Intent::CreateDenom { subdenom, metadata } => {
            assert_eq!(subdenom, SUPPLY_DENOM);
            assert_eq!(metadata, &default_supply_metadata());
        }
        other => panic!("unexpected intent {:?}", other),
    }

    // curve state is sensible
    let state = query_curve_info(&res.curve_state, res.curve_type).unwrap();
    assert_eq!(state.reserve, 0);
    assert_eq!(state.supply, 0);
    assert_eq!(state.reserve_denom.as_str(), DENOM);
    // spot price 0 as supply is 0
    assert_eq!(state.spot_price, 0);

    // curve type is stored properly
    assert_eq!(curve_type, res.curve_type);
}

#[test]
fn instantiate_sets_denom_and_hatch_phase() {
    let res = instantiate(&CONTRACT.to_string(), &info(CREATOR, &[]), default_instantiate(2, 8, linear())).unwrap();
    assert_eq!(res.supply_denom, "factory/contract/subdenom");
    assert_eq!(res.phase, CommonsPhase::Hatch(HatchPhase { hatchers: vec![] }));
    assert_eq!(res.curve_state.decimals, DecimalPlaces { supply: 2, reserve: 8 });
    assert_eq!(res.phase_config, open_config());
}

#[test]
fn instantiate_rejects_funds() {
    let err = instantiate(&CONTRACT.to_string(), &info(CREATOR, &[(5, DENOM)]), default_instantiate(2, 8, linear()))
        .unwrap_err();
    assert_eq!(err, ContractError::Payment(PaymentError::NonPayable));
}

#[test]
fn instantiate_rejects_empty_subdenom() {
    let mut msg = default_instantiate(2, 8, linear());
    msg.supply.subdenom = String::new();
    let err = instantiate(&CONTRACT.to_string(), &info(CREATOR, &[]), msg).unwrap_err();
    assert!(matches!(err, ContractError::SupplyTokenError(_)));
}

#[test]
fn instantiate_rejects_bad_phase_config() {
    let mut msg = default_instantiate(2, 8, linear());
    msg.phase_config.hatch.initial_raise = (200, 100);
    let err = instantiate(&CONTRACT.to_string(), &info(CREATOR, &[]), msg).unwrap_err();
    assert!(matches!(err, ContractError::HatchPhaseConfigError(_)));

    let mut msg = default_instantiate(2, 8, linear());
    msg.phase_config.hatch.reserve_percentage = 101;
    let err = instantiate(&CONTRACT.to_string(), &info(CREATOR, &[]), msg).unwrap_err();
    assert!(matches!(err, ContractError::HatchPhaseConfigError(_)));
}

#[test]
fn instantiate_rejects_bad_curve() {
    let err = instantiate(&CONTRACT.to_string(), &info(CREATOR, &[]), default_instantiate(19, 8, linear()))
        .unwrap_err();
    assert!(matches!(err, ContractError::CurveConfigError(_)));
    let zero = CurveType::Linear { slope: 0, scale: 1 };
    let err = instantiate(&CONTRACT.to_string(), &info(CREATOR, &[]), default_instantiate(2, 8, zero)).unwrap_err();
    assert!(matches!(err, ContractError::CurveConfigError(_)));
    let wide = CurveType::Constant { value: 1, scale: 19 };
    let err = instantiate(&CONTRACT.to_string(), &info(CREATOR, &[]), default_instantiate(2, 8, wide)).unwrap_err();
    assert!(matches!(err, ContractError::CurveConfigError(_)));
}

#[test]
fn buy_issues_tokens() {
    let config = open_config();
    let denom = supply_denom();
    // 5 BTC = 5*10^8 satoshi buys 10.00 EPOXY
    let b = execute_buy(fresh_state(), CommonsPhase::Open, &config, linear(), &denom, &info(INVESTOR, &[(500_000_000, DENOM)]))
        .unwrap();
    assert_eq!(b.minted, 1000);
    assert_eq!(b.payment, 500_000_000);
    match &b.intents[..] {
        [Intent::MintTokens { denom: d, amount, mint_to_address }] => {
            assert_eq!(d, &denom);
            assert_eq!(*amount, 1000);
            assert_eq!(mint_to_address, INVESTOR);
        }
        other => panic!("unexpected intents {:?}", other),
    }
    // the next 10.00 EPOXY cost more
    let b = execute_buy(b.curve_state, b.phase, &config, linear(), &denom, &info(BUYER, &[(1_500_000_000, DENOM)])).unwrap();
    assert_eq!(b.minted, 1000);
    let curve = query_curve_info(&b.curve_state, linear()).unwrap();
    assert_eq!(curve.reserve, 2_000_000_000);
    assert_eq!(curve.supply, 2000);
    assert_eq!(curve.spot_price, 2_000_000_000_000_000_000);
}

#[test]
fn bonding_fails_with_wrong_denom() {
    let config = open_config();
    let denom = supply_denom();
    let buy = |i: MessageInfo| execute_buy(fresh_state(), CommonsPhase::Open, &config, linear(), &denom, &i);
    assert_eq!(buy(info(INVESTOR, &[])).unwrap_err(), ContractError::Payment(PaymentError::NoFunds));
    assert_eq!(buy(info(INVESTOR, &[(0, DENOM)])).unwrap_err(), ContractError::Payment(PaymentError::NoFunds));
    assert_eq!(
        buy(info(INVESTOR, &[(1234567, "wei")])).unwrap_err(),
        ContractError::Payment(PaymentError::MissingDenom(DENOM.to_string()))
    );
    assert_eq!(
        buy(info(INVESTOR, &[(3400022, DENOM), (1234567, "wei")])).unwrap_err(),
        ContractError::Payment(PaymentError::MultipleDenoms)
    );
}

#[test]
fn burning_sends_reserve() {
    let config = open_config();
    let denom = supply_denom();
    let b = execute_buy(fresh_state(), CommonsPhase::Open, &config, linear(), &denom, &info(INVESTOR, &[(2_000_000_000, DENOM)]))
        .unwrap();
    assert_eq!(b.minted, 2000);

    // cannot burn more than the supply
    let err = execute_sell(b.curve_state.clone(), linear(), &denom, &info(INVESTOR, &[(3000, denom.as_str())]), 3000)
        .unwrap_err();
    assert_eq!(err, ContractError::Overflow);

    // burn 10.00 EPOXY to get back 15 BTC
    let s = execute_sell(b.curve_state, linear(), &denom, &info(INVESTOR, &[(1000, denom.as_str())]), 1000).unwrap();
    assert_eq!(s.released, 1_500_000_000);
    match &s.intents[..] {
        [Intent::Send { to_address, denom: reserve_denom, amount }, Intent::BurnTokens { denom: d, amount: burned, burn_from_address }] => {
            assert_eq!(to_address, INVESTOR);
            assert_eq!(reserve_denom, DENOM);
            assert_eq!(*amount, 1_500_000_000);
            assert_eq!(d, &denom);
            assert_eq!(*burned, 1000);
            assert_eq!(burn_from_address, INVESTOR);
        }
        other => panic!("unexpected intents {:?}", other),
    }
    let curve = query_curve_info(&s.curve_state, linear()).unwrap();
    assert_eq!(curve.reserve, 500_000_000);
    assert_eq!(curve.supply, 1000);
    assert_eq!(curve.spot_price, 1_000_000_000_000_000_000);
}

#[test]
fn sell_requires_matching_payment() {
    let config = open_config();
    let denom = supply_denom();
    let b = execute_buy(fresh_state(), CommonsPhase::Open, &config, linear(), &denom, &info(INVESTOR, &[(2_000_000_000, DENOM)]))
        .unwrap();
    let err = execute_sell(b.curve_state.clone(), linear(), &denom, &info(INVESTOR, &[(900, denom.as_str())]), 1000)
        .unwrap_err();
    assert_eq!(err, ContractError::BurnPaymentMismatch { amount: 1000, paid: 900 });
    let err = execute_sell(b.curve_state.clone(), linear(), &denom, &info(INVESTOR, &[(1000, DENOM)]), 1000).unwrap_err();
    assert_eq!(err, ContractError::Payment(PaymentError::MissingDenom(denom.clone())));
    let s = execute_sell(b.curve_state, linear(), &denom, &info(INVESTOR, &[(1000, denom.as_str())]), 1000).unwrap();
    assert_eq!(s.curve_state.supply, 1000);
}

#[test]
fn hatch_allowlist_is_enforced() {
    let config = CommonsPhaseConfig { hatch: hatch_config(Some(vec![INVESTOR.to_string()])) };
    let denom = supply_denom();
    let phase = CommonsPhase::Hatch(HatchPhase { hatchers: vec![] });
    let err = execute_buy(fresh_state(), phase.clone(), &config, linear(), &denom, &info(BUYER, &[(10, DENOM)]))
        .unwrap_err();
    assert_eq!(err, ContractError::SenderNotAllowlisted { sender: BUYER.to_string() });
    let b = execute_buy(fresh_state(), phase.clone(), &config, linear(), &denom, &info(INVESTOR, &[(10, DENOM)])).unwrap();
    assert_eq!(b.phase, CommonsPhase::Hatch(HatchPhase { hatchers: vec![INVESTOR.to_string()] }));
    // a second buy records the hatcher once
    let b = execute_buy(b.curve_state, b.phase, &config, linear(), &denom, &info(INVESTOR, &[(10, DENOM)])).unwrap();
    assert_eq!(b.phase, CommonsPhase::Hatch(HatchPhase { hatchers: vec![INVESTOR.to_string()] }));
    // an empty allowlist admits nobody
    let closed_list = CommonsPhaseConfig { hatch: hatch_config(Some(vec![])) };
    let err = execute_buy(fresh_state(), phase, &closed_list, linear(), &denom, &info(INVESTOR, &[(10, DENOM)]))
        .unwrap_err();
    assert_eq!(err, ContractError::SenderNotAllowlisted { sender: INVESTOR.to_string() });
}

#[test]
fn hatch_opens_on_the_buy_that_reaches_the_raise() {
    let config = open_config();
    let denom = supply_denom();
    let b = execute_buy(fresh_state(), CommonsPhase::Hatch(HatchPhase { hatchers: vec![] }), &config, linear(), &denom, &info(INVESTOR, &[(60, DENOM)]))
        .unwrap();
    assert_eq!(b.phase, CommonsPhase::Hatch(HatchPhase { hatchers: vec![INVESTOR.to_string()] }));
    let b = execute_buy(b.curve_state, b.phase, &config, linear(), &denom, &info(BUYER, &[(39, DENOM)])).unwrap();
    assert_eq!(b.curve_state.reserve, 99);
    assert!(matches!(b.phase, CommonsPhase::Hatch(_)));
    let b = execute_buy(b.curve_state, b.phase, &config, linear(), &denom, &info(BUYER, &[(1, DENOM)])).unwrap();
    assert_eq!(b.curve_state.reserve, 100);
    assert_eq!(b.phase, CommonsPhase::Open);
    let b = execute_buy(b.curve_state, b.phase, &config, linear(), &denom, &info(BUYER, &[(5, DENOM)])).unwrap();
    assert_eq!(b.phase, CommonsPhase::Open);
}

#[test]
fn closed_sale_refuses_buys() {
    let err = execute_buy(fresh_state(), CommonsPhase::Closed, &open_config(), linear(), &supply_denom(), &info(BUYER, &[(10, DENOM)]))
        .unwrap_err();
    assert_eq!(err, ContractError::PhaseClosed);
}

#[test]
fn buy_conserves_reserve() {
    let config = open_config();
    let denom = supply_denom();
    let before = fresh_state();
    let b = execute_buy(before.clone(), CommonsPhase::Open, &config, square_root(), &denom, &info(BUYER, &[(100_000_000, DENOM)]))
        .unwrap();
    assert_eq!(b.curve_state.reserve, before.reserve + 100_000_000);
    assert_eq!(b.curve_state.supply, 608);
    assert!(b.curve_state.supply >= before.supply);
}

#[test]
fn sell_conserves_supply() {
    let config = open_config();
    let denom = supply_denom();
    let b = execute_buy(fresh_state(), CommonsPhase::Open, &config, square_root(), &denom, &info(BUYER, &[(100_000_000, DENOM)]))
        .unwrap();
    let s = execute_sell(b.curve_state, square_root(), &denom, &info(BUYER, &[(8, denom.as_str())]), 8).unwrap();
    assert_eq!(s.curve_state.supply, 600);
    let curve = CurveType::SquareRoot { slope: 1, scale: 1 }.to_curve(DecimalPlaces::new(2, 8).unwrap());
    let reserve = curve.reserve(600).unwrap();
    assert_eq!(s.curve_state.reserve, reserve);
    assert_eq!(s.released, 100_000_000 - reserve);
}

#[test]
fn overflowing_buy_fails() {
    let config = open_config();
    let denom = supply_denom();
    let mut state = fresh_state();
    state.reserve = u128::MAX - 5;
    let err = execute_buy(state, CommonsPhase::Open, &config, linear(), &denom, &info(BUYER, &[(10, DENOM)])).unwrap_err();
    assert_eq!(err, ContractError::Overflow);
    // the curve's numerator leaves u128
    let mut state = fresh_state();
    state.reserve = u128::MAX / 2;
    let err = execute_buy(state, CommonsPhase::Open, &config, square_root(), &denom, &info(BUYER, &[(10, DENOM)])).unwrap_err();
    assert_eq!(err, ContractError::Overflow);
}

#[test]
fn overflowing_sell_fails() {
    let mut state = fresh_state();
    state.supply = 1_844_674_407_370_957;
    state.reserve = u128::MAX;
    let denom = supply_denom();
    let err = execute_sell(state, linear(), &denom, &info(BUYER, &[(1, denom.as_str())]), 1).unwrap_err();
    assert_eq!(err, ContractError::Overflow);
}

#[test]
fn square_root_first_buy_example() {
    let res = instantiate(&CONTRACT.to_string(), &info(CREATOR, &[]), default_instantiate(2, 8, square_root())).unwrap();
    let b = execute_buy(res.curve_state, res.phase, &res.phase_config, res.curve_type, &res.supply_denom, &info(INVESTOR, &[(1, DENOM)]))
        .unwrap();
    assert_eq!(b.curve_state.reserve, 1);
    let curve = square_root().to_curve(DecimalPlaces::new(2, 8).unwrap());
    let q = query_curve_info(&b.curve_state, res.curve_type).unwrap();
    assert_eq!(q.reserve, 1);
    assert_eq!(q.supply, curve.supply(1).unwrap());
    assert_eq!(q.supply, 0);
    assert_eq!(q.spot_price, curve.spot_price(q.supply).unwrap());
    assert_eq!(q.spot_price, 0);
    assert_eq!(q.reserve_denom, DENOM);
    assert!(matches!(b.phase, CommonsPhase::Hatch(_)));
}
