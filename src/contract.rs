//! The sale's operations: instantiate, buy, burn and the curve query.
//!
//! Each operation takes the stored values it reads and returns the values
//! to store and the token intents to carry out; on an error nothing is to
//! be stored and nothing carried out.
use crate::abc::{CommonsPhase, CommonsPhaseConfig};
use crate::curves::{curve_of, CurveType, DecimalPlaces};
use crate::error::ContractError;
use crate::msg::{CurveInfoResponse, InstantiateMsg};
use crate::payment::{must_pay, nonpayable, paid, pays, refusal, MessageInfo};
use vstd::prelude::*;
use vstd::string::StringExecFns;

verus! {

/// The ledger of the sale.
#[derive(Clone, Debug, PartialEq, Eq)]
pub struct CurveState {
    /// The reserve tokens held.
    pub reserve: u128,
    /// The supply tokens issued.
    pub supply: u128,
    pub reserve_denom: String,
    pub decimals: DecimalPlaces,
}

impl CurveState {
    /// An empty ledger.
    pub fn new(reserve_denom: String, decimals: DecimalPlaces) -> (r: CurveState)
        ensures
            r.reserve == 0,
            r.supply == 0,
            r.reserve_denom == reserve_denom,
            r.decimals == decimals,
    {
        CurveState { reserve: 0, supply: 0, reserve_denom, decimals }
    }
}

/// A token operation for the host to carry out.
#[derive(Debug)]
pub enum Intent {
    /// Create the token-factory denom `subdenom`.
    CreateDenom { subdenom: String, metadata: token_bindings::Metadata },
    /// Mint `amount` of `denom` to `mint_to_address`.
    MintTokens { denom: String, amount: u128, mint_to_address: String },
    /// Burn `amount` of `denom` held by `burn_from_address`.
    BurnTokens { denom: String, amount: u128, burn_from_address: String },
    /// Send `amount` of `denom` to `to_address`.
    Send { to_address: String, denom: String, amount: u128 },
}

/// What instantiation stores and asks for.
#[derive(Debug)]
pub struct Instantiated {
    /// The full denom of the supply token.
    pub supply_denom: String,
    pub curve_state: CurveState,
    pub curve_type: CurveType,
    pub phase_config: CommonsPhaseConfig,
    pub phase: CommonsPhase,
    /// The creation of the supply denom.
    pub intents: Vec<Intent>,
}

/// What a buy stores and asks for.
#[derive(Debug)]
pub struct Bought {
    pub curve_state: CurveState,
    pub phase: CommonsPhase,
    /// The reserve tokens paid.
    pub payment: u128,
    /// The supply tokens minted to the buyer.
    pub minted: u128,
    /// The mint of the new supply to the buyer.
    pub intents: Vec<Intent>,
}

/// What a burn stores and asks for.
#[derive(Debug)]
pub struct Sold {
    pub curve_state: CurveState,
    /// The reserve tokens returned to the seller.
    pub released: u128,
    /// The transfer of the released reserve, then the burn of the paid supply.
    pub intents: Vec<Intent>,
}

/// Whether the sale is open after a buy from `phase` that brought the
/// reserve to `reserve`.
pub open spec fn open_after_buy(phase: CommonsPhase, config: CommonsPhaseConfig, reserve: int) -> bool {
    phase is Open || (phase is Hatch && reserve >= config.hatch.initial_raise.1)
}

/// The prefix of token-factory denoms.
pub const DENOM_PREFIX: &'static str = "factory";

/// The full denom `factory/{contract}/{subdenom}`.
pub fn full_denom(contract_address: &String, subdenom: &String) -> (r: String)
    ensures
        r@ == DENOM_PREFIX@ + "/"@ + contract_address@ + "/"@ + subdenom@,
{
    let mut r = String::from_str(DENOM_PREFIX);
    r.append("/");
    r.append(contract_address.as_str());
    r.append("/");
    r.append(subdenom.as_str());
    r
}

/// Sets the sale up: an empty ledger, the hatch phase with no hatchers,
/// and the creation of the supply denom. Fails, in this order, when funds
/// are attached, when the message is invalid (`InstantiateMsg::validate`),
/// when a token has too many decimal places, or when the curve is invalid.
pub fn instantiate(contract_address: &String, info: &MessageInfo, msg: InstantiateMsg) -> (r: Result<
    Instantiated,
    ContractError,
>)
    ensures
        r is Ok <==> (info.funds@.len() == 0 && msg.valid() && msg.supply.decimals <= 18
            && msg.reserve.decimals <= 18 && msg.curve_type.valid()),
        info.funds@.len() > 0 ==> r == Err::<Instantiated, ContractError>(
            ContractError::Payment(crate::error::PaymentError::NonPayable),
        ),
        (info.funds@.len() == 0 && msg.valid() && !(msg.supply.decimals <= 18
            && msg.reserve.decimals <= 18 && msg.curve_type.valid())) ==> r matches Err(
            ContractError::CurveConfigError(_),
        ),
        r matches Ok(i) ==> {
            &&& i.supply_denom@ == DENOM_PREFIX@ + "/"@ + contract_address@ + "/"@ + msg.supply.subdenom@
            &&& i.curve_state.reserve == 0
            &&& i.curve_state.supply == 0
            &&& i.curve_state.reserve_denom == msg.reserve.denom
            &&& i.curve_state.decimals.supply == msg.supply.decimals
            &&& i.curve_state.decimals.reserve == msg.reserve.decimals
            &&& i.curve_state.decimals.valid()
            &&& i.curve_type == msg.curve_type
            &&& i.curve_type.valid()
            &&& i.phase_config == msg.phase_config
            &&& i.phase is Hatch
            &&& i.phase.hatchers() == Set::<Seq<char>>::empty()
            &&& i.phase.wf()
            &&& i.intents@.len() == 1
            &&& i.intents@[0] is CreateDenom
            &&& i.intents@[0]->CreateDenom_subdenom == msg.supply.subdenom
            &&& i.intents@[0]->CreateDenom_metadata == msg.supply.metadata
        },
{
    match nonpayable(info) {
        Ok(()) => {},
        Err(e) => {
            return Err(ContractError::Payment(e));
        },
    }
    match msg.validate() {
        Ok(()) => {},
        Err(e) => {
            return Err(e);
        },
    }
    let decimals = match DecimalPlaces::new(msg.supply.decimals, msg.reserve.decimals) {
        Ok(d) => d,
        Err(e) => {
            return Err(e);
        },
    };
    match msg.curve_type.validate() {
        Ok(()) => {},
        Err(e) => {
            return Err(e);
        },
    }
    let supply_denom = full_denom(contract_address, &msg.supply.subdenom);
    let InstantiateMsg { supply, reserve, curve_type, phase_config } = msg;
    let curve_state = CurveState::new(reserve.denom, decimals);
    let mut intents: Vec<Intent> = Vec::new();
    intents.push(Intent::CreateDenom { subdenom: supply.subdenom, metadata: supply.metadata });
    Ok(Instantiated {
        supply_denom,
        curve_state,
        curve_type,
        phase_config,
        phase: CommonsPhase::new(),
        intents,
    })
}

/// Buys supply with the attached reserve tokens.
///
/// The payment must be one nonzero coin of the reserve denom. In the hatch
/// phase the buyer must be allowlisted and is recorded as a hatcher; once
/// closed, the sale refuses every buy. The reserve grows by the payment, the
/// supply becomes the curve's supply for the new reserve, the difference is
/// minted to the buyer, and the hatch phase opens when the new reserve
/// reaches the most the hatch raises.
pub fn execute_buy(
    curve_state: CurveState,
    phase: CommonsPhase,
    phase_config: &CommonsPhaseConfig,
    curve_type: CurveType,
    supply_denom: &String,
    info: &MessageInfo,
) -> (r: Result<Bought, ContractError>)
    requires
        curve_type.valid(),
        curve_state.decimals.valid(),
        phase.wf(),
    ensures
        !pays(info, curve_state.reserve_denom@) ==> (r is Err && r->Err_0 is Payment && refusal(
            info,
            curve_state.reserve_denom@,
            r->Err_0->Payment_0,
        )),
        pays(info, curve_state.reserve_denom@) && phase is Closed ==> r == Err::<Bought, ContractError>(
            ContractError::PhaseClosed,
        ),
        pays(info, curve_state.reserve_denom@) && phase is Hatch && !phase_config.hatch.allows(
            info.sender@,
        ) ==> (r matches Err(ContractError::SenderNotAllowlisted { sender: s }) && s@ == info.sender@),
        ({
            let curve = curve_of(curve_type, curve_state.decimals);
            let reserve = curve_state.reserve + paid(info);
            (pays(info, curve_state.reserve_denom@) && phase.buy_allowed(phase_config, info.sender@))
                ==> {
                &&& r is Err <==> (reserve > u128::MAX || curve.supply_numerator(reserve) > u128::MAX
                    || curve.supply_spec(reserve) < curve_state.supply)
                &&& r is Err ==> r == Err::<Bought, ContractError>(ContractError::Overflow)
            }
        }),
        r matches Ok(b) ==> {
            let curve = curve_of(curve_type, curve_state.decimals);
            let reserve = curve_state.reserve + paid(info);
            let supply = curve.supply_spec(reserve);
            &&& pays(info, curve_state.reserve_denom@)
            &&& phase.buy_allowed(phase_config, info.sender@)
            &&& b.payment == paid(info)
            &&& b.curve_state.reserve == reserve
            &&& b.curve_state.supply == supply
            &&& b.curve_state.reserve_denom == curve_state.reserve_denom
            &&& b.curve_state.decimals == curve_state.decimals
            &&& b.minted == supply - curve_state.supply
            &&& b.phase.wf()
            &&& b.curve_state.supply >= curve_state.supply
            &&& b.phase is Open <==> open_after_buy(phase, *phase_config, reserve)
            &&& b.phase is Hatch ==> b.phase.hatchers() == phase.hatchers().insert(info.sender@)
            &&& !(b.phase is Closed)
            &&& b.intents@ == seq![
                Intent::MintTokens {
                    denom: *supply_denom,
                    amount: b.minted,
                    mint_to_address: info.sender,
                },
            ]
        },
{
    let payment = match must_pay(info, &curve_state.reserve_denom) {
        Ok(p) => p,
        Err(e) => {
            return Err(ContractError::Payment(e));
        },
    };
    match phase.assert_buy_allowed(phase_config, &info.sender) {
        Ok(()) => {},
        Err(e) => {
            return Err(e);
        },
    }
    let mut phase = phase;
    phase.record_hatcher(&info.sender);
    let reserve = match curve_state.reserve.checked_add(payment) {
        Some(x) => x,
        None => {
            return Err(ContractError::Overflow);
        },
    };
    let curve = curve_type.to_curve(curve_state.decimals);
    let supply = match curve.supply(reserve) {
        Ok(x) => x,
        Err(e) => {
            return Err(e);
        },
    };
    let minted = match supply.checked_sub(curve_state.supply) {
        Some(x) => x,
        None => {
            return Err(ContractError::Overflow);
        },
    };
    let phase = phase.maybe_transition(phase_config, reserve);
    let mut intents: Vec<Intent> = Vec::new();
    intents.push(
        Intent::MintTokens {
            denom: supply_denom.clone(),
            amount: minted,
            mint_to_address: info.sender.clone(),
        },
    );
    let CurveState { reserve_denom, decimals, .. } = curve_state;
    Ok(Bought {
        curve_state: CurveState { reserve, supply, reserve_denom, decimals },
        phase,
        payment,
        minted,
        intents,
    })
}

/// Burns `amount` supply tokens, attached to the message, and returns the
/// reserve they release.
///
/// The payment must be one nonzero coin of the supply denom, of exactly
/// `amount`. The supply drops by `amount`, the reserve becomes the curve's
/// reserve for the new supply, and the difference goes to the seller.
pub fn execute_sell(
    curve_state: CurveState,
    curve_type: CurveType,
    supply_denom: &String,
    info: &MessageInfo,
    amount: u128,
) -> (r: Result<Sold, ContractError>)
    requires
        curve_type.valid(),
        curve_state.decimals.valid(),
    ensures
        !pays(info, supply_denom@) ==> (r is Err && r->Err_0 is Payment && refusal(
            info,
            supply_denom@,
            r->Err_0->Payment_0,
        )),
        pays(info, supply_denom@) && paid(info) != amount ==> r == Err::<Sold, ContractError>(
            ContractError::BurnPaymentMismatch { amount, paid: paid(info) },
        ),
        ({
            let curve = curve_of(curve_type, curve_state.decimals);
            let supply = curve_state.supply - amount;
            (pays(info, supply_denom@) && paid(info) == amount) ==> {
                &&& r is Err <==> (supply < 0 || curve.reserve_numerator(supply) > u128::MAX
                    || curve.reserve_spec(supply) > curve_state.reserve)
                &&& r is Err ==> r == Err::<Sold, ContractError>(ContractError::Overflow)
            }
        }),
        r matches Ok(s) ==> {
            let curve = curve_of(curve_type, curve_state.decimals);
            let supply = curve_state.supply - amount;
            let reserve = curve.reserve_spec(supply);
            &&& pays(info, supply_denom@)
            &&& paid(info) == amount
            &&& s.curve_state.supply == supply
            &&& s.curve_state.reserve == reserve
            &&& s.curve_state.reserve_denom == curve_state.reserve_denom
            &&& s.curve_state.decimals == curve_state.decimals
            &&& s.released == curve_state.reserve - reserve
            &&& s.intents@ == seq![
                Intent::Send {
                    to_address: info.sender,
                    denom: curve_state.reserve_denom,
                    amount: s.released,
                },
                Intent::BurnTokens {
                    denom: *supply_denom,
                    amount,
                    burn_from_address: info.sender,
                },
            ]
        },
{
    let payment = match must_pay(info, supply_denom) {
        Ok(p) => p,
        Err(e) => {
            return Err(ContractError::Payment(e));
        },
    };
    if payment != amount {
        return Err(ContractError::BurnPaymentMismatch { amount, paid: payment });
    }
    let supply = match curve_state.supply.checked_sub(amount) {
        Some(x) => x,
        None => {
            return Err(ContractError::Overflow);
        },
    };
    let curve = curve_type.to_curve(curve_state.decimals);
    let reserve = match curve.reserve(supply) {
        Ok(x) => x,
        Err(e) => {
            return Err(e);
        },
    };
    let released = match curve_state.reserve.checked_sub(reserve) {
        Some(x) => x,
        None => {
            return Err(ContractError::Overflow);
        },
    };
    let mut intents: Vec<Intent> = Vec::new();
    intents.push(
        Intent::Send {
            to_address: info.sender.clone(),
            denom: curve_state.reserve_denom.clone(),
            amount: released,
        },
    );
    intents.push(
        Intent::BurnTokens {
            denom: supply_denom.clone(),
            amount,
            burn_from_address: info.sender.clone(),
        },
    );
    let CurveState { reserve_denom, decimals, .. } = curve_state;
    Ok(Sold { curve_state: CurveState { reserve, supply, reserve_denom, decimals }, released, intents })
}

/// The reserve, the supply, and the curve's spot price at that supply.
/// Fails with `Overflow` exactly when the price does not fit in `u128`.
pub fn query_curve_info(curve_state: &CurveState, curve_type: CurveType) -> (r: Result<
    CurveInfoResponse,
    ContractError,
>)
    requires
        curve_type.valid(),
        curve_state.decimals.valid(),
    ensures
        r is Ok <==> curve_of(curve_type, curve_state.decimals).spot_price_fits(curve_state.supply as int),
        r is Err ==> r == Err::<CurveInfoResponse, ContractError>(ContractError::Overflow),
        r matches Ok(i) ==> {
            &&& i.reserve == curve_state.reserve
            &&& i.supply == curve_state.supply
            &&& i.spot_price == curve_of(curve_type, curve_state.decimals).spot_price_spec(
                curve_state.supply as int,
            )
            &&& i.reserve_denom == curve_state.reserve_denom
        },
{
    let curve = curve_type.to_curve(curve_state.decimals);
    match curve.spot_price(curve_state.supply) {
        Ok(spot_price) => Ok(CurveInfoResponse {
            reserve: curve_state.reserve,
            supply: curve_state.supply,
            spot_price,
            reserve_denom: curve_state.reserve_denom.clone(),
        }),
        Err(e) => Err(e),
    }
}

proof fn lemma_phase_prefix(
    config: CommonsPhaseConfig,
    phases: Seq<CommonsPhase>,
    reserves: Seq<int>,
    k: int,
)
    requires
        phases.len() == reserves.len() + 1,
        phases[0] is Hatch,
        forall|i: int|
            0 <= i < reserves.len() ==> ((#[trigger] phases[i + 1]) is Open) == open_after_buy(
                phases[i],
                config,
                reserves[i],
            ) && !(phases[i + 1] is Closed),
        forall|i: int, j: int| 0 <= i <= j < reserves.len() ==> reserves[i] <= reserves[j],
        0 <= k < reserves.len(),
    ensures
        (phases[k + 1] is Open) == (reserves[k] >= config.hatch.initial_raise.1),
    decreases k,
{
    assert(phases[k + 1] is Open == open_after_buy(phases[k], config, reserves[k]));
    if k > 0 {
        lemma_phase_prefix(config, phases, reserves, k - 1);
        assert(phases[(k - 1) + 1] is Open == open_after_buy(phases[k - 1], config, reserves[k - 1]));
        assert(reserves[k - 1] <= reserves[k]);
    }
}

/// Phase transition: along a run of buys that starts in the hatch phase,
/// with the reserve never falling from one buy to the next, the sale is
/// open after a buy exactly when that buy brought the reserve to the most
/// the hatch raises; so it opens on the buy that crosses that bound and
/// stays open after every later buy.
pub proof fn lemma_phase_opens_at_threshold(
    config: CommonsPhaseConfig,
    phases: Seq<CommonsPhase>,
    reserves: Seq<int>,
)
    requires
        phases.len() == reserves.len() + 1,
        phases[0] is Hatch,
        forall|i: int|
            0 <= i < reserves.len() ==> ((#[trigger] phases[i + 1]) is Open) == open_after_buy(
                phases[i],
                config,
                reserves[i],
            ) && !(phases[i + 1] is Closed),
        forall|i: int, j: int| 0 <= i <= j < reserves.len() ==> reserves[i] <= reserves[j],
    ensures
        forall|i: int|
            0 <= i < reserves.len() ==> ((#[trigger] phases[i + 1]) is Open) == (reserves[i]
                >= config.hatch.initial_raise.1),
        forall|i: int, j: int|
            0 <= i <= j < reserves.len() && (#[trigger] phases[i + 1]) is Open ==> (
            #[trigger] phases[j + 1]) is Open,
{
    assert forall|i: int| 0 <= i < reserves.len() implies ((#[trigger] phases[i + 1]) is Open) == (
    reserves[i] >= config.hatch.initial_raise.1) by {
        lemma_phase_prefix(config, phases, reserves, i);
    }
    assert forall|i: int, j: int|
        0 <= i <= j < reserves.len() && (#[trigger] phases[i + 1]) is Open implies (
        #[trigger] phases[j + 1]) is Open by {
        lemma_phase_prefix(config, phases, reserves, i);
        lemma_phase_prefix(config, phases, reserves, j);
    }
}

} // verus!
