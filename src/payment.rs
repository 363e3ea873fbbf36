//! The sender of a message and the funds attached to it.
use crate::error::PaymentError;
use vstd::prelude::*;

verus! {

/// An amount of one denom.
#[derive(Clone, Debug, PartialEq, Eq)]
pub struct Coin {
    pub denom: String,
    pub amount: u128,
}

/// Who sent a message, and what was attached to it.
#[derive(Clone, Debug, PartialEq, Eq)]
pub struct MessageInfo {
    pub sender: String,
    pub funds: Vec<Coin>,
}

/// The funds are exactly one nonzero coin of `denom`.
pub open spec fn pays(info: &MessageInfo, denom: Seq<char>) -> bool {
    &&& info.funds@.len() == 1
    &&& info.funds@[0].amount > 0
    &&& info.funds@[0].denom@ == denom
}

/// The amount of the first coin attached.
pub open spec fn paid(info: &MessageInfo) -> u128 {
    info.funds@[0].amount
}

/// The error for funds that do not pay `denom`: `NoFunds` for no coin or a
/// zero one, `MultipleDenoms` for several, `MissingDenom(denom)` for one
/// nonzero coin of another denom.
pub open spec fn refusal(info: &MessageInfo, denom: Seq<char>, e: PaymentError) -> bool {
    if info.funds@.len() == 0 || (info.funds@.len() == 1 && paid(info) == 0) {
        e == PaymentError::NoFunds
    } else if info.funds@.len() > 1 {
        e == PaymentError::MultipleDenoms
    } else {
        e is MissingDenom && e->MissingDenom_0@ == denom
    }
}

/// Relies on cw_utils::must_pay: it returns the amount of the single coin
/// sent when that coin is nonzero and of `denom`; otherwise `NoFunds` for no
/// coin or a zero one, `MultipleDenoms` for several, `MissingDenom(denom)`
/// for one of another denom.
#[verifier::external_body]
pub(crate) fn must_pay(info: &MessageInfo, denom: &String) -> (r: Result<u128, PaymentError>)
    ensures
        (r is Ok) == pays(info, denom@),
        pays(info, denom@) ==> (r == Ok::<u128, PaymentError>(paid(info))),
        (r is Err) ==> refusal(info, denom@, r->Err_0),
{
    let funds = info.funds.iter().map(|c| cosmwasm_std::Coin::new(c.amount, c.denom.clone())).collect();
    let info = cosmwasm_std::MessageInfo { sender: cosmwasm_std::Addr::unchecked(info.sender.clone()), funds };
    match cw_utils::must_pay(&info, denom) {
        Ok(a) => Ok(a.u128()),
        Err(cw_utils::PaymentError::MissingDenom(d)) => Err(PaymentError::MissingDenom(d)),
        Err(cw_utils::PaymentError::ExtraDenom(d)) => Err(PaymentError::ExtraDenom(d)),
        Err(cw_utils::PaymentError::MultipleDenoms {}) => Err(PaymentError::MultipleDenoms),
        Err(cw_utils::PaymentError::NoFunds {}) => Err(PaymentError::NoFunds),
        Err(cw_utils::PaymentError::NonPayable {}) => Err(PaymentError::NonPayable),
    }
}

/// Relies on cw_utils::nonpayable: it accepts a message with no funds
/// attached and refuses any other with `NonPayable`.
#[verifier::external_body]
pub(crate) fn nonpayable(info: &MessageInfo) -> (r: Result<(), PaymentError>)
    ensures
        (r is Ok) == (info.funds@.len() == 0),
        (r is Err) ==> (r == Err::<(), PaymentError>(PaymentError::NonPayable)),
{
    let funds = info.funds.iter().map(|c| cosmwasm_std::Coin::new(c.amount, c.denom.clone())).collect();
    let info = cosmwasm_std::MessageInfo { sender: cosmwasm_std::Addr::unchecked(info.sender.clone()), funds };
    match cw_utils::nonpayable(&info) {
        Ok(()) => Ok(()),
        Err(_) => Err(PaymentError::NonPayable),
    }
}

} // verus!
