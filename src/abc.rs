//! The sale's configuration and its phase state machine.
use crate::error::ContractError;
use vstd::prelude::*;

verus! {

/// token_bindings::Metadata, the display metadata of a token-factory denom.
/// The library only carries it from the instantiate message to the
/// create-denom intent.
#[verifier::external_type_specification]
#[verifier::external_body]
pub struct ExMetadata(token_bindings::Metadata);

/// The token the sale issues.
#[derive(Debug)]
pub struct SupplyToken {
    /// The subdenom of the token-factory denom to create.
    pub subdenom: String,
    pub metadata: token_bindings::Metadata,
    pub decimals: u8,
}

/// The token buyers pay with.
#[derive(Clone, Debug, PartialEq, Eq)]
pub struct ReserveToken {
    pub denom: String,
    pub decimals: u8,
}

/// The addresses of a list, as character sequences.
pub open spec fn addrs(v: Seq<String>) -> Seq<Seq<char>> {
    v.map_values(|s: String| s@)
}

/// Whether `list` holds `addr`.
pub fn contains_addr(list: &Vec<String>, addr: &String) -> (r: bool)
    ensures
        r == addrs(list@).contains(addr@),
{
    let mut i: usize = 0;
    while i < list.len()
        invariant
            i <= list@.len(),
            forall|j: int| 0 <= j < i ==> list@[j]@ != addr@,
        decreases list@.len() - i,
    {
        if list[i] == *addr {
            assert(addrs(list@)[i as int] == addr@);
            return true;
        }
        i = i + 1;
    }
    proof {
        if addrs(list@).contains(addr@) {
            let j = choose|j: int| 0 <= j < addrs(list@).len() && addrs(list@)[j] == addr@;
            assert(list@[j]@ == addr@);
        }
    }
    false
}

/// The hatch phase: who may buy, how much is raised before the sale opens.
#[derive(Debug, PartialEq, Eq)]
pub struct HatchConfig {
    /// When set, only these addresses may buy during the hatch phase.
    pub allowlist: Option<Vec<String>>,
    /// The least and the most reserve the hatch phase raises.
    pub initial_raise: (u128, u128),
    pub initial_price: u128,
    pub initial_allocation: u8,
    /// The share of each hatch payment that goes to the reserve, in percent.
    pub reserve_percentage: u8,
}

impl HatchConfig {
    pub open spec fn valid(&self) -> bool {
        self.initial_raise.0 <= self.initial_raise.1 && self.reserve_percentage <= 100
    }

    /// Whether `sender` may buy during the hatch phase.
    pub open spec fn allows(&self, sender: Seq<char>) -> bool {
        match self.allowlist {
            Some(list) => addrs(list@).contains(sender),
            None => true,
        }
    }

    /// Fails when the raise bounds are reversed or the reserve share exceeds 100%.
    pub fn validate(&self) -> (r: Result<(), ContractError>)
        ensures
            r is Ok <==> self.valid(),
            r is Err ==> r matches Err(ContractError::HatchPhaseConfigError(_)),
    {
        if self.initial_raise.0 > self.initial_raise.1 {
            return Err(
                ContractError::HatchPhaseConfigError(
                    "initial raise minimum exceeds its maximum".to_string(),
                ),
            );
        }
        if self.reserve_percentage > 100 {
            return Err(
                ContractError::HatchPhaseConfigError(
                    "reserve percentage must be at most 100".to_string(),
                ),
            );
        }
        Ok(())
    }

    /// Fails with `SenderNotAllowlisted` when an allowlist is set and
    /// does not hold `sender`.
    pub fn assert_allowlisted(&self, sender: &String) -> (r: Result<(), ContractError>)
        ensures
            r is Ok <==> self.allows(sender@),
            r is Err ==> (r matches Err(ContractError::SenderNotAllowlisted { sender: s }) && s@
                == sender@),
    {
        match &self.allowlist {
            Some(list) => {
                if contains_addr(list, sender) {
                    Ok(())
                } else {
                    Err(ContractError::SenderNotAllowlisted { sender: sender.clone() })
                }
            },
            None => Ok(()),
        }
    }
}

/// The configuration of every phase of the sale.
#[derive(Debug, PartialEq, Eq)]
pub struct CommonsPhaseConfig {
    pub hatch: HatchConfig,
}

impl CommonsPhaseConfig {
    pub open spec fn valid(&self) -> bool {
        self.hatch.valid()
    }

    pub fn validate(&self) -> (r: Result<(), ContractError>)
        ensures
            r is Ok <==> self.valid(),
            r is Err ==> r matches Err(ContractError::HatchPhaseConfigError(_)),
    {
        self.hatch.validate()
    }
}

/// The hatch phase's record of who has bought.
#[derive(Clone, Debug, PartialEq, Eq)]
pub struct HatchPhase {
    pub hatchers: Vec<String>,
}

impl HatchPhase {
    /// Each hatcher is listed once.
    pub open spec fn wf(&self) -> bool {
        addrs(self.hatchers@).no_duplicates()
    }

    pub open spec fn view(&self) -> Set<Seq<char>> {
        addrs(self.hatchers@).to_set()
    }
}

/// The phase of the sale.
#[derive(Clone, Debug, PartialEq, Eq)]
pub enum CommonsPhase {
    /// Only allowlisted buyers may buy; the sale opens once enough is raised.
    Hatch(HatchPhase),
    Open,
    /// No further supply is minted.
    Closed,
}

impl CommonsPhase {
    pub open spec fn wf(&self) -> bool {
        match self {
            CommonsPhase::Hatch(h) => h.wf(),
            _ => true,
        }
    }

    /// The addresses that bought during the hatch phase; empty in other phases.
    pub open spec fn hatchers(&self) -> Set<Seq<char>> {
        match self {
            CommonsPhase::Hatch(h) => h@,
            _ => Set::empty(),
        }
    }

    /// Whether `sender` may buy in this phase.
    pub open spec fn buy_allowed(&self, config: &CommonsPhaseConfig, sender: Seq<char>) -> bool {
        match self {
            CommonsPhase::Hatch(_) => config.hatch.allows(sender),
            CommonsPhase::Open => true,
            CommonsPhase::Closed => false,
        }
    }

    /// The initial phase: hatch, with nobody having bought yet.
    pub fn new() -> (r: CommonsPhase)
        ensures
            r is Hatch,
            r.hatchers() == Set::<Seq<char>>::empty(),
            r.wf(),
    {
        let r = CommonsPhase::Hatch(HatchPhase { hatchers: Vec::new() });
        proof {
            assert(addrs(Seq::<String>::empty()) =~= Seq::<Seq<char>>::empty());
            assert(r.hatchers() =~= Set::<Seq<char>>::empty());
        }
        r
    }

    /// Fails with `PhaseClosed` once the sale is closed, and during the
    /// hatch phase with `SenderNotAllowlisted` for a buyer that the
    /// allowlist leaves out.
    pub fn assert_buy_allowed(&self, config: &CommonsPhaseConfig, sender: &String) -> (r: Result<
        (),
        ContractError,
    >)
        ensures
            r is Ok <==> self.buy_allowed(config, sender@),
            (self is Closed) ==> r == Err::<(), ContractError>(ContractError::PhaseClosed),
            (self is Hatch && r is Err) ==> (r matches Err(
                ContractError::SenderNotAllowlisted { sender: s },
            ) && s@ == sender@),
    {
        match self {
            CommonsPhase::Hatch(_) => config.hatch.assert_allowlisted(sender),
            CommonsPhase::Open => Ok(()),
            CommonsPhase::Closed => Err(ContractError::PhaseClosed),
        }
    }

    /// Adds `sender` to the hatchers during the hatch phase; other phases
    /// keep no record.
    pub fn record_hatcher(&mut self, sender: &String)
        requires
            old(self).wf(),
        ensures
            final(self).wf(),
            (*old(self) is Hatch) <==> (*final(self) is Hatch),
            (*old(self) is Open) <==> (*final(self) is Open),
            *old(self) is Hatch ==> final(self).hatchers() == old(self).hatchers().insert(sender@),
            !(*old(self) is Hatch) ==> *final(self) == *old(self),
    {
        match self {
            CommonsPhase::Hatch(h) => {
                if !contains_addr(&h.hatchers, sender) {
                    let ghost before = h.hatchers@;
                    h.hatchers.push(sender.clone());
                    proof {
                        assert(addrs(h.hatchers@) =~= addrs(before).push(sender@));
                        assert(addrs(h.hatchers@).to_set() =~= addrs(before).to_set().insert(sender@))
                            by {
                            assert forall|a: Seq<char>| #[trigger] addrs(h.hatchers@).contains(a) <==> (
                            addrs(before).contains(a) || a == sender@) by {
                                if addrs(h.hatchers@).contains(a) {
                                    let j = choose|j: int|
                                        0 <= j < addrs(h.hatchers@).len() && addrs(h.hatchers@)[j] == a;
                                    if j < before.len() {
                                        assert(addrs(before)[j] == a);
                                    }
                                }
                                if addrs(before).contains(a) {
                                    let j = choose|j: int| 0 <= j < addrs(before).len() && addrs(before)[j] == a;
                                    assert(addrs(h.hatchers@)[j] == a);
                                }
                                if a == sender@ {
                                    assert(addrs(h.hatchers@)[before.len() as int] == a);
                                }
                            }
                        }
                    }
                } else {
                    proof {
                        assert(addrs(h.hatchers@).to_set() =~= addrs(h.hatchers@).to_set().insert(sender@));
                    }
                }
            },
            _ => {},
        }
    }

    /// The phase after a buy that brought the reserve to `reserve`: the
    /// hatch phase opens once the reserve reaches the most it raises.
    pub fn maybe_transition(self, config: &CommonsPhaseConfig, reserve: u128) -> (r: CommonsPhase)
        ensures
            (self is Hatch && reserve >= config.hatch.initial_raise.1) ==> r is Open,
            !(self is Hatch && reserve >= config.hatch.initial_raise.1) ==> r == self,
    {
        match self {
            CommonsPhase::Hatch(_) => {
                if reserve >= config.hatch.initial_raise.1 {
                    CommonsPhase::Open
                } else {
                    self
                }
            },
            _ => self,
        }
    }
}

} // verus!
