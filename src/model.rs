use vstd::prelude::*;

use crate::error::LedgerError;

verus! {

/// A command to the ledger, its account identifiers already validated.
#[derive(Clone, Debug)]
pub enum HandleMsg {
    Transfer { recipient: String, amount: u128 },
    Mint { recipient: String, amount: u128 },
    /// Hand the minter role over; a missing cap installs a cap of zero.
    UpdateMinter { minter: String, cap: Option<u128> },
    Freeze { address: String },
    Unfreeze { address: String },
}

/// The ledger as a mathematical value.
///
/// `balances` is total: an account that never held tokens maps to zero.
/// `minter_cap` bounds the supply at mint time; `cap` bounds a recipient's
/// balance at transfer time.
pub struct Ledger {
    pub balances: Map<Seq<char>, u128>,
    pub total_supply: u128,
    pub minter: Seq<char>,
    pub minter_cap: Option<u128>,
    pub cap: Option<u128>,
    pub frozen: Set<Seq<char>>,
}

impl Ledger {
    /// The ledger before anything happened: no tokens, no active minter, no caps.
    pub open spec fn empty() -> Ledger {
        Ledger {
            balances: Map::total(|a: Seq<char>| 0u128),
            total_supply: 0,
            minter: Seq::empty(),
            minter_cap: None,
            cap: None,
            frozen: Set::empty(),
        }
    }

    /// No balance, nor any two balances together, exceed the supply.
    pub open spec fn bounded(self) -> bool {
        &&& forall|a: Seq<char>| #[trigger] self.balances[a] <= self.total_supply
        &&& forall|a: Seq<char>, b: Seq<char>|
            a != b ==> #[trigger] self.balances[a] + #[trigger] self.balances[b] <= self.total_supply
    }

    /// The caller is the minter and the minter has a cap installed.
    pub open spec fn authorized(self, caller: Seq<char>) -> bool {
        self.minter == caller && self.minter_cap is Some
    }

    pub open spec fn with_cap(self, cap: u128) -> Ledger {
        Ledger { cap: Some(cap), ..self }
    }

    /// Installs a new minter; the cap becomes both the supply cap and the balance cap.
    pub open spec fn with_minter(self, minter: Seq<char>, cap: u128) -> Ledger {
        Ledger { minter, minter_cap: Some(cap), cap: Some(cap), ..self }
    }

    pub open spec fn frozen_with(self, a: Seq<char>) -> Ledger {
        Ledger { frozen: self.frozen.insert(a), ..self }
    }

    pub open spec fn frozen_without(self, a: Seq<char>) -> Ledger {
        Ledger { frozen: self.frozen.remove(a), ..self }
    }

    /// Minting: refused when the supply would pass the minter's cap, or
    /// would overflow; otherwise the recipient and the supply both grow by `amount`.
    pub open spec fn mint_step(self, recipient: Seq<char>, amount: u128) -> Result<Ledger, LedgerError> {
        if self.minter_cap is Some && self.total_supply + amount > self.minter_cap->0 {
            Err(LedgerError::CapExceeded)
        } else if self.total_supply + amount > u128::MAX {
            Err(LedgerError::Arithmetic)
        } else {
            Ok(
                Ledger {
                    balances: self.balances.insert(
                        recipient,
                        (self.balances[recipient] + amount) as u128,
                    ),
                    total_supply: (self.total_supply + amount) as u128,
                    ..self
                },
            )
        }
    }

    /// Transfer: a frozen sender is refused; a transfer to oneself or of
    /// nothing changes nothing; otherwise the sender must hold `amount` and the
    /// recipient's new balance must stay within the balance cap.
    pub open spec fn transfer_step(self, sender: Seq<char>, recipient: Seq<char>, amount: u128) -> Result<Ledger, LedgerError> {
        if self.frozen.contains(sender) {
            Err(LedgerError::AccountFrozen)
        } else if sender == recipient || amount == 0 {
            Ok(self)
        } else if self.balances[sender] < amount {
            Err(LedgerError::InsufficientBalance)
        } else if self.cap is Some && self.balances[recipient] + amount > self.cap->0 {
            Err(LedgerError::CapExceeded)
        } else {
            Ok(
                Ledger {
                    balances: self.balances.insert(
                        sender,
                        (self.balances[sender] - amount) as u128,
                    ).insert(recipient, (self.balances[recipient] + amount) as u128),
                    ..self
                },
            )
        }
    }

    /// A command from `sender`: every command but a transfer needs the active minter.
    pub open spec fn execute_step(self, sender: Seq<char>, msg: HandleMsg) -> Result<Ledger, LedgerError> {
        match msg {
            HandleMsg::Transfer { recipient, amount } => self.transfer_step(sender, recipient@, amount),
            HandleMsg::Mint { recipient, amount } => if self.authorized(sender) {
                self.mint_step(recipient@, amount)
            } else {
                Err(LedgerError::Unauthorized)
            },
            HandleMsg::UpdateMinter { minter, cap } => if self.authorized(sender) {
                Ok(
                    self.with_minter(
                        minter@,
                        match cap {
                            Some(c) => c,
                            None => 0,
                        },
                    ),
                )
            } else {
                Err(LedgerError::Unauthorized)
            },
            HandleMsg::Freeze { address } => if self.authorized(sender) {
                Ok(self.frozen_with(address@))
            } else {
                Err(LedgerError::Unauthorized)
            },
            HandleMsg::Unfreeze { address } => if self.authorized(sender) {
                Ok(self.frozen_without(address@))
            } else {
                Err(LedgerError::Unauthorized)
            },
        }
    }
}

} // verus!
