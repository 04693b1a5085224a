use vstd::prelude::*;

use crate::error::LedgerError;
use crate::holdings::{
    accounts_unique, balance_in, lemma_absent, lemma_balance_at, lemma_balance_le_total,
    lemma_push, lemma_two_balances_le_total, lemma_update, total_of, Holding,
};
use crate::model::{HandleMsg, Ledger};

verus! {

/// The minter record: who may mint and administer, and the supply cap it installed.
#[derive(Clone, Debug)]
pub struct MinterInfo {
    pub minter: String,
    pub cap: Option<u128>,
}

/// Static token metadata together with the live supply.
#[derive(Clone, Debug)]
pub struct TokenInfo {
    pub name: String,
    pub symbol: String,
    pub decimals: u8,
    pub total_supply: u128,
}

/// The token ledger: balances, supply, minter record, balance cap and frozen accounts.
pub struct State {
    balances: Vec<Holding>,
    total_supply: u128,
    minter: MinterInfo,
    cap: Option<u128>,
    frozen: Vec<String>,
}

fn position_of(rows: &Vec<Holding>, account: &String) -> (r: Option<usize>)
    ensures
        match r {
            Some(i) => i < rows@.len() && rows@[i as int].account@ == account@,
            None => forall|j: int| 0 <= j < rows@.len() ==> #[trigger] rows@[j].account@ != account@,
        },
{
    let mut i: usize = 0;
    while i < rows.len()
        invariant
            i <= rows@.len(),
            forall|j: int| 0 <= j < i ==> #[trigger] rows@[j].account@ != account@,
        decreases rows@.len() - i,
    {
        if rows[i].account == *account {
            return Some(i);
        }
        i = i + 1;
    }
    None
}

fn frozen_position(frozen: &Vec<String>, account: &String) -> (r: Option<usize>)
    ensures
        match r {
            Some(i) => i < frozen@.len() && frozen@[i as int]@ == account@,
            None => forall|j: int| 0 <= j < frozen@.len() ==> #[trigger] frozen@[j]@ != account@,
        },
{
    let mut i: usize = 0;
    while i < frozen.len()
        invariant
            i <= frozen@.len(),
            forall|j: int| 0 <= j < i ==> #[trigger] frozen@[j]@ != account@,
        decreases frozen@.len() - i,
    {
        if frozen[i] == *account {
            return Some(i);
        }
        i = i + 1;
    }
    None
}

impl View for State {
    type V = Ledger;

    closed spec fn view(&self) -> Ledger {
        Ledger {
            balances: Map::total(|a: Seq<char>| balance_in(self.balances@, a)),
            total_supply: self.total_supply,
            minter: self.minter.minter@,
            minter_cap: self.minter.cap,
            cap: self.cap,
            frozen: Set::new(|a: Seq<char>| self.frozen_has(a)),
        }
    }
}

impl State {
    closed spec fn frozen_has(&self, a: Seq<char>) -> bool {
        exists|i: int| 0 <= i < self.frozen@.len() && #[trigger] self.frozen@[i]@ == a
    }

    closed spec fn rows_ok(&self) -> bool {
        &&& accounts_unique(self.balances@)
        &&& forall|i: int, j: int|
            0 <= i < j < self.frozen@.len() ==> #[trigger] self.frozen@[i]@ != #[trigger] self.frozen@[j]@
    }

    /// Sum of the balances of every account that has a row in the balance table.
    pub closed spec fn sum_of_balances(&self) -> nat {
        total_of(self.balances@)
    }

    /// Every account has at most one balance row and one frozen mark, and the
    /// supply is the sum of all balances.
    pub closed spec fn wf(&self) -> bool {
        &&& self.rows_ok()
        &&& self.total_supply as nat == self.sum_of_balances()
    }

    /// In every well-formed state, which is every state that `new` and the
    /// operations produce, the supply is the sum of all balances; hence no
    /// balance, nor two balances together, exceed it.
    pub proof fn lemma_supply_is_sum(&self)
        requires
            self.wf(),
        ensures
            self@.total_supply as nat == self.sum_of_balances(),
            self@.bounded(),
    {
        assert forall|a: Seq<char>| #[trigger] self@.balances[a] <= self@.total_supply by {
            lemma_balance_le_total(self.balances@, a);
        }
        assert forall|a: Seq<char>, b: Seq<char>| a != b implies
            #[trigger] self@.balances[a] + #[trigger] self@.balances[b] <= self@.total_supply by {
            lemma_two_balances_le_total(self.balances@, a, b);
        }
    }

    /// An empty ledger with no active minter.
    pub fn new() -> (s: State)
        ensures
            s.wf(),
            s@ == Ledger::empty(),
    {
        let s = State {
            balances: Vec::new(),
            total_supply: 0,
            minter: MinterInfo { minter: String::new(), cap: None },
            cap: None,
            frozen: Vec::new(),
        };
        assert(s@.balances =~= Ledger::empty().balances);
        assert(s@.frozen =~= Set::<Seq<char>>::empty());
        s
    }

    fn balance_of_key(&self, account: &String) -> (r: u128)
        requires
            self.rows_ok(),
        ensures
            r == self@.balances[account@],
    {
        match position_of(&self.balances, account) {
            Some(i) => {
                proof {
                    lemma_balance_at(self.balances@, i as int);
                }
                self.balances[i].amount
            },
            None => {
                proof {
                    lemma_absent(self.balances@, account@);
                }
                0
            },
        }
    }

    /// Writes `amount` as the balance of `account`, leaving every other field alone.
    fn set_balance(&mut self, account: &String, amount: u128)
        requires
            old(self).rows_ok(),
        ensures
            final(self).rows_ok(),
            final(self)@ == (Ledger { balances: old(self)@.balances.insert(account@, amount), ..old(self)@ }),
            final(self).sum_of_balances() + old(self)@.balances[account@] == old(self).sum_of_balances() + amount,
    {
        match position_of(&self.balances, account) {
            Some(i) => {
                let h = Holding { account: account.clone(), amount };
                proof {
                    lemma_update(self.balances@, i as int, h);
                    lemma_balance_at(self.balances@, i as int);
                }
                self.balances.set(i, h);
            },
            None => {
                let h = Holding { account: account.clone(), amount };
                proof {
                    lemma_push(self.balances@, h);
                    lemma_absent(self.balances@, account@);
                }
                self.balances.push(h);
            },
        }
        assert(self@.balances =~= old(self)@.balances.insert(account@, amount));
        proof {
            self.lemma_same_frozen(old(self));
        }
    }

    proof fn lemma_same_frozen(&self, other: &State)
        requires
            self.frozen@ == other.frozen@,
        ensures
            self@.frozen == other@.frozen,
    {
        assert forall|a: Seq<char>| self.frozen_has(a) == other.frozen_has(a) by {}
        assert(self@.frozen =~= other@.frozen);
    }

    /// Sets the balance cap consulted by transfers.
    pub fn update_cap(&mut self, new_cap: u128)
        requires
            old(self).wf(),
        ensures
            final(self).wf(),
            final(self)@ == old(self)@.with_cap(new_cap),
    {
        self.cap = Some(new_cap);
        proof {
            self.lemma_same_frozen(old(self));
        }
        assert(self@.balances =~= old(self)@.balances);
    }

    /// The balance cap consulted by transfers; `None` means unlimited.
    pub fn cap(&self) -> (r: Option<u128>)
        ensures
            r == self@.cap,
    {
        self.cap
    }

    /// Installs `minter` with `cap`, which becomes both the supply cap and the balance cap.
    pub fn update_minter(&mut self, minter: String, cap: u128)
        requires
            old(self).wf(),
        ensures
            final(self).wf(),
            final(self)@ == old(self)@.with_minter(minter@, cap),
    {
        self.minter = MinterInfo { minter, cap: Some(cap) };
        self.cap = Some(cap);
        proof {
            self.lemma_same_frozen(old(self));
        }
        assert(self@.balances =~= old(self)@.balances);
    }

    /// The current minter record.
    pub fn minter(&self) -> (r: MinterInfo)
        ensures
            r.minter@ == self@.minter,
            r.cap == self@.minter_cap,
    {
        MinterInfo { minter: self.minter.minter.clone(), cap: self.minter.cap }
    }

    /// Mints `amount` to `recipient`, within the minter's supply cap.
    /// Whether the caller may mint is decided by `execute`.
    pub fn mint(&mut self, recipient: &str, amount: u128) -> (r: Result<(), LedgerError>)
        requires
            old(self).wf(),
        ensures
            final(self).wf(),
            match old(self)@.mint_step(recipient@, amount) {
                Ok(next) => r is Ok && final(self)@ == next,
                Err(e) => r == Err::<(), LedgerError>(e) && final(self)@ == old(self)@,
            },
    {
        let supply = self.total_supply;
        match self.minter.cap {
            Some(c) => {
                if amount > c || supply > c - amount {
                    return Err(LedgerError::CapExceeded);
                }
            },
            None => {},
        }
        let new_supply = match supply.checked_add(amount) {
            Some(n) => n,
            None => {
                return Err(LedgerError::Arithmetic);
            },
        };
        let key = recipient.to_owned();
        let held = self.balance_of_key(&key);
        proof {
            lemma_balance_le_total(self.balances@, recipient@);
        }
        self.set_balance(&key, held + amount);
        let ghost credited = *self;
        self.total_supply = new_supply;
        proof {
            self.lemma_same_frozen(&credited);
        }
        assert(self@.balances =~= credited@.balances);
        Ok(())
    }

    /// Moves `amount` from `sender` to `recipient`.
    pub fn transfer(&mut self, sender: &str, recipient: &str, amount: u128) -> (r: Result<(), LedgerError>)
        requires
            old(self).wf(),
        ensures
            final(self).wf(),
            match old(self)@.transfer_step(sender@, recipient@, amount) {
                Ok(next) => r is Ok && final(self)@ == next,
                Err(e) => r == Err::<(), LedgerError>(e) && final(self)@ == old(self)@,
            },
    {
        let from = sender.to_owned();
        let to = recipient.to_owned();
        if self.is_frozen_key(&from) {
            return Err(LedgerError::AccountFrozen);
        }
        let sender_balance = self.balance_of_key(&from);
        if from == to {
            return Ok(());
        }
        if amount == 0 {
            return Ok(());
        }
        if sender_balance < amount {
            return Err(LedgerError::InsufficientBalance);
        }
        let recipient_balance = self.balance_of_key(&to);
        proof {
            lemma_two_balances_le_total(self.balances@, sender@, recipient@);
        }
        let new_balance = recipient_balance + amount;
        match self.cap {
            Some(c) => {
                if new_balance > c {
                    return Err(LedgerError::CapExceeded);
                }
            },
            None => {},
        }
        self.set_balance(&from, sender_balance - amount);
        self.set_balance(&to, new_balance);
        Ok(())
    }

    /// Balance of `address`; zero for an account that never held tokens.
    pub fn balance(&self, address: &str) -> (r: u128)
        requires
            self.wf(),
        ensures
            r == self@.balances[address@],
    {
        let key = address.to_owned();
        self.balance_of_key(&key)
    }

    pub fn total_supply(&self) -> (r: u128)
        ensures
            r == self@.total_supply,
    {
        self.total_supply
    }

    /// Name, symbol and decimal precision of the token, with the live supply.
    pub fn token_info(&self) -> (r: TokenInfo)
        ensures
            r.name@ == "My Token"@,
            r.symbol@ == "MTK"@,
            r.decimals == 18,
            r.total_supply == self@.total_supply,
    {
        TokenInfo {
            name: String::from_str("My Token"),
            symbol: String::from_str("MTK"),
            decimals: 18,
            total_supply: self.total_supply,
        }
    }

    /// Whether `sender` may mint and administer: it is the minter, and a cap is installed.
    pub fn minter_allowed(&self, sender: &str) -> (r: bool)
        ensures
            r == self@.authorized(sender@),
    {
        let key = sender.to_owned();
        self.minter.minter == key && self.minter.cap.is_some()
    }

    fn is_frozen_key(&self, account: &String) -> (r: bool)
        ensures
            r == self@.frozen.contains(account@),
    {
        match frozen_position(&self.frozen, account) {
            Some(i) => {
                assert(self.frozen_has(account@));
                true
            },
            None => false,
        }
    }

    pub fn is_frozen(&self, address: &str) -> (r: bool)
        ensures
            r == self@.frozen.contains(address@),
    {
        let key = address.to_owned();
        self.is_frozen_key(&key)
    }

    /// Marks `address` as frozen; freezing a frozen account changes nothing.
    pub fn freeze(&mut self, address: &str) -> (r: Result<(), LedgerError>)
        requires
            old(self).wf(),
        ensures
            final(self).wf(),
            r is Ok,
            final(self)@ == old(self)@.frozen_with(address@),
    {
        let key = address.to_owned();
        match frozen_position(&self.frozen, &key) {
            Some(i) => {
                assert(self.frozen_has(address@));
                assert(self@.frozen.insert(address@) =~= self@.frozen);
            },
            None => {
                self.frozen.push(key);
                assert forall|a: Seq<char>|
                    self.frozen_has(a) == (old(self).frozen_has(a) || a == address@) by {
                    if old(self).frozen_has(a) {
                        let j = choose|j: int|
                            0 <= j < old(self).frozen@.len() && #[trigger] old(self).frozen@[j]@ == a;
                        assert(self.frozen@[j] == old(self).frozen@[j]);
                    }
                    if a == address@ {
                        assert(self.frozen@[old(self).frozen@.len() as int]@ == a);
                    }
                    if self.frozen_has(a) && a != address@ {
                        let j = choose|j: int| 0 <= j < self.frozen@.len() && #[trigger] self.frozen@[j]@ == a;
                        assert(j < old(self).frozen@.len());
                        assert(old(self).frozen@[j] == self.frozen@[j]);
                    }
                }
                assert(self@.frozen =~= old(self)@.frozen.insert(address@));
            },
        }
        assert(self@.balances =~= old(self)@.balances);
        Ok(())
    }

    /// Clears the frozen mark of `address`, frozen or not.
    pub fn unfreeze(&mut self, address: &str) -> (r: Result<(), LedgerError>)
        requires
            old(self).wf(),
        ensures
            final(self).wf(),
            r is Ok,
            final(self)@ == old(self)@.frozen_without(address@),
    {
        let key = address.to_owned();
        match frozen_position(&self.frozen, &key) {
            Some(i) => {
                let ghost before = self.frozen@;
                self.frozen.remove(i);
                assert forall|j: int| 0 <= j < self.frozen@.len() implies
                    #[trigger] self.frozen@[j] == before[if j < i { j } else { j + 1 }] by {}
                assert forall|a: Seq<char>|
                    self.frozen_has(a) == (old(self).frozen_has(a) && a != address@) by {
                    if old(self).frozen_has(a) && a != address@ {
                        let j = choose|j: int| 0 <= j < before.len() && #[trigger] before[j]@ == a;
                        assert(j != i);
                        let k = if j < i { j } else { j - 1 };
                        assert(self.frozen@[k] == before[j]);
                    }
                    if self.frozen_has(a) {
                        let k = choose|k: int| 0 <= k < self.frozen@.len() && #[trigger] self.frozen@[k]@ == a;
                        let j = if k < i { k } else { k + 1 };
                        assert(self.frozen@[k] == before[j]);
                        assert(j != i);
                    }
                }
                assert(self@.frozen =~= old(self)@.frozen.remove(address@));
            },
            None => {
                assert(!self.frozen_has(address@));
                assert(self@.frozen.remove(address@) =~= self@.frozen);
            },
        }
        assert(self@.balances =~= old(self)@.balances);
        Ok(())
    }

    /// Runs a command on behalf of `sender`.
    pub fn execute(&mut self, sender: &str, msg: &HandleMsg) -> (r: Result<(), LedgerError>)
        requires
            old(self).wf(),
        ensures
            final(self).wf(),
            match old(self)@.execute_step(sender@, *msg) {
                Ok(next) => r is Ok && final(self)@ == next,
                Err(e) => r == Err::<(), LedgerError>(e) && final(self)@ == old(self)@,
            },
    {
        match msg {
            HandleMsg::Transfer { recipient, amount } => self.transfer(sender, recipient.as_str(), *amount),
            HandleMsg::Mint { recipient, amount } => {
                if !self.minter_allowed(sender) {
                    return Err(LedgerError::Unauthorized);
                }
                self.mint(recipient.as_str(), *amount)
            },
            HandleMsg::UpdateMinter { minter, cap } => {
                if !self.minter_allowed(sender) {
                    return Err(LedgerError::Unauthorized);
                }
                let new_cap: u128 = match cap {
                    Some(c) => *c,
                    None => 0,
                };
                self.update_minter(minter.clone(), new_cap);
                Ok(())
            },
            HandleMsg::Freeze { address } => {
                if !self.minter_allowed(sender) {
                    return Err(LedgerError::Unauthorized);
                }
                self.freeze(address.as_str())
            },
            HandleMsg::Unfreeze { address } => {
                if !self.minter_allowed(sender) {
                    return Err(LedgerError::Unauthorized);
                }
                self.unfreeze(address.as_str())
            },
        }
    }
}

} // verus!
