use vstd::prelude::*;

use crate::error::LedgerError;
use crate::model::{HandleMsg, Ledger};

verus! {

/// Minting within the supply cap (or with no cap, without overflow) raises the
/// supply and the recipient's balance by exactly `amount` and touches no other
/// account; past the cap it is refused with `CapExceeded`.
pub proof fn law_mint(l: Ledger, recipient: Seq<char>, amount: u128)
    requires
        l.bounded(),
    ensures
        (l.minter_cap is Some && l.total_supply + amount > l.minter_cap->0)
            ==> l.mint_step(recipient, amount) == Err::<Ledger, LedgerError>(LedgerError::CapExceeded),
        (l.minter_cap is None || l.total_supply + amount <= l.minter_cap->0)
            && l.total_supply + amount <= u128::MAX ==> {
            &&& l.mint_step(recipient, amount) is Ok
            &&& l.mint_step(recipient, amount)->Ok_0.total_supply == l.total_supply + amount
            &&& l.mint_step(recipient, amount)->Ok_0.balances[recipient] == l.balances[recipient] + amount
            &&& forall|a: Seq<char>| a != recipient
                ==> #[trigger] l.mint_step(recipient, amount)->Ok_0.balances[a] == l.balances[a]
        },
{
}

/// A transfer from an unfrozen sender to another account, of at most the
/// sender's balance and within the recipient's cap, moves exactly `amount`
/// from one to the other and leaves the supply and every other account alone.
pub proof fn law_transfer_moves(l: Ledger, sender: Seq<char>, recipient: Seq<char>, amount: u128)
    requires
        l.bounded(),
        !l.frozen.contains(sender),
        sender != recipient,
        amount <= l.balances[sender],
        l.cap is None || l.balances[recipient] + amount <= l.cap->0,
    ensures
        l.transfer_step(sender, recipient, amount) is Ok,
        l.transfer_step(sender, recipient, amount)->Ok_0.balances[sender] == l.balances[sender] - amount,
        l.transfer_step(sender, recipient, amount)->Ok_0.balances[recipient] == l.balances[recipient] + amount,
        l.transfer_step(sender, recipient, amount)->Ok_0.total_supply == l.total_supply,
        forall|a: Seq<char>| a != sender && a != recipient
            ==> #[trigger] l.transfer_step(sender, recipient, amount)->Ok_0.balances[a] == l.balances[a],
{
    assert(l.balances[sender] + l.balances[recipient] <= l.total_supply);
}

/// A transfer of nothing, or to oneself, from an unfrozen sender succeeds and
/// changes nothing.
pub proof fn law_transfer_trivial(l: Ledger, sender: Seq<char>, recipient: Seq<char>, amount: u128)
    requires
        !l.frozen.contains(sender),
        amount == 0 || sender == recipient,
    ensures
        l.transfer_step(sender, recipient, amount) == Ok::<Ledger, LedgerError>(l),
{
}

/// Any transfer from a frozen account is refused with `AccountFrozen`,
/// whatever the amount, also when sent as a command.
pub proof fn law_frozen_sender(l: Ledger, sender: Seq<char>, recipient: String, amount: u128)
    requires
        l.frozen.contains(sender),
    ensures
        l.transfer_step(sender, recipient@, amount) == Err::<Ledger, LedgerError>(LedgerError::AccountFrozen),
        l.execute_step(sender, HandleMsg::Transfer { recipient, amount })
            == Err::<Ledger, LedgerError>(LedgerError::AccountFrozen),
{
}

/// Every command but a transfer, sent by anyone but the active minter, is
/// refused with `Unauthorized`.
pub proof fn law_unauthorized(l: Ledger, sender: Seq<char>, msg: HandleMsg)
    requires
        !l.authorized(sender),
        !(msg is Transfer),
    ensures
        l.execute_step(sender, msg) == Err::<Ledger, LedgerError>(LedgerError::Unauthorized),
{
}

/// Freezing twice is freezing once, and the account is frozen after each.
pub proof fn law_freeze_idempotent(l: Ledger, a: Seq<char>)
    ensures
        l.frozen_with(a).frozen.contains(a),
        l.frozen_with(a).frozen_with(a) == l.frozen_with(a),
{
    assert(l.frozen_with(a).frozen_with(a).frozen =~= l.frozen_with(a).frozen);
}

/// Unfreezing an account that is not frozen changes nothing, and leaves it unfrozen.
pub proof fn law_unfreeze_unfrozen(l: Ledger, a: Seq<char>)
    requires
        !l.frozen.contains(a),
    ensures
        l.frozen_without(a) == l,
        !l.frozen_without(a).frozen.contains(a),
{
    assert(l.frozen_without(a).frozen =~= l.frozen);
}

} // verus!
