use vstd::prelude::*;

verus! {

/// Why a ledger operation was refused. A refused operation changes nothing.
#[derive(Clone, Copy, Debug, PartialEq, Eq, Structural)]
pub enum LedgerError {
    /// The caller is not the active minter.
    Unauthorized,
    /// The sender holds less than the amount to move.
    InsufficientBalance,
    /// The supply or the recipient's balance would pass the configured cap.
    CapExceeded,
    /// The sender's account is frozen.
    AccountFrozen,
    /// An account identifier was malformed; raised by address validation
    /// before a command reaches the ledger.
    InvalidAddress,
    /// A credit would overflow the balance or supply type.
    Arithmetic,
}

} // verus!
