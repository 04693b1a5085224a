use cw20_ledger::error::LedgerError;
use cw20_ledger::model::HandleMsg;
use cw20_ledger::state::State;

fn ledger_with_minter(minter: &str, cap: u128) -> State {
    let mut s = State::new();
    s.update_minter(minter.to_string(), cap);
    s
}

fn mint_msg(recipient: &str, amount: u128) -> HandleMsg {
    HandleMsg::Mint { recipient: recipient.to_string(), amount }
}

fn transfer_msg(recipient: &str, amount: u128) -> HandleMsg {
    HandleMsg::Transfer { recipient: recipient.to_string(), amount }
}

#[test]
fn new_ledger_is_empty() {
    let s = State::new();
    assert_eq!(s.total_supply(), 0);
    assert_eq!(s.balance("alice"), 0);
    assert_eq!(s.cap(), None);
    assert!(!s.is_frozen("alice"));
    let m = s.minter();
    assert_eq!(m.minter, "");
    assert_eq!(m.cap, None);
    assert!(!s.minter_allowed(""));
}

#[test]
fn mint_cap_and_transfer_scenario() {
    let mut s = ledger_with_minter("M", 1000);
    assert_eq!(s.execute("M", &mint_msg("alice", 600)), Ok(()));
    assert_eq!(s.total_supply(), 600);
    assert_eq!(s.execute("M", &mint_msg("alice", 500)), Err(LedgerError::CapExceeded));
    assert_eq!(s.total_supply(), 600);
    assert_eq!(s.balance("alice"), 600);
    assert_eq!(s.execute("alice", &transfer_msg("bob", 600)), Ok(()));
    assert_eq!(s.balance("alice"), 0);
    assert_eq!(s.balance("bob"), 600);
    assert_eq!(s.total_supply(), 600);
}

#[test]
fn mint_up_to_cap_exactly() {
    let mut s = ledger_with_minter("M", 1000);
    assert_eq!(s.mint("alice", 1000), Ok(()));
    assert_eq!(s.total_supply(), 1000);
    assert_eq!(s.mint("bob", 1), Err(LedgerError::CapExceeded));
    assert_eq!(s.balance("bob"), 0);
}

#[test]
fn mint_adds_to_existing_balance() {
    let mut s = ledger_with_minter("M", 1000);
    assert_eq!(s.mint("alice", 100), Ok(()));
    assert_eq!(s.mint("bob", 50), Ok(()));
    assert_eq!(s.mint("alice", 25), Ok(()));
    assert_eq!(s.balance("alice"), 125);
    assert_eq!(s.balance("bob"), 50);
    assert_eq!(s.total_supply(), 175);
}

#[test]
fn mint_without_cap_overflow_is_arithmetic_error() {
    let mut s = State::new();
    assert_eq!(s.mint("alice", u128::MAX), Ok(()));
    assert_eq!(s.total_supply(), u128::MAX);
    assert_eq!(s.mint("bob", 1), Err(LedgerError::Arithmetic));
    assert_eq!(s.balance("bob"), 0);
    assert_eq!(s.total_supply(), u128::MAX);
}

#[test]
fn transfer_moves_exact_amount() {
    let mut s = ledger_with_minter("M", 1000);
    s.mint("alice", 300).unwrap();
    assert_eq!(s.transfer("alice", "bob", 120), Ok(()));
    assert_eq!(s.balance("alice"), 180);
    assert_eq!(s.balance("bob"), 120);
    assert_eq!(s.total_supply(), 300);
}

#[test]
fn transfer_insufficient_balance() {
    let mut s = ledger_with_minter("M", 1000);
    s.mint("alice", 10).unwrap();
    assert_eq!(s.transfer("alice", "bob", 11), Err(LedgerError::InsufficientBalance));
    assert_eq!(s.balance("alice"), 10);
    assert_eq!(s.balance("bob"), 0);
}

#[test]
fn transfer_to_self_or_zero_is_noop() {
    let mut s = ledger_with_minter("M", 1000);
    s.mint("alice", 10).unwrap();
    assert_eq!(s.transfer("alice", "alice", 500), Ok(()));
    assert_eq!(s.transfer("alice", "bob", 0), Ok(()));
    assert_eq!(s.transfer("nobody", "bob", 0), Ok(()));
    assert_eq!(s.balance("alice"), 10);
    assert_eq!(s.balance("bob"), 0);
    assert_eq!(s.total_supply(), 10);
}

#[test]
fn transfer_over_recipient_cap_rolls_back() {
    let mut s = ledger_with_minter("M", 1000);
    s.mint("alice", 600).unwrap();
    s.mint("bob", 300).unwrap();
    s.update_cap(800);
    assert_eq!(s.cap(), Some(800));
    assert_eq!(s.transfer("alice", "bob", 501), Err(LedgerError::CapExceeded));
    assert_eq!(s.balance("alice"), 600);
    assert_eq!(s.balance("bob"), 300);
    assert_eq!(s.transfer("alice", "bob", 500), Ok(()));
    assert_eq!(s.balance("bob"), 800);
}

#[test]
fn frozen_sender_cannot_transfer() {
    let mut s = ledger_with_minter("M", 1000);
    s.mint("alice", 100).unwrap();
    assert_eq!(s.execute("M", &HandleMsg::Freeze { address: "alice".to_string() }), Ok(()));
    assert!(s.is_frozen("alice"));
    assert_eq!(s.transfer("alice", "bob", 50), Err(LedgerError::AccountFrozen));
    assert_eq!(s.transfer("alice", "bob", 0), Err(LedgerError::AccountFrozen));
    assert_eq!(s.transfer("alice", "alice", 5), Err(LedgerError::AccountFrozen));
    assert_eq!(s.balance("alice"), 100);
    assert_eq!(s.transfer("bob", "alice", 0), Ok(()));
    assert_eq!(s.execute("M", &HandleMsg::Unfreeze { address: "alice".to_string() }), Ok(()));
    assert_eq!(s.transfer("alice", "bob", 50), Ok(()));
    assert_eq!(s.balance("bob"), 50);
}

#[test]
fn unauthorized_commands_change_nothing() {
    let mut s = ledger_with_minter("M", 1000);
    s.mint("alice", 100).unwrap();
    let cmds = vec![
        mint_msg("eve", 5),
        HandleMsg::Freeze { address: "alice".to_string() },
        HandleMsg::Unfreeze { address: "alice".to_string() },
        HandleMsg::UpdateMinter { minter: "eve".to_string(), cap: Some(10) },
    ];
    for cmd in cmds.iter() {
        assert_eq!(s.execute("eve", cmd), Err(LedgerError::Unauthorized));
    }
    assert_eq!(s.balance("eve"), 0);
    assert_eq!(s.total_supply(), 100);
    assert!(!s.is_frozen("alice"));
    assert_eq!(s.minter().minter, "M");
    assert_eq!(s.minter().cap, Some(1000));
}

#[test]
fn minter_without_cap_is_not_authorized() {
    let mut s = State::new();
    assert!(!s.minter_allowed(""));
    assert_eq!(s.execute("", &mint_msg("alice", 1)), Err(LedgerError::Unauthorized));
    assert_eq!(s.total_supply(), 0);
}

#[test]
fn freeze_twice_and_unfreeze_never_frozen() {
    let mut s = ledger_with_minter("M", 1000);
    assert_eq!(s.freeze("x"), Ok(()));
    assert!(s.is_frozen("x"));
    assert_eq!(s.freeze("x"), Ok(()));
    assert!(s.is_frozen("x"));
    assert_eq!(s.unfreeze("x"), Ok(()));
    assert!(!s.is_frozen("x"));
    assert_eq!(s.unfreeze("y"), Ok(()));
    assert!(!s.is_frozen("y"));
}

#[test]
fn update_minter_hands_over_role_and_cap() {
    let mut s = ledger_with_minter("M", 1000);
    let msg = HandleMsg::UpdateMinter { minter: "N".to_string(), cap: Some(50) };
    assert_eq!(s.execute("M", &msg), Ok(()));
    assert!(!s.minter_allowed("M"));
    assert!(s.minter_allowed("N"));
    assert_eq!(s.cap(), Some(50));
    assert_eq!(s.execute("M", &mint_msg("alice", 1)), Err(LedgerError::Unauthorized));
    assert_eq!(s.execute("N", &mint_msg("alice", 51)), Err(LedgerError::CapExceeded));
    assert_eq!(s.execute("N", &mint_msg("alice", 50)), Ok(()));
}

#[test]
fn update_minter_without_cap_installs_zero() {
    let mut s = ledger_with_minter("M", 1000);
    let msg = HandleMsg::UpdateMinter { minter: "N".to_string(), cap: None };
    assert_eq!(s.execute("M", &msg), Ok(()));
    assert_eq!(s.minter().cap, Some(0));
    assert_eq!(s.cap(), Some(0));
    assert_eq!(s.execute("N", &mint_msg("alice", 1)), Err(LedgerError::CapExceeded));
}

#[test]
fn token_info_reports_metadata_and_supply() {
    let mut s = ledger_with_minter("M", 1000);
    s.mint("alice", 42).unwrap();
    let info = s.token_info();
    assert_eq!(info.name, "My Token");
    assert_eq!(info.symbol, "MTK");
    assert_eq!(info.decimals, 18);
    assert_eq!(info.total_supply, 42);
}
