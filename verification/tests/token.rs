use erc20_ledger::AccountId;
use erc20_ledger::ERC20;
use erc20_ledger::Error;

fn account(id: u128) -> AccountId {
    AccountId::from_id(id)
}

fn ledger(supply: u128, holder: AccountId) -> ERC20 {
    ERC20::new("Token".to_string(), "TOK".to_string(), 12, supply, holder)
}

#[test]
fn construction_assigns_entire_supply() {
    let a = account(1);
    let t = ERC20::new("T".to_string(), "T".to_string(), 0, 1000, a);
    assert_eq!(t.balance_of(a), 1000);
    assert_eq!(t.total_supply(), 1000);
}

#[test]
fn construction_leaves_other_accounts_empty() {
    let a = account(1);
    let b = account(2);
    let t = ERC20::new("T".to_string(), "T".to_string(), 0, 1000, a);
    assert_eq!(t.balance_of(b), 0);
    assert_eq!(t.allowance(a, b), 0);
    assert_eq!(t.allowance(b, a), 0);
}

#[test]
fn metadata_reported_verbatim() {
    let t = ledger(500, account(7));
    assert_eq!(t.name(), "Token".to_string());
    assert_eq!(t.symbol(), "TOK".to_string());
    assert_eq!(t.decimals(), 12);
    assert_eq!(t.total_supply(), 500);
}

#[test]
fn transfer_moves_funds() {
    let a = account(1);
    let b = account(2);
    let mut t = ledger(1000, a);
    assert_eq!(t.transfer(a, b, 300), Ok(()));
    assert_eq!(t.balance_of(a), 700);
    assert_eq!(t.balance_of(b), 300);
}

#[test]
fn transfer_insufficient_balance_rejected() {
    let a = account(1);
    let b = account(2);
    let mut t = ledger(100, a);
    assert_eq!(t.transfer(a, b, 101), Err(Error::InsufficientBalance));
    assert_eq!(t.balance_of(a), 100);
    assert_eq!(t.balance_of(b), 0);
}

#[test]
fn transfer_of_zero_succeeds() {
    let a = account(1);
    let b = account(2);
    let mut t = ledger(100, a);
    assert_eq!(t.transfer(a, b, 0), Ok(()));
    assert_eq!(t.balance_of(a), 100);
    assert_eq!(t.balance_of(b), 0);
    let mut empty = ledger(0, a);
    assert_eq!(empty.transfer(a, b, 0), Ok(()));
}

#[test]
fn transfer_entire_balance() {
    let a = account(1);
    let b = account(2);
    let mut t = ledger(100, a);
    assert_eq!(t.transfer(a, b, 100), Ok(()));
    assert_eq!(t.balance_of(a), 0);
    assert_eq!(t.balance_of(b), 100);
}

#[test]
fn transfer_from_account_without_entry_rejected() {
    let a = account(1);
    let b = account(2);
    let c = account(3);
    let mut t = ledger(100, a);
    assert_eq!(t.transfer(b, c, 1), Err(Error::InsufficientBalance));
    assert_eq!(t.balance_of(c), 0);
}

#[test]
fn self_transfer_is_noop() {
    let a = account(1);
    let mut t = ledger(400, a);
    assert_eq!(t.transfer(a, a, 400), Ok(()));
    assert_eq!(t.balance_of(a), 400);
}

#[test]
fn self_transfer_insufficient_rejected() {
    let a = account(1);
    let mut t = ledger(100, a);
    assert_eq!(t.transfer(a, a, 101), Err(Error::InsufficientBalance));
    assert_eq!(t.balance_of(a), 100);
}

#[test]
fn approve_overwrites_previous() {
    let a = account(1);
    let b = account(2);
    let mut t = ledger(1000, a);
    assert_eq!(t.approve(a, b, 50), Ok(()));
    assert_eq!(t.approve(a, b, 10), Ok(()));
    assert_eq!(t.allowance(a, b), 10);
}

#[test]
fn approve_leaves_other_pairs_untouched() {
    let a = account(1);
    let b = account(2);
    let c = account(3);
    let mut t = ledger(1000, a);
    assert_eq!(t.approve(a, b, 50), Ok(()));
    assert_eq!(t.approve(a, c, 70), Ok(()));
    assert_eq!(t.approve(b, a, 90), Ok(()));
    assert_eq!(t.allowance(a, b), 50);
    assert_eq!(t.allowance(a, c), 70);
    assert_eq!(t.allowance(b, a), 90);
    assert_eq!(t.balance_of(a), 1000);
}

#[test]
fn delegated_transfer_consumes_allowance() {
    let a = account(1);
    let b = account(2);
    let c = account(3);
    let mut t = ledger(500, a);
    assert_eq!(t.approve(a, b, 200), Ok(()));
    assert_eq!(t.transfer_from(b, a, c, 150), Ok(()));
    assert_eq!(t.balance_of(a), 350);
    assert_eq!(t.balance_of(c), 150);
    assert_eq!(t.allowance(a, b), 50);
}

#[test]
fn delegated_transfer_allowance_exceeded() {
    let a = account(1);
    let b = account(2);
    let c = account(3);
    let mut t = ledger(500, a);
    assert_eq!(t.approve(a, b, 200), Ok(()));
    assert_eq!(t.transfer_from(b, a, c, 150), Ok(()));
    assert_eq!(t.transfer_from(b, a, c, 100), Err(Error::AllowanceExceeded));
    assert_eq!(t.balance_of(a), 350);
    assert_eq!(t.balance_of(c), 150);
    assert_eq!(t.allowance(a, b), 50);
}

#[test]
fn delegated_transfer_insufficient_balance_keeps_allowance() {
    let a = account(1);
    let b = account(2);
    let c = account(3);
    let mut t = ledger(100, a);
    assert_eq!(t.approve(a, b, 500), Ok(()));
    assert_eq!(t.transfer_from(b, a, c, 200), Err(Error::InsufficientBalance));
    assert_eq!(t.allowance(a, b), 500);
    assert_eq!(t.balance_of(a), 100);
    assert_eq!(t.balance_of(c), 0);
}

#[test]
fn delegated_self_transfer_still_consumes_allowance() {
    let a = account(1);
    let b = account(2);
    let mut t = ledger(300, a);
    assert_eq!(t.approve(a, b, 250), Ok(()));
    assert_eq!(t.transfer_from(b, a, a, 100), Ok(()));
    assert_eq!(t.balance_of(a), 300);
    assert_eq!(t.allowance(a, b), 150);
}

#[test]
fn direct_transfer_never_consumes_allowance() {
    let a = account(1);
    let b = account(2);
    let mut t = ledger(300, a);
    assert_eq!(t.approve(a, b, 250), Ok(()));
    assert_eq!(t.transfer(a, b, 100), Ok(()));
    assert_eq!(t.allowance(a, b), 250);
}

#[test]
fn reads_are_idempotent() {
    let a = account(1);
    let b = account(2);
    let mut t = ledger(1000, a);
    assert_eq!(t.approve(a, b, 40), Ok(()));
    assert_eq!(t.transfer(a, b, 10), Ok(()));
    assert_eq!(t.balance_of(a), t.balance_of(a));
    assert_eq!(t.balance_of(b), t.balance_of(b));
    assert_eq!(t.allowance(a, b), t.allowance(a, b));
    assert_eq!(t.name(), t.name());
    assert_eq!(t.symbol(), t.symbol());
    assert_eq!(t.decimals(), t.decimals());
    assert_eq!(t.total_supply(), t.total_supply());
}

#[test]
fn largest_supply_is_transferable() {
    let a = account(1);
    let b = account(2);
    let mut t = ledger(u128::MAX, a);
    assert_eq!(t.transfer(a, b, u128::MAX), Ok(()));
    assert_eq!(t.balance_of(a), 0);
    assert_eq!(t.balance_of(b), u128::MAX);
    assert_eq!(t.transfer(b, a, 1), Ok(()));
    assert_eq!(t.balance_of(a), 1);
    assert_eq!(t.balance_of(b), u128::MAX - 1);
}

#[test]
fn conservation_across_a_workload() {
    let a = account(1);
    let b = account(2);
    let c = account(3);
    let mut t = ledger(1_000_000, a);
    let _ = t.transfer(a, b, 250_000);
    let _ = t.approve(a, c, 300_000);
    let _ = t.transfer_from(c, a, c, 300_000);
    let _ = t.transfer(b, c, 1);
    let _ = t.transfer(c, a, 100_001);
    let sum = t.balance_of(a) + t.balance_of(b) + t.balance_of(c);
    assert_eq!(sum, t.total_supply());
}
