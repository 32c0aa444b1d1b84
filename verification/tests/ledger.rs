use escrow::address::Address;
use escrow::ledger::{Ledger, LedgerError, Step, TokenAccount};

fn a(n: u8) -> Address {
    Address { bytes: [n; 32] }
}

fn held(l: &Ledger, account: u8) -> Option<u64> {
    l.account(&a(account)).map(|t| t.amount)
}

/// Owner 1 holds 100 of mint 9 at 20 and nothing at 21; owner 2 holds 5 of
/// mint 8 at 30.
fn books() -> Ledger {
    let mut l = Ledger::new();
    assert_eq!(l.issue(a(20), a(9), a(1), 100), Ok(()));
    assert_eq!(l.open_account(a(21), a(9), a(1)), Ok(()));
    assert_eq!(l.issue(a(30), a(8), a(2), 5), Ok(()));
    l
}

#[test]
fn a_new_ledger_has_no_accounts() {
    let l = Ledger::new();
    assert_eq!(l.account(&a(20)), None);
}

#[test]
fn issue_and_open_make_accounts() {
    let l = books();
    assert_eq!(
        l.account(&a(20)),
        Some(TokenAccount { address: a(20), mint: a(9), owner: a(1), amount: 100 })
    );
    assert_eq!(
        l.account(&a(21)),
        Some(TokenAccount { address: a(21), mint: a(9), owner: a(1), amount: 0 })
    );
    assert_eq!(l.account(&a(22)), None);
}

#[test]
fn an_address_is_used_once() {
    let mut l = books();
    assert_eq!(l.issue(a(20), a(8), a(2), 1), Err(LedgerError::AddressInUse));
    assert_eq!(l.open_account(a(21), a(8), a(2)), Err(LedgerError::AddressInUse));
    assert_eq!(
        l.account(&a(20)),
        Some(TokenAccount { address: a(20), mint: a(9), owner: a(1), amount: 100 })
    );
}

#[test]
fn transfer_moves_the_amount() {
    let mut l = books();
    assert_eq!(l.transfer(a(20), a(21), 40, a(1)), Ok(()));
    assert_eq!(held(&l, 20), Some(60));
    assert_eq!(held(&l, 21), Some(40));
    assert_eq!(held(&l, 30), Some(5));
}

#[test]
fn transfer_of_nothing_and_of_everything() {
    let mut l = books();
    assert_eq!(l.transfer(a(20), a(21), 0, a(1)), Ok(()));
    assert_eq!((held(&l, 20), held(&l, 21)), (Some(100), Some(0)));
    assert_eq!(l.transfer(a(20), a(21), 100, a(1)), Ok(()));
    assert_eq!((held(&l, 20), held(&l, 21)), (Some(0), Some(100)));
}

#[test]
fn transfer_to_the_same_account_changes_nothing() {
    let mut l = books();
    assert_eq!(l.transfer(a(20), a(20), 100, a(1)), Ok(()));
    assert_eq!(held(&l, 20), Some(100));
    assert_eq!(l.transfer(a(20), a(20), 101, a(1)), Err(LedgerError::InsufficientFunds));
    assert_eq!(l.transfer(a(20), a(20), 1, a(2)), Err(LedgerError::OwnerMismatch));
}

#[test]
fn transfer_refusals_in_their_order() {
    let mut l = books();
    assert_eq!(l.transfer(a(99), a(21), 1, a(1)), Err(LedgerError::AccountNotFound));
    assert_eq!(l.transfer(a(20), a(99), 1, a(1)), Err(LedgerError::AccountNotFound));
    assert_eq!(l.transfer(a(20), a(30), 1000, a(7)), Err(LedgerError::MintMismatch));
    assert_eq!(l.transfer(a(20), a(21), 1000, a(7)), Err(LedgerError::OwnerMismatch));
    assert_eq!(l.transfer(a(20), a(21), 101, a(1)), Err(LedgerError::InsufficientFunds));
    assert_eq!((held(&l, 20), held(&l, 21), held(&l, 30)), (Some(100), Some(0), Some(5)));
}

#[test]
fn transfer_that_would_overflow() {
    let mut l = books();
    assert_eq!(l.issue(a(22), a(9), a(3), u64::MAX - 10), Ok(()));
    assert_eq!(l.transfer(a(20), a(22), 11, a(1)), Err(LedgerError::BalanceOverflow));
    assert_eq!((held(&l, 20), held(&l, 22)), (Some(100), Some(u64::MAX - 10)));
    assert_eq!(l.transfer(a(20), a(22), 10, a(1)), Ok(()));
    assert_eq!((held(&l, 20), held(&l, 22)), (Some(90), Some(u64::MAX)));
}

#[test]
fn close_takes_an_empty_account_away() {
    let mut l = books();
    assert_eq!(l.close_account(a(21), a(1), a(1)), Ok(()));
    assert_eq!(l.account(&a(21)), None);
    assert_eq!(held(&l, 20), Some(100));
    assert_eq!(l.close_account(a(21), a(1), a(1)), Err(LedgerError::AccountNotFound));
}

#[test]
fn close_refusals_in_their_order() {
    let mut l = books();
    assert_eq!(l.close_account(a(99), a(1), a(1)), Err(LedgerError::AccountNotFound));
    assert_eq!(l.close_account(a(20), a(1), a(2)), Err(LedgerError::OwnerMismatch));
    assert_eq!(l.close_account(a(20), a(1), a(1)), Err(LedgerError::NonZeroBalance));
    assert_eq!(held(&l, 20), Some(100));
}

#[test]
fn apply_performs_each_kind_of_step() {
    let mut l = books();
    assert_eq!(l.apply(&Step::Open { account: a(22), mint: a(9), owner: a(3) }), Ok(()));
    assert_eq!(
        l.apply(&Step::Transfer { from: a(20), to: a(22), amount: 100, authority: a(1) }),
        Ok(())
    );
    assert_eq!(
        l.apply(&Step::Close { account: a(20), destination: a(1), authority: a(1) }),
        Ok(())
    );
    assert_eq!(l.account(&a(20)), None);
    assert_eq!(
        l.account(&a(22)),
        Some(TokenAccount { address: a(22), mint: a(9), owner: a(3), amount: 100 })
    );
    assert_eq!(
        l.apply(&Step::Open { account: a(22), mint: a(9), owner: a(3) }),
        Err(LedgerError::AddressInUse)
    );
}

#[test]
fn execute_performs_a_whole_batch() {
    let mut l = books();
    let steps = vec![
        Step::Open { account: a(22), mint: a(9), owner: a(3) },
        Step::Transfer { from: a(20), to: a(22), amount: 70, authority: a(1) },
        Step::Transfer { from: a(22), to: a(21), amount: 20, authority: a(3) },
        Step::Transfer { from: a(20), to: a(21), amount: 30, authority: a(1) },
        Step::Close { account: a(20), destination: a(3), authority: a(1) },
    ];
    assert_eq!(l.execute(&steps), Ok(()));
    assert_eq!(l.account(&a(20)), None);
    assert_eq!((held(&l, 21), held(&l, 22)), (Some(50), Some(50)));
}

#[test]
fn execute_undoes_a_batch_that_fails_late() {
    let mut l = books();
    let steps = vec![
        Step::Open { account: a(22), mint: a(9), owner: a(3) },
        Step::Transfer { from: a(20), to: a(22), amount: 70, authority: a(1) },
        Step::Close { account: a(20), destination: a(3), authority: a(1) },
    ];
    assert_eq!(l.execute(&steps), Err(LedgerError::NonZeroBalance));
    assert_eq!(l.account(&a(22)), None);
    assert_eq!(held(&l, 20), Some(100));
}

#[test]
fn execute_of_no_steps_changes_nothing() {
    let mut l = books();
    assert_eq!(l.execute(&Vec::new()), Ok(()));
    assert_eq!((held(&l, 20), held(&l, 21), held(&l, 30)), (Some(100), Some(0), Some(5)));
}

#[test]
fn prepare_leaves_the_ledger_alone() {
    let l = books();
    let steps = vec![Step::Transfer { from: a(20), to: a(21), amount: 1, authority: a(1) }];
    let after = l.prepare(&steps).unwrap();
    assert_eq!((held(&l, 20), held(&l, 21)), (Some(100), Some(0)));
    assert_eq!((held(&after, 20), held(&after, 21), held(&after, 30)), (Some(99), Some(1), Some(5)));
    let bad = vec![Step::Transfer { from: a(20), to: a(21), amount: 101, authority: a(1) }];
    assert_eq!(l.prepare(&bad).err(), Some(LedgerError::InsufficientFunds));
}
