use degenfi::bucket::Bucket;
use degenfi::error::ProtocolError;
use degenfi::folded_leverage::{AccessBadge, FoldedLeverage, LoanDue};

const E: i128 = 1_000_000_000_000_000_000;
const BADGE: u64 = 900;
const TOKEN: u64 = 1;
const USER: u64 = 7;

fn router() -> FoldedLeverage {
    let mut r = FoldedLeverage::new(BADGE);
    assert_eq!(r.new_user(100, USER), Ok(USER));
    r
}

#[test]
fn new_router_has_no_pools() {
    let r = FoldedLeverage::new(BADGE);
    assert!(!r.pool_exists(TOKEN));
    assert_eq!(r.assert_pool_exists(TOKEN), Err(ProtocolError::NoPool));
    assert_eq!(r.assert_pool_doesnt_exists(TOKEN), Ok(()));
    assert_eq!(r.access_badge_token, BADGE);
    assert!(r.user_management.account_record.is_empty());
}

#[test]
fn router_registers_users_once() {
    let mut r = router();
    assert_eq!(r.new_user(100, 8), Err(ProtocolError::AccountAlreadyRegistered));
    assert_eq!(r.new_user(101, USER), Err(ProtocolError::UserIdTaken));
    assert_eq!(r.new_user(101, 8), Ok(8));
}

#[test]
fn first_deposit_opens_pool() {
    let mut r = router();
    assert_eq!(r.deposit(USER, TOKEN, Bucket::new(TOKEN, 1000 * E)), Ok(()));
    assert!(r.pool_exists(TOKEN));
    assert_eq!(r.assert_pool_exists(TOKEN), Ok(()));
    assert_eq!(r.assert_pool_doesnt_exists(TOKEN), Err(ProtocolError::PoolExists));
    let pool = r.lending_pools.get(&TOKEN).unwrap();
    assert_eq!(pool.check_total_supplied(TOKEN), 1000 * E);
    // opening a pool does not credit the depositor
    assert_eq!(r.user_management.credit_score(USER), Some(0));
    assert_eq!(r.new_lending_pool(USER, Bucket::new(TOKEN, E)), Err(ProtocolError::PoolExists));
}

#[test]
fn later_deposit_supplies_pool() {
    let mut r = router();
    r.deposit(USER, TOKEN, Bucket::new(TOKEN, 1000 * E)).unwrap();
    assert_eq!(r.deposit(USER, TOKEN, Bucket::new(TOKEN, 500 * E)), Ok(()));
    assert_eq!(r.lending_pools.get(&TOKEN).unwrap().check_total_supplied(TOKEN), 1500 * E);
    assert_eq!(r.user_management.credit_score(USER), Some(5));
    let u = r.user_management.get_user(USER).unwrap();
    assert_eq!(u.deposit_balance.get(&TOKEN), Some(&(500 * E)));
}

#[test]
fn router_deposit_errors() {
    let mut r = router();
    assert_eq!(r.deposit(USER, 2, Bucket::new(TOKEN, E)), Err(ProtocolError::TokenMismatch));
    assert_eq!(r.deposit(USER, TOKEN, Bucket::new(TOKEN, 0)), Err(ProtocolError::EmptyDeposit));
    assert_eq!(r.new_lending_pool(USER, Bucket::new(TOKEN, 0)), Err(ProtocolError::EmptyDeposit));
    r.deposit(USER, TOKEN, Bucket::new(TOKEN, 1000 * E)).unwrap();
    assert_eq!(r.deposit(9, TOKEN, Bucket::new(TOKEN, E)), Err(ProtocolError::UnknownUser));
}

#[test]
fn router_borrow_repay_redeem() {
    let mut r = router();
    r.deposit(USER, TOKEN, Bucket::new(TOKEN, 1000 * E)).unwrap();
    r.deposit(USER, TOKEN, Bucket::new(TOKEN, 500 * E)).unwrap();
    r.user_management.add_collateral_balance(USER, TOKEN, 400 * E).unwrap();
    assert_eq!(r.borrow(USER, TOKEN, 100 * E, 55), Ok((Bucket::new(TOKEN, 99 * E), Some(55))));
    assert_eq!(r.redeem(USER, TOKEN, 10 * E), Err(ProtocolError::OutstandingLoans));
    assert_eq!(r.repay(USER, TOKEN, 55, Bucket::new(TOKEN, 107 * E)), Ok(Bucket::new(TOKEN, 8 * E)));
    assert_eq!(r.user_management.credit_score(USER), Some(45));
    assert_eq!(r.redeem(USER, TOKEN, 500 * E), Ok(Bucket::new(TOKEN, 500 * E)));
    assert_eq!(r.lending_pools.get(&TOKEN).unwrap().check_liquidity(TOKEN), Ok(1000 * E));
}

#[test]
fn router_without_pool_hands_back_empty_badge_bucket() {
    let mut r = router();
    assert_eq!(r.borrow(USER, 3, 10 * E, 1), Ok((Bucket::new(BADGE, 0), None)));
    assert_eq!(r.redeem(USER, 3, 10 * E), Ok(Bucket::new(BADGE, 0)));
    assert_eq!(r.repay(USER, 3, 1, Bucket::new(3, E)), Ok(Bucket::new(BADGE, 0)));
    assert_eq!(r.repay(USER, 3, 1, Bucket::new(4, E)), Err(ProtocolError::TokenMismatch));
}

#[test]
fn router_borrow_errors() {
    let mut r = router();
    r.deposit(USER, TOKEN, Bucket::new(TOKEN, 1000 * E)).unwrap();
    assert_eq!(r.borrow(USER, TOKEN, 10 * E, 1), Err(ProtocolError::BorrowLimitExceeded));
    assert_eq!(r.borrow(9, TOKEN, 10 * E, 1), Err(ProtocolError::UnknownUser));
    assert_eq!(r.repay(USER, TOKEN, 1, Bucket::new(TOKEN, E)), Err(ProtocolError::UnknownLoan));
}

#[test]
fn transient_token_and_badges() {
    let r = router();
    let due: LoanDue = r.create_transient_token();
    assert_eq!(due.amount_due, 0);
    let badge = AccessBadge { description: String::from("Admin authority for BasicFlashLoan") };
    assert!(!badge.description.is_empty());
}
