use degenfi::bucket::Bucket;
use degenfi::collateral_pool::CollateralPool;
use degenfi::error::ProtocolError;
use degenfi::lending_pool::{LendingPool, Status};
use degenfi::user_management::UserManagement;

const E: i128 = 1_000_000_000_000_000_000;
const TOKEN: u64 = 1;
const USER: u64 = 7;

fn setup() -> (UserManagement, LendingPool, CollateralPool) {
    let mut users = UserManagement::new();
    assert_eq!(users.new_user(100, USER), Ok(USER));
    let mut pool = LendingPool::new(Bucket::new(TOKEN, 1000 * E)).unwrap();
    let mut collateral = CollateralPool::new(TOKEN);
    assert_eq!(pool.deposit(&mut users, USER, TOKEN, Bucket::new(TOKEN, 500 * E)), Ok(()));
    assert_eq!(collateral.deposit(&mut users, USER, TOKEN, Bucket::new(TOKEN, 400 * E)), Ok(()));
    (users, pool, collateral)
}

fn collateral_of(users: &UserManagement, token: u64) -> Option<i128> {
    users.get_user(USER).unwrap().collateral_balance.get(&token).copied()
}

fn deposit_of(users: &UserManagement, token: u64) -> Option<i128> {
    users.get_user(USER).unwrap().deposit_balance.get(&token).copied()
}

#[test]
fn new_collateral_pool_is_empty() {
    let pool = CollateralPool::new(TOKEN);
    assert_eq!(pool, CollateralPool { token: TOKEN, liquidity: 0, close_factor: 500_000_000_000_000_000 });
    assert_eq!(pool.addresses(), vec![TOKEN]);
    assert!(pool.belongs_to_pool(TOKEN));
    assert!(!pool.belongs_to_pool(2));
    assert_eq!(pool.check_total_collateral_supplied(TOKEN), Ok(0));
    assert_eq!(pool.check_total_collateral_supplied(2), Err(ProtocolError::NotInPool));
}

#[test]
fn deposit_posts_collateral() {
    let (users, _, collateral) = setup();
    assert_eq!(collateral_of(&users, TOKEN), Some(400 * E));
    assert_eq!(collateral.check_total_collateral_supplied(TOKEN), Ok(400 * E));
}

#[test]
fn collateral_deposit_errors() {
    let (mut users, _, mut collateral) = setup();
    assert_eq!(collateral.deposit(&mut users, USER, 2, Bucket::new(TOKEN, E)), Err(ProtocolError::TokenMismatch));
    assert_eq!(collateral.deposit(&mut users, 9, TOKEN, Bucket::new(TOKEN, E)), Err(ProtocolError::UnknownUser));
    assert_eq!(collateral.deposit(&mut users, USER, 2, Bucket::new(2, E)), Err(ProtocolError::NotInPool));
    assert_eq!(collateral_of(&users, 2), None);
    assert_eq!(collateral.check_total_collateral_supplied(TOKEN), Ok(400 * E));
}

#[test]
fn withdraw_vault_bounds() {
    let (_, _, mut collateral) = setup();
    assert_eq!(collateral.withdraw_vault(401 * E), Err(ProtocolError::InsufficientLiquidity));
    assert_eq!(collateral.withdraw_vault(-1), Err(ProtocolError::InvalidAmount));
    assert_eq!(collateral.withdraw_vault(100 * E), Ok(Bucket::new(TOKEN, 100 * E)));
    assert_eq!(collateral.liquidity, 300 * E);
}

#[test]
fn deposit_additional_needs_loan() {
    let (mut users, mut pool, mut collateral) = setup();
    assert_eq!(
        collateral.deposit_additional(&mut users, &mut pool, USER, 55, TOKEN, Bucket::new(TOKEN, E)),
        Err(ProtocolError::UnknownLoan)
    );
    pool.borrow(&mut users, USER, TOKEN, 100 * E, 55).unwrap();
    assert_eq!(
        collateral.deposit_additional(&mut users, &mut pool, USER, 55, 2, Bucket::new(TOKEN, E)),
        Err(ProtocolError::TokenMismatch)
    );
    assert_eq!(collateral.deposit_additional(&mut users, &mut pool, USER, 55, TOKEN, Bucket::new(TOKEN, 50 * E)), Ok(()));
    assert_eq!(collateral_of(&users, TOKEN), Some(450 * E));
    assert_eq!(collateral.liquidity, 450 * E);
    // the loan's collateral amount grows with it
    let loan = pool.get_loan_info(55).unwrap();
    assert_eq!(loan.collateral_amount, 450 * E);
    assert_eq!(loan.remaining_balance, 107 * E);
}

#[test]
fn deposit_converts_to_collateral_and_back() {
    let (mut users, mut pool, mut collateral) = setup();
    assert_eq!(pool.convert_to_collateral(&mut users, &mut collateral, USER, TOKEN, 200 * E), Ok(()));
    assert_eq!(deposit_of(&users, TOKEN), Some(300 * E));
    assert_eq!(collateral_of(&users, TOKEN), Some(600 * E));
    assert_eq!(pool.check_liquidity(TOKEN), Ok(1300 * E));
    assert_eq!(collateral.liquidity, 600 * E);
    assert_eq!(collateral.convert_to_deposit(&mut users, &mut pool, USER, TOKEN, 200 * E), Ok(()));
    assert_eq!(deposit_of(&users, TOKEN), Some(500 * E));
    assert_eq!(collateral_of(&users, TOKEN), Some(400 * E));
    assert_eq!(pool.check_liquidity(TOKEN), Ok(1500 * E));
    assert_eq!(collateral.liquidity, 400 * E);
}

#[test]
fn conversion_errors() {
    let (mut users, mut pool, mut collateral) = setup();
    assert_eq!(pool.convert_to_collateral(&mut users, &mut collateral, USER, 2, E), Err(ProtocolError::NotInPool));
    assert_eq!(pool.convert_to_collateral(&mut users, &mut collateral, 9, TOKEN, E), Err(ProtocolError::UnknownUser));
    assert_eq!(
        pool.convert_to_collateral(&mut users, &mut collateral, USER, TOKEN, 501 * E),
        Err(ProtocolError::InsufficientDeposit)
    );
    assert_eq!(
        collateral.convert_to_deposit(&mut users, &mut pool, USER, TOKEN, 401 * E),
        Err(ProtocolError::InsufficientCollateral)
    );
    assert_eq!(
        collateral.convert_to_deposit(&mut users, &mut pool, USER, 2, E),
        Err(ProtocolError::MissingCollateralBalance)
    );
    assert_eq!(collateral.convert_to_deposit(&mut users, &mut pool, 9, TOKEN, E), Err(ProtocolError::UnknownUser));
    pool.borrow(&mut users, USER, TOKEN, 100 * E, 55).unwrap();
    assert_eq!(
        collateral.convert_to_deposit(&mut users, &mut pool, USER, TOKEN, E),
        Err(ProtocolError::OutstandingLoans)
    );
    assert_eq!(collateral_of(&users, TOKEN), Some(400 * E));
    assert_eq!(deposit_of(&users, TOKEN), Some(500 * E));
}

#[test]
fn convert_from_deposit_and_collateral_directly() {
    let (mut users, mut pool, mut collateral) = setup();
    assert_eq!(collateral.convert_from_deposit(&mut users, USER, TOKEN, Bucket::new(TOKEN, 100 * E)), Ok(()));
    assert_eq!(deposit_of(&users, TOKEN), Some(400 * E));
    assert_eq!(collateral_of(&users, TOKEN), Some(500 * E));
    assert_eq!(collateral.liquidity, 500 * E);
    assert_eq!(pool.convert_from_collateral(&mut users, USER, TOKEN, Bucket::new(TOKEN, 100 * E)), Ok(()));
    assert_eq!(deposit_of(&users, TOKEN), Some(500 * E));
    assert_eq!(collateral_of(&users, TOKEN), Some(400 * E));
    assert_eq!(pool.check_liquidity(TOKEN), Ok(1600 * E));
    assert_eq!(
        collateral.convert_from_deposit(&mut users, USER, 2, Bucket::new(TOKEN, E)),
        Err(ProtocolError::TokenMismatch)
    );
    assert_eq!(
        pool.convert_from_collateral(&mut users, USER, 2, Bucket::new(2, E)),
        Err(ProtocolError::MissingCollateralBalance)
    );
}

#[test]
fn redeem_from_collateral_pool() {
    let (mut users, mut pool, mut collateral) = setup();
    assert_eq!(collateral.redeem(&mut users, &pool, USER, TOKEN, 100 * E), Ok(Bucket::new(TOKEN, 100 * E)));
    assert_eq!(deposit_of(&users, TOKEN), Some(400 * E));
    assert_eq!(collateral.liquidity, 300 * E);
    assert_eq!(collateral.redeem(&mut users, &pool, USER, TOKEN, 301 * E), Err(ProtocolError::InsufficientLiquidity));
    assert_eq!(collateral.redeem(&mut users, &pool, 9, TOKEN, E), Err(ProtocolError::UnknownUser));
    pool.borrow(&mut users, USER, TOKEN, 100 * E, 55).unwrap();
    assert_eq!(collateral.redeem(&mut users, &pool, USER, TOKEN, E), Err(ProtocolError::OutstandingLoans));
    assert_eq!(collateral.liquidity, 300 * E);
}

#[test]
fn liquidation_through_collateral_pool() {
    let (mut users, mut pool, mut collateral) = setup();
    pool.borrow(&mut users, USER, TOKEN, 100 * E, 55).unwrap();
    users.set_credit_score(USER, 100).unwrap();
    pool.set_price(&users, USER, TOKEN, 200_000_000_000_000_000).unwrap();
    // health factor 0.598 is at least the close factor: half may be repaid
    assert_eq!(
        collateral.liquidate(&mut users, &mut pool, 55, TOKEN, Bucket::new(TOKEN, 54 * E)),
        Err(ProtocolError::MaxRepayExceeded)
    );
    let paid = collateral.liquidate(&mut users, &mut pool, 55, TOKEN, Bucket::new(TOKEN, 50 * E));
    assert_eq!(paid, Ok(Bucket::new(TOKEN, 525 * E / 10)));
    let loan = pool.get_loan_info(55).unwrap();
    assert_eq!(loan.loan_status, Status::Defaulted);
    assert_eq!(loan.collateral_amount, 3475 * E / 10);
    assert_eq!(loan.remaining_balance, 57 * E);
    let u = users.get_user(USER).unwrap();
    assert_eq!(u.defaults, 1);
    assert_eq!(u.credit_score, 20);
    assert_eq!(u.borrow_balance.get(&TOKEN), Some(&(-56 * E)));
    assert_eq!(u.collateral_balance.get(&TOKEN), Some(&(400 * E)));
    assert_eq!(collateral.liquidity, 3475 * E / 10);
    assert_eq!(pool.check_liquidity(TOKEN), Ok(1451 * E));
}

#[test]
fn liquidation_through_collateral_pool_errors() {
    let (mut users, mut pool, mut collateral) = setup();
    assert_eq!(
        collateral.liquidate(&mut users, &mut pool, 55, TOKEN, Bucket::new(TOKEN, E)),
        Err(ProtocolError::UnknownLoan)
    );
    pool.borrow(&mut users, USER, TOKEN, 100 * E, 55).unwrap();
    assert_eq!(
        collateral.liquidate(&mut users, &mut pool, 55, TOKEN, Bucket::new(2, E)),
        Err(ProtocolError::TokenMismatch)
    );
    // the credit score (5) cannot pay the default penalty
    assert_eq!(
        collateral.liquidate(&mut users, &mut pool, 55, TOKEN, Bucket::new(TOKEN, 10 * E)),
        Err(ProtocolError::Overflow)
    );
    assert_eq!(pool.get_loan_info(55).unwrap().loan_status, Status::Current);
    assert_eq!(collateral.liquidity, 400 * E);
}

#[test]
fn liquidation_at_close_factor_repays_all() {
    let (mut users, mut pool, mut collateral) = setup();
    pool.borrow(&mut users, USER, TOKEN, 100 * E, 55).unwrap();
    users.set_credit_score(USER, 100).unwrap();
    // 400 * 0.1671875 * 0.8 / 107 = 0.5 exactly: the whole balance may be repaid
    pool.set_price(&users, USER, TOKEN, 167_187_500_000_000_000).unwrap();
    assert_eq!(pool.check_health_factor(55), Ok(500_000_000_000_000_000));
    assert_eq!(
        collateral.liquidate(&mut users, &mut pool, 55, TOKEN, Bucket::new(TOKEN, 108 * E)),
        Err(ProtocolError::MaxRepayExceeded)
    );
    let paid = collateral.liquidate(&mut users, &mut pool, 55, TOKEN, Bucket::new(TOKEN, 60 * E));
    assert_eq!(paid, Ok(Bucket::new(TOKEN, 63 * E)));
    assert_eq!(pool.get_loan_info(55).unwrap().remaining_balance, 47 * E);
}
