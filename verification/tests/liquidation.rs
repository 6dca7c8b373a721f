use degenfi::bucket::Bucket;
use degenfi::collateral_pool::CollateralPool;
use degenfi::error::ProtocolError;
use degenfi::lending_pool::{LendingPool, Status};
use degenfi::liquidation::{ClaimBadge, Liquidation};
use degenfi::user_management::UserManagement;

const E: i128 = 1_000_000_000_000_000_000;
const TOKEN: u64 = 1;
const USER: u64 = 7;
const LOW_PRICE: i128 = 200_000_000_000_000_000;

/// A user who supplied 500, posted 400 as collateral and borrowed 100 under
/// loan 55; the loan was found bad at a low price, then the price came back.
fn setup() -> (UserManagement, LendingPool, CollateralPool) {
    let mut users = UserManagement::new();
    assert_eq!(users.new_user(100, USER), Ok(USER));
    let mut pool = LendingPool::new(Bucket::new(TOKEN, 1000 * E)).unwrap();
    let mut collateral = CollateralPool::new(TOKEN);
    pool.deposit(&mut users, USER, TOKEN, Bucket::new(TOKEN, 500 * E)).unwrap();
    collateral.deposit(&mut users, USER, TOKEN, Bucket::new(TOKEN, 400 * E)).unwrap();
    pool.borrow(&mut users, USER, TOKEN, 100 * E, 55).unwrap();
    pool.set_price(&users, USER, TOKEN, LOW_PRICE).unwrap();
    assert_eq!(pool.find_bad_loans().len(), 1);
    pool.set_price(&users, USER, TOKEN, E).unwrap();
    (users, pool, collateral)
}

#[test]
fn new_liquidation_terms() {
    let l = Liquidation::new();
    assert_eq!(l, Liquidation { liquidation_bonus: 50_000_000_000_000_000, max_repay: 500_000_000_000_000_000 });
    let claim = ClaimBadge { claim_amount: 5 * E };
    assert_eq!(claim.claim_amount, 5 * E);
}

#[test]
fn liquidation_checks() {
    let (mut users, mut pool, mut collateral) = setup();
    let l = Liquidation::new();
    assert_eq!(
        l.liquidate(&mut users, &mut pool, &mut collateral, 56, TOKEN, Bucket::new(TOKEN, E)),
        Err(ProtocolError::UnknownLoan)
    );
    assert_eq!(
        l.liquidate(&mut users, &mut pool, &mut collateral, 55, TOKEN, Bucket::new(TOKEN, 54 * E)),
        Err(ProtocolError::MaxRepayExceeded)
    );
    // the owner still owes in the token, so their deposit cannot be charged
    assert_eq!(
        l.liquidate(&mut users, &mut pool, &mut collateral, 55, TOKEN, Bucket::new(TOKEN, 10 * E)),
        Err(ProtocolError::OutstandingBorrow)
    );
    pool.set_price(&users, USER, TOKEN, 2 * E).unwrap();
    assert_eq!(
        l.liquidate(&mut users, &mut pool, &mut collateral, 55, TOKEN, Bucket::new(TOKEN, 10 * E)),
        Err(ProtocolError::PriceMismatch)
    );
    assert_eq!(pool.get_loan_info(55).unwrap().loan_status, Status::Current);
    assert_eq!(collateral.liquidity, 400 * E);
}

#[test]
fn liquidation_needs_bad_loan() {
    let mut users = UserManagement::new();
    users.new_user(100, USER).unwrap();
    let mut pool = LendingPool::new(Bucket::new(TOKEN, 1000 * E)).unwrap();
    let mut collateral = CollateralPool::new(TOKEN);
    collateral.deposit(&mut users, USER, TOKEN, Bucket::new(TOKEN, 400 * E)).unwrap();
    pool.borrow(&mut users, USER, TOKEN, 100 * E, 55).unwrap();
    let l = Liquidation::new();
    assert_eq!(
        l.liquidate(&mut users, &mut pool, &mut collateral, 55, TOKEN, Bucket::new(TOKEN, E)),
        Err(ProtocolError::NotLiquidatable)
    );
}

#[test]
fn liquidation_of_defaulted_loan() {
    let (mut users, mut pool, mut collateral) = setup();
    // the owner repays most of the loan and clears their borrow balance
    assert_eq!(pool.repay(&mut users, USER, 55, TOKEN, Bucket::new(TOKEN, 100 * E)), Ok(Bucket::new(TOKEN, E)));
    assert_eq!(pool.default_loan(55), Ok(()));
    let l = Liquidation::new();
    let claim = l.liquidate(&mut users, &mut pool, &mut collateral, 55, TOKEN, Bucket::new(TOKEN, 3 * E));
    assert_eq!(claim, Ok(Bucket::new(TOKEN, 315 * E / 100)));
    let u = users.get_user(USER).unwrap();
    assert_eq!(u.defaults, 1);
    assert_eq!(u.credit_score, 10);
    assert_eq!(u.deposit_balance.get(&TOKEN), Some(&(49985 * E / 100)));
    assert_eq!(collateral.liquidity, 39685 * E / 100);
    assert_eq!(pool.check_total_supplied(TOKEN), 1503 * E);
    assert_eq!(pool.check_liquidity(TOKEN), Ok(1503 * E));
    assert_eq!(pool.get_loan_info(55).unwrap().loan_status, Status::Defaulted);
}

#[test]
fn liquidation_by_price() {
    let (_, mut pool, _) = setup();
    let l = Liquidation::new();
    assert_eq!(l.liquidatev2(&pool, 56), Err(ProtocolError::UnknownLoan));
    // liquidation price 0.37125 at a price of one
    assert_eq!(l.liquidatev2(&pool, 55), Err(ProtocolError::NotLiquidatable));
    let mut users = UserManagement::new();
    users.new_user(100, USER).unwrap();
    pool.set_price(&users, USER, TOKEN, 300_000_000_000_000_000).unwrap();
    assert_eq!(l.liquidatev2(&pool, 55), Ok(()));
}

#[test]
fn liquidation_through_lending_pool() {
    let (mut users, mut pool, mut collateral) = setup();
    users.set_credit_score(USER, 100).unwrap();
    assert_eq!(
        pool.liquidate(&mut users, &mut collateral, 55, TOKEN, Bucket::new(TOKEN, 54 * E)),
        Err(ProtocolError::MaxRepayExceeded)
    );
    let paid = pool.liquidate(&mut users, &mut collateral, 55, TOKEN, Bucket::new(TOKEN, 50 * E));
    assert_eq!(paid, Ok(Bucket::new(TOKEN, 525 * E / 10)));
    let loan = pool.get_loan_info(55).unwrap();
    assert_eq!(loan.loan_status, Status::Defaulted);
    assert_eq!(loan.collateral_amount, 3475 * E / 10);
    assert_eq!(loan.remaining_balance, 107 * E);
    let u = users.get_user(USER).unwrap();
    assert_eq!(u.defaults, 1);
    assert_eq!(u.credit_score, 20);
    assert_eq!(u.collateral_balance.get(&TOKEN), Some(&(400 * E)));
    assert_eq!(u.borrow_balance.get(&TOKEN), Some(&(99 * E)));
    assert_eq!(collateral.liquidity, 3475 * E / 10);
    assert_eq!(pool.check_liquidity(TOKEN), Ok(1451 * E));
}

#[test]
fn lending_pool_liquidation_needs_bad_loan() {
    let mut users = UserManagement::new();
    users.new_user(100, USER).unwrap();
    let mut pool = LendingPool::new(Bucket::new(TOKEN, 1000 * E)).unwrap();
    let mut collateral = CollateralPool::new(TOKEN);
    collateral.deposit(&mut users, USER, TOKEN, Bucket::new(TOKEN, 400 * E)).unwrap();
    pool.borrow(&mut users, USER, TOKEN, 100 * E, 55).unwrap();
    assert_eq!(
        pool.liquidate(&mut users, &mut collateral, 55, TOKEN, Bucket::new(TOKEN, E)),
        Err(ProtocolError::NotLiquidatable)
    );
}

#[test]
fn liquidation_of_current_loan() {
    let (mut users, mut pool, mut collateral) = setup();
    // the owner clears their borrow balance; the loan stays current
    assert_eq!(pool.repay(&mut users, USER, 55, TOKEN, Bucket::new(TOKEN, 100 * E)), Ok(Bucket::new(TOKEN, E)));
    assert_eq!(pool.get_loan_info(55).unwrap().loan_status, Status::Current);
    let l = Liquidation::new();
    let claim = l.liquidate(&mut users, &mut pool, &mut collateral, 55, TOKEN, Bucket::new(TOKEN, 3 * E));
    assert_eq!(claim, Ok(Bucket::new(TOKEN, 315 * E / 100)));
    let u = users.get_user(USER).unwrap();
    assert_eq!(u.defaults, 1);
    assert_eq!(u.deposit_balance.get(&TOKEN), Some(&(49985 * E / 100)));
    assert_eq!(collateral.liquidity, 39685 * E / 100);
    assert_eq!(pool.get_loan_info(55).unwrap().loan_status, Status::Defaulted);
}
