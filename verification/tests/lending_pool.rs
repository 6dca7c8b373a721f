use degenfi::bucket::Bucket;
use degenfi::collateral_pool::CollateralPool;
use degenfi::error::ProtocolError;
use degenfi::lending_pool::{LendingPool, Loan, Status};
use degenfi::user_management::UserManagement;

const E: i128 = 1_000_000_000_000_000_000;
const TOKEN: u64 = 1;
const USER: u64 = 7;
const ACCOUNT: u64 = 100;

/// A pool of 1000 tokens, and a user who supplied 500 and posted 400 as
/// collateral.
fn setup() -> (UserManagement, LendingPool, CollateralPool) {
    let mut users = UserManagement::new();
    assert_eq!(users.new_user(ACCOUNT, USER), Ok(USER));
    let mut pool = LendingPool::new(Bucket::new(TOKEN, 1000 * E)).unwrap();
    let mut collateral = CollateralPool::new(TOKEN);
    assert_eq!(pool.deposit(&mut users, USER, TOKEN, Bucket::new(TOKEN, 500 * E)), Ok(()));
    assert_eq!(collateral.deposit(&mut users, USER, TOKEN, Bucket::new(TOKEN, 400 * E)), Ok(()));
    (users, pool, collateral)
}

fn deposit_of(users: &UserManagement, user: u64, token: u64) -> Option<i128> {
    users.get_user(user).unwrap().deposit_balance.get(&token).copied()
}

fn borrow_of(users: &UserManagement, user: u64, token: u64) -> Option<i128> {
    users.get_user(user).unwrap().borrow_balance.get(&token).copied()
}

#[test]
fn new_pool_holds_initial_funds() {
    let pool = LendingPool::new(Bucket::new(TOKEN, 1000 * E)).unwrap();
    assert_eq!(pool.token, TOKEN);
    assert_eq!(pool.check_liquidity(TOKEN), Ok(1000 * E));
    assert_eq!(pool.check_liquidity(2), Err(ProtocolError::NotInPool));
    assert_eq!(pool.check_total_supplied(TOKEN), 1000 * E);
    assert_eq!(pool.check_total_borrowed(), 0);
    assert_eq!(pool.retrieve_xrd_price(), E);
    assert_eq!(pool.addresses(), vec![TOKEN]);
    assert!(pool.belongs_to_pool(TOKEN));
    assert!(!pool.belongs_to_pool(2));
    assert!(pool.bad_loans().is_empty());
    assert_eq!(pool.check_utilization_rate(TOKEN), Ok(0));
    assert_eq!(pool.interest_calc(TOKEN), Ok(80_000_000_000_000_000));
}

#[test]
fn new_pool_refuses_empty_funds() {
    assert!(matches!(LendingPool::new(Bucket::new(TOKEN, 0)), Err(ProtocolError::EmptyDeposit)));
}

#[test]
fn deposit_credits_supplier() {
    let (users, pool, _) = setup();
    assert_eq!(deposit_of(&users, USER, TOKEN), Some(500 * E));
    assert_eq!(users.credit_score(USER), Some(5));
    assert_eq!(pool.check_total_supplied(TOKEN), 1500 * E);
    assert_eq!(pool.check_liquidity(TOKEN), Ok(1500 * E));
}

#[test]
fn supply_deposit_errors() {
    let (mut users, mut pool, _) = setup();
    assert_eq!(pool.deposit(&mut users, USER, 2, Bucket::new(TOKEN, E)), Err(ProtocolError::TokenMismatch));
    assert_eq!(pool.deposit(&mut users, USER, TOKEN, Bucket::new(TOKEN, 0)), Err(ProtocolError::EmptyDeposit));
    assert_eq!(pool.deposit(&mut users, 99, TOKEN, Bucket::new(TOKEN, E)), Err(ProtocolError::UnknownUser));
    assert_eq!(pool.deposit(&mut users, USER, 2, Bucket::new(2, E)), Err(ProtocolError::NotInPool));
    // nothing changed
    assert_eq!(deposit_of(&users, USER, TOKEN), Some(500 * E));
    assert_eq!(users.credit_score(USER), Some(5));
    assert_eq!(pool.check_total_supplied(TOKEN), 1500 * E);
}

#[test]
fn borrow_opens_loan() {
    let (mut users, mut pool, _) = setup();
    let r = pool.borrow(&mut users, USER, TOKEN, 100 * E, 55);
    assert_eq!(r, Ok((Bucket::new(TOKEN, 99 * E), 55)));
    let loan = pool.get_loan_info(55).unwrap();
    assert_eq!(
        loan,
        Loan {
            asset: TOKEN,
            collateral: TOKEN,
            principal_loan_amount: 100 * E,
            interest: 80_000_000_000_000_000,
            owner: USER,
            remaining_balance: 107 * E,
            interest_expense: 8 * E,
            collateral_amount: 400 * E,
            collateral_amount_usd: 400 * E,
            health_factor: 2_990_654_205_607_476_635,
            liquidation_price: 371_250_000_000_000_000,
            loan_status: Status::Current,
        }
    );
    assert_eq!(pool.check_total_borrowed(), 99 * E);
    assert_eq!(pool.check_liquidity(TOKEN), Ok(1401 * E));
    assert_eq!(pool.check_utilization_rate(TOKEN), Ok(66_000_000_000_000_000));
    assert_eq!(borrow_of(&users, USER, TOKEN), Some(99 * E));
    assert_eq!(users.get_user(USER).unwrap().open_loans.get(&TOKEN), Some(&55));
    assert_eq!(pool.check_collateral_ratio(55), Ok(false));
    assert_eq!(pool.check_collateral_ratio(56), Err(ProtocolError::UnknownLoan));
}

#[test]
fn borrow_errors() {
    let (mut users, mut pool, _) = setup();
    assert_eq!(pool.borrow(&mut users, 99, TOKEN, 10 * E, 55), Err(ProtocolError::UnknownUser));
    assert_eq!(pool.borrow(&mut users, USER, TOKEN, 301 * E, 55), Err(ProtocolError::BorrowLimitExceeded));
    assert_eq!(pool.borrow(&mut users, USER, TOKEN, 100 * E, 55), Ok((Bucket::new(TOKEN, 99 * E), 55)));
    assert_eq!(pool.borrow(&mut users, USER, TOKEN, 10 * E, 56), Err(ProtocolError::LoanAlreadyOpen));
    assert_eq!(borrow_of(&users, USER, TOKEN), Some(99 * E));
    assert_eq!(pool.check_liquidity(TOKEN), Ok(1401 * E));
}

#[test]
fn borrow_refuses_taken_loan_id() {
    let (mut users, mut pool, mut collateral) = setup();
    assert_eq!(pool.borrow(&mut users, USER, TOKEN, 100 * E, 55), Ok((Bucket::new(TOKEN, 99 * E), 55)));
    assert_eq!(users.new_user(101, 8), Ok(8));
    assert_eq!(collateral.deposit(&mut users, 8, TOKEN, Bucket::new(TOKEN, 100 * E)), Ok(()));
    assert_eq!(pool.borrow(&mut users, 8, TOKEN, 10 * E, 55), Err(ProtocolError::LoanIdTaken));
}

#[test]
fn borrow_refuses_beyond_liquidity() {
    let mut users = UserManagement::new();
    assert_eq!(users.new_user(ACCOUNT, USER), Ok(USER));
    let mut pool = LendingPool::new(Bucket::new(TOKEN, 100 * E)).unwrap();
    let mut collateral = CollateralPool::new(TOKEN);
    assert_eq!(collateral.deposit(&mut users, USER, TOKEN, Bucket::new(TOKEN, 1000 * E)), Ok(()));
    assert_eq!(pool.borrow(&mut users, USER, TOKEN, 200 * E, 1), Err(ProtocolError::InsufficientLiquidity));
}

#[test]
fn credit_score_lowers_interest() {
    let (mut users, mut pool, _) = setup();
    assert_eq!(users.set_credit_score(USER, 100), Ok(()));
    assert_eq!(pool.borrow(&mut users, USER, TOKEN, 100 * E, 55), Ok((Bucket::new(TOKEN, 99 * E), 55)));
    let loan = pool.get_loan_info(55).unwrap();
    assert_eq!(loan.interest, 70_000_000_000_000_000);
    assert_eq!(loan.interest_expense, 7 * E);
    assert_eq!(loan.remaining_balance, 106 * E);
}

#[test]
fn repay_in_full_closes_loan() {
    let (mut users, mut pool, _) = setup();
    pool.borrow(&mut users, USER, TOKEN, 100 * E, 55).unwrap();
    let back = pool.repay(&mut users, USER, 55, TOKEN, Bucket::new(TOKEN, 107 * E));
    assert_eq!(back, Ok(Bucket::new(TOKEN, 8 * E)));
    let loan = pool.get_loan_info(55).unwrap();
    assert_eq!(loan.loan_status, Status::PaidOff);
    assert_eq!(loan.remaining_balance, 0);
    let u = users.get_user(USER).unwrap();
    assert_eq!(u.credit_score, 45);
    assert_eq!(u.paid_off, 1);
    assert!(u.open_loans.is_empty());
    assert_eq!(u.closed_loans.get(&TOKEN), Some(&55));
    assert_eq!(borrow_of(&users, USER, TOKEN), Some(0));
    assert_eq!(pool.check_total_borrowed(), 0);
    assert_eq!(pool.check_liquidity(TOKEN), Ok(1500 * E));
    assert_eq!(pool.repay(&mut users, USER, 55, TOKEN, Bucket::new(TOKEN, E)), Err(ProtocolError::LoanPaidOff));
}

#[test]
fn repay_in_part_keeps_loan_current() {
    let (mut users, mut pool, _) = setup();
    pool.borrow(&mut users, USER, TOKEN, 100 * E, 55).unwrap();
    let back = pool.repay(&mut users, USER, 55, TOKEN, Bucket::new(TOKEN, 50 * E));
    assert_eq!(back, Ok(Bucket::new(TOKEN, 0)));
    let loan = pool.get_loan_info(55).unwrap();
    assert_eq!(loan.loan_status, Status::Current);
    assert_eq!(loan.remaining_balance, 57 * E);
    assert_eq!(borrow_of(&users, USER, TOKEN), Some(49 * E));
    assert_eq!(pool.check_total_borrowed(), 57 * E);
    assert_eq!(pool.check_liquidity(TOKEN), Ok(1451 * E));
    assert_eq!(users.credit_score(USER), Some(5));
}

#[test]
fn repay_errors() {
    let (mut users, mut pool, _) = setup();
    assert_eq!(pool.repay(&mut users, USER, 55, TOKEN, Bucket::new(TOKEN, E)), Err(ProtocolError::UnknownLoan));
    pool.borrow(&mut users, USER, TOKEN, 100 * E, 55).unwrap();
    assert_eq!(pool.repay(&mut users, 99, 55, TOKEN, Bucket::new(TOKEN, E)), Err(ProtocolError::UnknownUser));
    assert_eq!(pool.repay(&mut users, USER, 55, 2, Bucket::new(2, E)), Err(ProtocolError::MissingBorrowBalance));
}

#[test]
fn redeem_needs_settled_loans() {
    let (mut users, mut pool, _) = setup();
    pool.borrow(&mut users, USER, TOKEN, 100 * E, 55).unwrap();
    assert_eq!(pool.check_loans_settled(&users, USER), Err(ProtocolError::OutstandingLoans));
    assert_eq!(pool.redeem(&mut users, USER, TOKEN, 10 * E), Err(ProtocolError::OutstandingLoans));
    assert_eq!(pool.redeem(&mut users, 99, TOKEN, 10 * E), Err(ProtocolError::UnknownUser));
    pool.repay(&mut users, USER, 55, TOKEN, Bucket::new(TOKEN, 107 * E)).unwrap();
    assert_eq!(pool.check_loans_settled(&users, USER), Ok(()));
    assert_eq!(pool.redeem(&mut users, USER, TOKEN, 500 * E), Ok(Bucket::new(TOKEN, 500 * E)));
    assert_eq!(deposit_of(&users, USER, TOKEN), Some(0));
    assert_eq!(pool.check_liquidity(TOKEN), Ok(1000 * E));
}

#[test]
fn redeem_errors() {
    let (mut users, mut pool, _) = setup();
    assert_eq!(pool.redeem(&mut users, USER, TOKEN, 501 * E), Err(ProtocolError::NegativeDepositBalance));
    assert_eq!(pool.redeem(&mut users, USER, 2, E), Err(ProtocolError::MissingDepositBalance));
    assert_eq!(users.new_user(101, 8), Ok(8));
    assert_eq!(pool.redeem(&mut users, 8, TOKEN, E), Err(ProtocolError::MissingDepositBalance));
    assert_eq!(deposit_of(&users, USER, TOKEN), Some(500 * E));
}

#[test]
fn redeem_pays_share_of_vault() {
    // After a borrow the vault holds less than was supplied; a redemption
    // pays the amount times the vault's holdings over the supply.
    let (mut users, mut pool, mut collateral) = setup();
    assert_eq!(users.new_user(101, 8), Ok(8));
    assert_eq!(collateral.deposit(&mut users, 8, TOKEN, Bucket::new(TOKEN, 1000 * E)), Ok(()));
    pool.borrow(&mut users, 8, TOKEN, 300 * E, 60).unwrap();
    // vault 1500 - 297 = 1203 of 1500 supplied
    assert_eq!(pool.check_liquidity(TOKEN), Ok(1203 * E));
    assert_eq!(pool.redeem(&mut users, USER, TOKEN, 100 * E), Ok(Bucket::new(TOKEN, 802 * E / 10)));
    assert_eq!(deposit_of(&users, USER, TOKEN), Some(400 * E));
}

#[test]
fn price_drop_makes_loan_bad() {
    let (mut users, mut pool, _) = setup();
    pool.borrow(&mut users, USER, TOKEN, 100 * E, 55).unwrap();
    assert_eq!(pool.set_price(&users, USER, TOKEN, 200_000_000_000_000_000), Ok(()));
    assert_eq!(pool.retrieve_xrd_price(), 200_000_000_000_000_000);
    assert_eq!(pool.get_loan_info(55).unwrap().health_factor, 598_130_841_121_495_327);
    assert_eq!(pool.check_collateral_ratio(55), Ok(true));
    assert_eq!(pool.find_bad_loans(), vec![(55, 598_130_841_121_495_327)]);
    assert!(pool.bad_loans().contains(&55));
    // back at the old price the loan is healthy and leaves the list
    assert_eq!(pool.set_price(&users, USER, TOKEN, E), Ok(()));
    assert_eq!(pool.get_loan_info(55).unwrap().health_factor, 2_990_654_205_607_476_635);
    assert!(pool.bad_loans().contains(&55));
    assert_eq!(pool.find_bad_loans(), vec![]);
    assert!(pool.bad_loans().is_empty());
}

#[test]
fn set_price_errors() {
    let (users, mut pool, _) = setup();
    assert_eq!(pool.set_price(&users, 99, TOKEN, E), Err(ProtocolError::UnknownUser));
    assert_eq!(pool.set_price(&users, USER, TOKEN, 3 * E), Ok(()));
    assert_eq!(pool.retrieve_xrd_price(), 3 * E);
}

#[test]
fn insert_and_clean_bad_loans() {
    let (mut users, mut pool, _) = setup();
    pool.borrow(&mut users, USER, TOKEN, 100 * E, 55).unwrap();
    pool.insert_bad_loans();
    assert!(pool.bad_loans().is_empty());
    pool.set_price(&users, USER, TOKEN, 200_000_000_000_000_000).unwrap();
    pool.insert_bad_loans();
    assert!(pool.bad_loans().contains(&55));
    assert_eq!(pool.clean_bad_loans(), Vec::<u64>::new());
    pool.remove_closed_loans();
    assert!(pool.bad_loans().contains(&55));
    pool.set_price(&users, USER, TOKEN, E).unwrap();
    assert_eq!(pool.clean_bad_loans(), vec![55]);
    pool.remove_closed_loans();
    assert!(pool.bad_loans().is_empty());
}

#[test]
fn default_loan_marks_defaulted() {
    let (mut users, mut pool, _) = setup();
    assert_eq!(pool.default_loan(55), Err(ProtocolError::UnknownLoan));
    pool.borrow(&mut users, USER, TOKEN, 100 * E, 55).unwrap();
    assert_eq!(pool.default_loan(55), Ok(()));
    assert_eq!(pool.get_loan_info(55).unwrap().loan_status, Status::Defaulted);
    // a defaulted loan no longer holds a redemption back
    assert_eq!(pool.check_loans_settled(&users, USER), Ok(()));
}

#[test]
fn interest_rate_tiers() {
    let (mut users, mut pool, mut collateral) = setup();
    assert_eq!(users.new_user(101, 8), Ok(8));
    assert_eq!(collateral.deposit(&mut users, 8, TOKEN, Bucket::new(TOKEN, 10_000 * E)), Ok(()));
    // lend out 960 of 1500: utilisation 0.64
    pool.borrow(&mut users, 8, TOKEN, 960 * E * 100 / 99, 60).unwrap_or_else(|e| panic!("{:?}", e));
    let u = pool.check_utilization_rate(TOKEN).unwrap();
    assert!(u > 600_000_000_000_000_000 && u <= 700_000_000_000_000_000);
    assert_eq!(pool.interest_calc(TOKEN), Ok(90_000_000_000_000_000));
}

#[test]
fn repayment_deposit_fills_vault() {
    let (_, mut pool, _) = setup();
    assert_eq!(pool.repayment_deposit(Bucket::new(2, E)), Err(ProtocolError::NotInPool));
    assert_eq!(pool.repayment_deposit(Bucket::new(TOKEN, 5 * E)), Ok(()));
    assert_eq!(pool.check_liquidity(TOKEN), Ok(1505 * E));
    assert_eq!(pool.check_total_supplied(TOKEN), 1500 * E);
}

#[test]
fn pool_membership_and_health_factor() {
    let (mut users, mut pool, collateral) = setup();
    assert_eq!(pool.assert_belongs_to_pool(TOKEN), Ok(()));
    assert_eq!(pool.assert_belongs_to_pool(2), Err(ProtocolError::NotInPool));
    assert_eq!(collateral.assert_belongs_to_pool(TOKEN), Ok(()));
    assert_eq!(collateral.assert_belongs_to_pool(2), Err(ProtocolError::NotInPool));
    assert_eq!(pool.check_health_factor(55), Err(ProtocolError::UnknownLoan));
    pool.borrow(&mut users, USER, TOKEN, 100 * E, 55).unwrap();
    assert_eq!(pool.check_health_factor(55), Ok(2_990_654_205_607_476_635));
}

#[test]
fn health_factor_of_one_is_bad() {
    let (mut users, mut pool, _) = setup();
    pool.borrow(&mut users, USER, TOKEN, 100 * E, 55).unwrap();
    // 400 * 0.334375 * 0.8 / 107 = 1 exactly
    pool.set_price(&users, USER, TOKEN, 334_375_000_000_000_000).unwrap();
    assert_eq!(pool.check_health_factor(55), Ok(E));
    assert_eq!(pool.check_collateral_ratio(55), Ok(true));
    assert_eq!(pool.find_bad_loans(), vec![(55, E)]);
    assert!(pool.bad_loans().contains(&55));
    assert_eq!(pool.clean_bad_loans(), Vec::<u64>::new());
}

#[test]
fn borrow_limit_is_three_quarters_of_collateral() {
    let (mut users, mut pool, _) = setup();
    assert_eq!(pool.borrow(&mut users, USER, TOKEN, 300 * E, 55), Ok((Bucket::new(TOKEN, 297 * E), 55)));
}
