use degenfi::error::ProtocolError;
use degenfi::user_management::{check_deposit_balance, values_of, User, UserManagement};
use std::collections::HashMap;

const E: i128 = 1_000_000_000_000_000_000;

fn registry() -> UserManagement {
    let mut users = UserManagement::new();
    assert_eq!(users.new_user(100, 7), Ok(7));
    users
}

#[test]
fn new_user_starts_fresh() {
    let users = registry();
    assert!(users.find_user(7));
    assert!(!users.find_user(8));
    let u = users.get_user(7).unwrap();
    assert_eq!(u.credit_score, 0);
    assert!(u.deposit_balance.is_empty());
    assert!(u.collateral_balance.is_empty());
    assert!(u.borrow_balance.is_empty());
    assert!(u.open_loans.is_empty());
    assert!(u.closed_loans.is_empty());
    assert_eq!(u.defaults, 0);
    assert_eq!(u.paid_off, 0);
    assert_eq!(users.account_record, vec![100]);
}

#[test]
fn one_record_per_account() {
    let mut users = registry();
    assert_eq!(users.new_user(100, 8), Err(ProtocolError::AccountAlreadyRegistered));
    assert_eq!(users.new_user(101, 7), Err(ProtocolError::UserIdTaken));
    assert!(!users.find_user(8));
    assert_eq!(users.account_record, vec![100]);
    assert_eq!(users.new_user(101, 8), Ok(8));
    assert_eq!(users.account_record, vec![100, 101]);
}

#[test]
fn user_new_and_balance() {
    let u = User::new();
    assert_eq!(u.credit_score, 0);
    let mut m: HashMap<u64, i128> = HashMap::new();
    assert_eq!(User::balance(&m, 1), 0);
    m.insert(1, 5 * E);
    assert_eq!(User::balance(&m, 1), 5 * E);
}

#[test]
fn values_of_lists_every_value() {
    let mut m: HashMap<u64, u64> = HashMap::new();
    m.insert(1, 10);
    m.insert(2, 20);
    let mut v = values_of(&m);
    v.sort();
    assert_eq!(v, vec![10, 20]);
}

#[test]
fn credit_score_changes() {
    let mut users = registry();
    assert_eq!(users.inc_credit_score(7, 30), Ok(()));
    assert_eq!(users.credit_score(7), Some(30));
    assert_eq!(users.dec_credit_score(7, 10), Ok(()));
    assert_eq!(users.credit_score(7), Some(20));
    assert_eq!(users.dec_credit_score(7, 21), Err(ProtocolError::Overflow));
    assert_eq!(users.credit_score(7), Some(20));
    assert_eq!(users.inc_credit_score(7, u64::MAX), Err(ProtocolError::Overflow));
    assert_eq!(users.set_credit_score(7, 250), Ok(()));
    assert_eq!(users.credit_score(7), Some(250));
    assert_eq!(users.inc_credit_score(9, 1), Err(ProtocolError::UnknownUser));
    assert_eq!(users.dec_credit_score(9, 1), Err(ProtocolError::UnknownUser));
    assert_eq!(users.set_credit_score(9, 1), Err(ProtocolError::UnknownUser));
    assert_eq!(users.credit_score(9), None);
}

#[test]
fn modifier_tiers() {
    let mut users = registry();
    let cases: [(u64, i128, i128); 7] = [
        (0, 0, 0),
        (99, 0, 0),
        (100, 10_000_000_000_000_000, 50_000_000_000_000_000),
        (199, 10_000_000_000_000_000, 50_000_000_000_000_000),
        (200, 20_000_000_000_000_000, 100_000_000_000_000_000),
        (300, 30_000_000_000_000_000, 150_000_000_000_000_000),
        (1000, 30_000_000_000_000_000, 150_000_000_000_000_000),
    ];
    for (score, interest, collateral) in cases {
        users.set_credit_score(7, score).unwrap();
        assert_eq!(users.interest_modifier(7), Ok(interest));
        assert_eq!(users.collaterization_modifier(7), Ok(collateral));
    }
    assert_eq!(users.interest_modifier(9), Err(ProtocolError::UnknownUser));
    assert_eq!(users.collaterization_modifier(9), Err(ProtocolError::UnknownUser));
}

#[test]
fn deposit_balance_changes() {
    let mut users = registry();
    assert_eq!(users.deposit_resource_exists(7, 1), Ok(false));
    assert_eq!(users.add_deposit_balance(7, 1, 10 * E), Ok(()));
    assert_eq!(users.add_deposit_balance(7, 1, 5 * E), Ok(()));
    assert_eq!(users.deposit_resource_exists(7, 1), Ok(true));
    assert_eq!(check_deposit_balance(&users, 7).unwrap().get(&1), Some(&(15 * E)));
    assert_eq!(users.decrease_deposit_balance(7, 1, 4 * E), Ok(()));
    assert_eq!(check_deposit_balance(&users, 7).unwrap().get(&1), Some(&(11 * E)));
    assert_eq!(users.decrease_deposit_balance(7, 1, 12 * E), Err(ProtocolError::NegativeDepositBalance));
    assert_eq!(users.decrease_deposit_balance(7, 2, E), Err(ProtocolError::MissingDepositBalance));
    assert_eq!(users.decrease_deposit_balance(9, 1, E), Err(ProtocolError::UnknownUser));
    assert_eq!(users.add_deposit_balance(7, 1, i128::MAX), Err(ProtocolError::Overflow));
    assert_eq!(users.add_deposit_balance(9, 1, E), Err(ProtocolError::UnknownUser));
    assert_eq!(users.deposit_resource_exists(9, 1), Err(ProtocolError::UnknownUser));
    assert!(matches!(check_deposit_balance(&users, 9), Err(ProtocolError::UnknownUser)));
    assert_eq!(check_deposit_balance(&users, 7).unwrap().get(&1), Some(&(11 * E)));
}

#[test]
fn lien_blocks_withdrawal() {
    let mut users = registry();
    users.add_deposit_balance(7, 1, 10 * E).unwrap();
    assert_eq!(users.check_lien(7, 1), Ok(()));
    assert_eq!(users.increase_borrow_balance(7, 1, 3 * E), Ok(()));
    assert_eq!(users.check_lien(7, 1), Err(ProtocolError::OutstandingBorrow));
    assert_eq!(users.decrease_deposit_balance(7, 1, E), Err(ProtocolError::OutstandingBorrow));
    assert_eq!(users.check_lien(9, 1), Err(ProtocolError::UnknownUser));
    assert_eq!(users.borrow_balance_of(7, 1), Some(3 * E));
    assert_eq!(users.borrow_balance_of(7, 2), Some(0));
    assert_eq!(users.borrow_balance_of(9, 1), None);
    assert_eq!(users.check_borrow_balance(7).unwrap().get(&1), Some(&(3 * E)));
    assert!(matches!(users.check_borrow_balance(9), Err(ProtocolError::UnknownUser)));
}

#[test]
fn repayment_settles_borrow_balance() {
    let mut users = registry();
    assert_eq!(users.decrease_borrow_balance(7, 1, E), Err(ProtocolError::MissingBorrowBalance));
    users.increase_borrow_balance(7, 1, 10 * E).unwrap();
    assert_eq!(users.decrease_borrow_balance(7, 1, 4 * E), Ok(0));
    assert_eq!(users.borrow_balance_of(7, 1), Some(6 * E));
    assert_eq!(users.decrease_borrow_balance(7, 1, 9 * E), Ok(3 * E));
    assert_eq!(users.borrow_balance_of(7, 1), Some(0));
    assert_eq!(users.decrease_borrow_balance(9, 1, E), Err(ProtocolError::UnknownUser));
    assert_eq!(users.increase_borrow_balance(9, 1, E), Err(ProtocolError::UnknownUser));
}

#[test]
fn collateral_conversions() {
    let mut users = registry();
    assert_eq!(users.convert_deposit_to_collateral(7, 1, E), Err(ProtocolError::MissingDepositBalance));
    assert_eq!(users.convert_collateral_to_deposit(7, 1, E), Err(ProtocolError::MissingCollateralBalance));
    users.add_deposit_balance(7, 1, 10 * E).unwrap();
    assert_eq!(users.convert_deposit_to_collateral(7, 1, 4 * E), Ok(()));
    let u = users.get_user(7).unwrap();
    assert_eq!(u.deposit_balance.get(&1), Some(&(6 * E)));
    assert_eq!(u.collateral_balance.get(&1), Some(&(4 * E)));
    assert_eq!(users.convert_collateral_to_deposit(7, 1, 4 * E), Ok(()));
    let u = users.get_user(7).unwrap();
    assert_eq!(u.deposit_balance.get(&1), Some(&(10 * E)));
    assert_eq!(u.collateral_balance.get(&1), Some(&0));
    assert_eq!(users.add_collateral_balance(7, 1, 2 * E), Ok(()));
    assert_eq!(users.get_user(7).unwrap().collateral_balance.get(&1), Some(&(2 * E)));
    assert_eq!(users.add_collateral_balance(9, 1, E), Err(ProtocolError::UnknownUser));
    assert_eq!(users.convert_deposit_to_collateral(9, 1, E), Err(ProtocolError::UnknownUser));
    assert_eq!(users.convert_collateral_to_deposit(9, 1, E), Err(ProtocolError::UnknownUser));
}

#[test]
fn collateral_decrease_settles_against_borrow() {
    let mut users = registry();
    assert_eq!(users.decrease_collateral_balance(7, 1, E), Err(ProtocolError::MissingDepositBalance));
    users.add_deposit_balance(7, 1, 10 * E).unwrap();
    users.add_collateral_balance(7, 1, 10 * E).unwrap();
    users.increase_borrow_balance(7, 1, 5 * E).unwrap();
    // within the borrow balance: nothing recorded, nothing handed back
    assert_eq!(users.decrease_collateral_balance(7, 1, 3 * E), Ok(0));
    assert_eq!(users.borrow_balance_of(7, 1), Some(5 * E));
    // beyond it: the borrow balance falls by the whole amount
    assert_eq!(users.decrease_collateral_balance(7, 1, 8 * E), Ok(3 * E));
    assert_eq!(users.borrow_balance_of(7, 1), Some(-3 * E));
    // the collateral balance itself is not changed
    assert_eq!(users.get_user(7).unwrap().collateral_balance.get(&1), Some(&(10 * E)));
    assert_eq!(users.decrease_collateral_balance(9, 1, E), Err(ProtocolError::UnknownUser));
}

#[test]
fn loan_records() {
    let mut users = registry();
    assert_eq!(users.insert_loan(7, 1, 55), Ok(()));
    assert_eq!(users.insert_loan(7, 1, 56), Ok(()));
    assert_eq!(users.get_user(7).unwrap().open_loans.get(&1), Some(&55));
    assert_eq!(users.open_loan_ids(7), Ok(vec![55]));
    assert_eq!(users.close_loan(7, 1, 55), Ok(()));
    let u = users.get_user(7).unwrap();
    assert!(u.open_loans.is_empty());
    assert_eq!(u.closed_loans.get(&1), Some(&55));
    assert_eq!(users.inc_paid_off(7), Ok(()));
    assert_eq!(users.inc_default(7), Ok(()));
    let u = users.get_user(7).unwrap();
    assert_eq!(u.paid_off, 1);
    assert_eq!(u.defaults, 1);
    assert_eq!(users.insert_loan(9, 1, 1), Err(ProtocolError::UnknownUser));
    assert_eq!(users.close_loan(9, 1, 1), Err(ProtocolError::UnknownUser));
    assert_eq!(users.inc_paid_off(9), Err(ProtocolError::UnknownUser));
    assert_eq!(users.inc_default(9), Err(ProtocolError::UnknownUser));
    assert_eq!(users.open_loan_ids(9), Err(ProtocolError::UnknownUser));
}

#[test]
fn snapshot_is_independent() {
    let mut users = registry();
    let copy = users.snapshot();
    users.inc_credit_score(7, 5).unwrap();
    assert_eq!(copy.credit_score(7), Some(0));
    assert_eq!(users.credit_score(7), Some(5));
}

#[test]
fn existence_checks() {
    let mut users = registry();
    assert_eq!(users.assert_user_exist(7), Ok(()));
    assert_eq!(users.assert_user_exist(9), Err(ProtocolError::UnknownUser));
    assert_eq!(users.assert_deposit_resource_exists(7, 1), Err(ProtocolError::MissingDepositBalance));
    assert_eq!(users.assert_borrow_resource_exists(7, 1), Err(ProtocolError::MissingBorrowBalance));
    users.add_deposit_balance(7, 1, E).unwrap();
    users.increase_borrow_balance(7, 1, E).unwrap();
    assert_eq!(users.assert_deposit_resource_exists(7, 1), Ok(()));
    assert_eq!(users.assert_borrow_resource_exists(7, 1), Ok(()));
    assert_eq!(users.assert_deposit_resource_exists(9, 1), Err(ProtocolError::UnknownUser));
    assert_eq!(users.assert_borrow_resource_exists(9, 1), Err(ProtocolError::UnknownUser));
}
