//! Properties of the protocol that span its operations.

use vstd::prelude::*;
use vstd::arithmetic::div_mod::lemma_div_multiples_vanish;
use crate::bucket::Bucket;
use crate::collateral_pool::{CollateralPool, CLOSE_FACTOR_REPAY, LIQUIDATION_BONUS};
use crate::decimal::{div_attos, fits, mul_attos, trunc_div, ONE};
use crate::error::ProtocolError;
use crate::lending_pool::{health_factor_of, interest_for, repriced, LendingPool, LendingPoolView, Loan,
    ADDITIONAL_INTEREST, DEPOSIT_CREDIT, LIQUIDATION_THRESHOLD, MIN_HEALTH_FACTOR, REPAY_CREDIT, Status};
use crate::user_management::{bal, collateral_to_deposit, collaterization_discount, deposit_decrease_refusal, deposit_to_collateral, interest_discount,
    repaid, UserManagement, UserView};

verus! {

/// Turning deposit into collateral and the same amount back restores the
/// user's record, where the user already had a collateral entry in the
/// token; otherwise the only trace left is a collateral entry of zero.
pub proof fn law_collateral_round_trip(u: UserView, address: u64, amount: i128)
    requires
        deposit_to_collateral(u, address, amount) is Ok,
    ensures
        collateral_to_deposit(deposit_to_collateral(u, address, amount).unwrap(), address, amount)
            == Ok::<UserView, ProtocolError>(u.with_collateral_balance(
                u.collateral_balance.insert(address, bal(u.collateral_balance, address) as i128))),
        u.collateral_balance.contains_key(address) ==>
            collateral_to_deposit(deposit_to_collateral(u, address, amount).unwrap(), address, amount)
                == Ok::<UserView, ProtocolError>(u),
{
    let v = deposit_to_collateral(u, address, amount).unwrap();
    let w = collateral_to_deposit(v, address, amount).unwrap();
    assert(w.deposit_balance =~= u.deposit_balance);
    assert(w.collateral_balance =~= u.collateral_balance.insert(address, bal(u.collateral_balance, address) as i128));
    if u.collateral_balance.contains_key(address) {
        assert(u.collateral_balance.insert(address, bal(u.collateral_balance, address) as i128) =~= u.collateral_balance);
    }
}

/// A repayment is conserved: the borrow balance left plus the repayment
/// equals the balance before plus what is handed back; and either nothing
/// is handed back or the balance is cleared.
pub proof fn law_repayment_conserved(u: UserView, address: u64, repay: i128)
    requires
        repaid(u, address, repay) is Ok,
    ensures
        ({
            let (v, back) = repaid(u, address, repay).unwrap();
            &&& bal(v.borrow_balance, address) + repay == bal(u.borrow_balance, address) + back
            &&& back == 0 || bal(v.borrow_balance, address) == 0
            &&& back >= 0
        }),
{
}

/// The interest rate never falls as the utilisation rate rises.
pub proof fn law_interest_monotonic(low: i128, high: i128)
    requires
        low <= high,
    ensures
        interest_for(low) <= interest_for(high),
{
}

/// A higher credit score never earns a smaller reduction of the interest
/// rate or of the collateral requirement.
pub proof fn law_credit_discounts_monotonic(low: u64, high: u64)
    requires
        low <= high,
    ensures
        interest_discount(low) <= interest_discount(high),
        collaterization_discount(low) <= collaterization_discount(high),
{
}

/// A borrow that is granted never exceeds `max_borrow` times the user's
/// collateral in the token, and pays out the amount less the origination
/// fee.
pub proof fn law_borrow_within_limit(pool: &LendingPool, u: UserView, user_id: u64, token: u64, amount: i128)
    requires
        pool.borrow_terms(u, user_id, token, amount) is Ok,
    ensures
        amount <= mul_attos(bal(u.collateral_balance, token), pool.max_borrow as int),
        pool.borrow_terms(u, user_id, token, amount).unwrap().1 == amount - mul_attos(amount as int, pool.borrow_fees as int),
        pool.borrow_terms(u, user_id, token, amount).unwrap().0.principal_loan_amount == amount,
{
}

/// A liquidation through the collateral pool repays at most half of the
/// loan's balance while the loan's health factor is above the close
/// factor (and at most all of it at or below it), and pays the liquidator the
/// repayment plus the liquidation bonus on it.
pub proof fn law_liquidation_bounds(collateral_pool: &CollateralPool, users: &UserManagement, lending_pool: &LendingPool,
    loan_id: u64, collateral_address: u64, repay: Bucket)
    requires
        collateral_pool.liquidate_outcome(users, lending_pool, loan_id, collateral_address, repay) is Ok,
    ensures
        ({
            let loan = lending_pool.loan_data@[loan_id];
            let paid = collateral_pool.liquidate_outcome(users, lending_pool, loan_id, collateral_address, repay).unwrap().2;
            &&& loan.health_factor > collateral_pool.close_factor
                ==> repay.amount <= mul_attos(loan.remaining_balance as int, CLOSE_FACTOR_REPAY as int)
            &&& loan.health_factor <= collateral_pool.close_factor
                ==> repay.amount <= mul_attos(loan.remaining_balance as int, ONE as int)
            &&& paid == repay.amount + mul_attos(repay.amount as int, LIQUIDATION_BONUS as int)
        }),
{
}

/// Multiplying an amount by one leaves it unchanged.
pub proof fn lemma_mul_one(x: int)
    ensures
        mul_attos(x, ONE as int) == x,
{
    if x >= 0 {
        lemma_div_multiples_vanish(x, ONE as int);
        assert(x * ONE == ONE * x);
    } else {
        lemma_div_multiples_vanish(-x, ONE as int);
        assert(-x * ONE == ONE * (-x));
        assert((x * ONE) == -((-x) * ONE));
    }
}

/// An amount divided by itself is one.
pub proof fn lemma_div_self(x: int)
    requires
        x > 0,
    ensures
        div_attos(x, x) == ONE,
{
    lemma_div_multiples_vanish(ONE as int, x);
    assert(x * ONE == x * (ONE as int));
}

/// While the pool's vault holds exactly what has been supplied (nothing
/// is lent out), redeeming an amount of supply pays out exactly that
/// amount.
pub proof fn law_redeem_at_par(pool: &LendingPool, users: &UserManagement, user_id: u64, token: u64, amount: i128)
    requires
        pool.liquidity == pool.supplied_amount,
        pool.supplied_amount > 0,
        pool.redeem_outcome(users, user_id, token, amount) is Ok,
    ensures
        pool.redeem_outcome(users, user_id, token, amount).unwrap().1 == amount,
{
    lemma_div_self(pool.supplied_amount as int);
    lemma_mul_one(amount as int);
}

/// A deposit is only ever withdrawn from a user who owes nothing in the
/// token, and never below zero.
pub proof fn law_withdrawal_needs_no_lien(u: UserView, address: u64, amount: i128)
    requires
        deposit_decrease_refusal(u, address, amount) is None,
    ensures
        bal(u.borrow_balance, address) == 0,
        bal(u.deposit_balance, address) - amount >= 0,
{
}

/// Every issued loan at or below the minimum health factor is on the list of
/// bad loans once it has been refreshed, and the list only ever names
/// issued loans.
pub proof fn law_bad_loans_complete(pool: LendingPoolView)
    requires
        pool.bad_loans.subset_of(pool.loans),
    ensures
        forall|l: u64| pool.loans.contains(l) && pool.is_bad(l) ==> #[trigger] pool.bad_loans_found().contains(l),
        pool.bad_loans_found().subset_of(pool.loans),
{
}

/// Tidying the list of bad loans takes off at most one loan, and only one
/// that is above the minimum health factor again or paid off.
pub proof fn law_tidy_removes_one_cleanable(before: LendingPoolView, after: LendingPoolView)
    requires
        before.closed_loan_removed(after),
    ensures
        after.bad_loans.subset_of(before.bad_loans),
        forall|l: u64| #[trigger] before.bad_loans.contains(l) && !after.bad_loans.contains(l) ==> before.is_cleanable(l),
        forall|l1: u64, l2: u64| #[trigger] before.bad_loans.contains(l1) && !after.bad_loans.contains(l1)
            && #[trigger] before.bad_loans.contains(l2) && !after.bad_loans.contains(l2) ==> l1 == l2,
{
    if exists|x: u64| #[trigger] before.bad_loans.contains(x) && before.is_cleanable(x) {
        let m = choose|m: u64| before.is_least_cleanable(m) && after == (LendingPoolView { bad_loans: before.bad_loans.remove(m), ..before });
    }
}

/// A user's accounts are recorded: once `new_user` has given an account a
/// record, the account is on the registry's list, and `new_user` refuses
/// it from then on.
pub proof fn law_one_record_per_account(before: &UserManagement, after: &UserManagement, account_address: u64)
    requires
        after.account_record@ == before.account_record@.push(account_address),
    ensures
        after.account_record@.contains(account_address),
{
    assert(after.account_record@[before.account_record@.len() as int] == account_address);
}

/// A granted borrow records the health factor of the new loan at the
/// pool's current collateral price: the collateral's value at that price,
/// weighted by the liquidation threshold, over the loan's remaining balance.
/// It is what `set_price` would compute for the loan at the same price, and
/// the recorded collateral value is the collateral at that price.
pub proof fn law_borrow_health_factor_at_price(pool: &LendingPool, users: &UserManagement, user_id: u64, token: u64,
    amount: i128, loan_id: u64)
    requires
        pool.borrow_outcome(users, user_id, token, amount, loan_id) is Ok,
    ensures
        ({
            let loan = pool.borrow_outcome(users, user_id, token, amount, loan_id).unwrap().0;
            let collateral = bal(users.user(user_id).collateral_balance, token);
            &&& loan.collateral_amount == collateral
            &&& loan.collateral_amount_usd == trunc_div(collateral * pool.xrd_usd, ONE as int)
            &&& loan.health_factor == trunc_div(
                    trunc_div(trunc_div(collateral * pool.xrd_usd, ONE as int) * LIQUIDATION_THRESHOLD, ONE as int) * ONE,
                    loan.remaining_balance as int)
            &&& health_factor_of(loan.collateral_amount, pool.xrd_usd, loan.remaining_balance)
                    == Some(loan.health_factor)
            &&& repriced(loan, pool.xrd_usd) == loan
        }),
{
}

/// An additional borrow of `amount` on a loan adds to the loan's balance the
/// whole amount handed out plus the additional interest on it, and adds
/// that interest to the loan's interest expense; the rest of the loan's
/// record is unchanged.
pub proof fn law_borrow_additional_owes_amount(pool: &LendingPool, users: &UserManagement, user_id: u64, loan_id: u64,
    token: u64, amount: i128)
    requires
        pool.borrow_additional_outcome(users, user_id, loan_id, token, amount) is Ok,
    ensures
        ({
            let before = pool.loan_data@[loan_id];
            let after = pool.borrow_additional_outcome(users, user_id, loan_id, token, amount).unwrap().0;
            let interest = trunc_div(amount * ADDITIONAL_INTEREST, ONE as int);
            &&& after.remaining_balance == before.remaining_balance + amount + interest
            &&& after.interest_expense == before.interest_expense + interest
            &&& amount >= 0 ==> after.remaining_balance >= before.remaining_balance + amount
            &&& after == Loan { remaining_balance: after.remaining_balance, interest_expense: after.interest_expense, ..before }
        }),
{
    let interest = trunc_div(amount * ADDITIONAL_INTEREST, ONE as int);
    if amount >= 0 {
        assert(amount * ADDITIONAL_INTEREST >= 0) by (nonlinear_arith)
            requires amount >= 0;
        assert(interest >= 0);
    }
}

/// The interest rate by utilisation rate: 0.12 above 0.90, 0.11 above 0.80,
/// 0.10 above 0.70, 0.09 above 0.60, and 0.08 otherwise.
pub proof fn law_interest_table(u: i128)
    ensures
        u > 900_000_000_000_000_000 ==> interest_for(u) == 120_000_000_000_000_000,
        800_000_000_000_000_000 < u <= 900_000_000_000_000_000 ==> interest_for(u) == 110_000_000_000_000_000,
        700_000_000_000_000_000 < u <= 800_000_000_000_000_000 ==> interest_for(u) == 100_000_000_000_000_000,
        600_000_000_000_000_000 < u <= 700_000_000_000_000_000 ==> interest_for(u) == 90_000_000_000_000_000,
        u <= 600_000_000_000_000_000 ==> interest_for(u) == 80_000_000_000_000_000,
{
}

/// A granted borrow charges the rate that the table gives for the pool's
/// utilisation once the amount paid out is counted as borrowed, less the
/// borrower's credit discount; the interest expense is that rate on the
/// amount borrowed, and the loan's balance is the amount paid out plus
/// that expense.
pub proof fn law_borrow_interest(pool: &LendingPool, users: &UserManagement, user_id: u64, token: u64,
    amount: i128, loan_id: u64)
    requires
        pool.borrow_outcome(users, user_id, token, amount, loan_id) is Ok,
    ensures
        ({
            let (loan, actual) = pool.borrow_outcome(users, user_id, token, amount, loan_id).unwrap();
            let util = trunc_div((pool.borrow_amount + actual) * ONE, pool.supplied_amount as int);
            let discount = interest_discount(users.user(user_id).credit_score);
            &&& util > 900_000_000_000_000_000 ==> loan.interest == 120_000_000_000_000_000 - discount
            &&& 800_000_000_000_000_000 < util <= 900_000_000_000_000_000 ==> loan.interest == 110_000_000_000_000_000 - discount
            &&& 700_000_000_000_000_000 < util <= 800_000_000_000_000_000 ==> loan.interest == 100_000_000_000_000_000 - discount
            &&& 600_000_000_000_000_000 < util <= 700_000_000_000_000_000 ==> loan.interest == 90_000_000_000_000_000 - discount
            &&& util <= 600_000_000_000_000_000 ==> loan.interest == 80_000_000_000_000_000 - discount
            &&& loan.interest_expense == trunc_div(amount * loan.interest, ONE as int)
            &&& loan.remaining_balance == actual + loan.interest_expense
            &&& loan.principal_loan_amount == amount
            &&& loan.owner == user_id
        }),
{
}

/// A loan is flagged bad (by `check_collateral_ratio`, and added to the
/// list by `insert_bad_loans`) exactly when its health factor is at most
/// the pool's minimum health factor; in a pool as opened, that minimum is
/// one. A loan above it is never added.
pub proof fn law_bad_means_at_most_min_health(pool: LendingPoolView, l: u64)
    requires
        pool.bad_loans.subset_of(pool.loans),
    ensures
        pool.is_bad(l) <==> pool.loan_data[l].health_factor <= pool.min_health_factor,
        pool.min_health_factor == MIN_HEALTH_FACTOR ==> (pool.is_bad(l) <==> pool.loan_data[l].health_factor <= ONE),
        !pool.bad_loans.contains(l) && pool.loan_data[l].health_factor > pool.min_health_factor
            ==> !pool.bad_loans_found().contains(l),
        pool.loans.contains(l) && pool.loan_data[l].health_factor <= pool.min_health_factor
            ==> pool.bad_loans_found().contains(l),
{
}

/// A supply deposit by a registered user, of a non-zero amount in the
/// pool's token, whose new balances and credit score fit, is accepted,
/// whatever the user's borrow or collateral balances and loans.
pub proof fn law_deposit_accepted(pool: &LendingPool, users: &UserManagement, user_id: u64, bucket: Bucket)
    requires
        users.users().contains_key(user_id),
        bucket.resource == pool.token,
        bucket.amount != 0,
        fits(bal(users.user(user_id).deposit_balance, pool.token) + bucket.amount),
        users.user(user_id).credit_score + DEPOSIT_CREDIT <= u64::MAX,
        fits(pool.supplied_amount + bucket.amount),
        fits(pool.liquidity + bucket.amount),
    ensures
        pool.deposit_refusal(users, user_id, pool.token, bucket) is None,
{
}

/// Whether a supply deposit is accepted does not depend on what the user
/// owes, has posted as collateral, or has borrowed.
pub proof fn law_deposit_ignores_debt(pool: LendingPoolView, users: Map<u64, UserView>, user_id: u64, token: u64,
    bucket: Bucket, borrow: Map<u64, i128>, collateral: Map<u64, i128>, open: Map<u64, u64>, closed: Map<u64, u64>)
    requires
        users.contains_key(user_id),
    ensures
        pool.deposit_refusal(users.insert(user_id, users[user_id].with_borrow_balance(borrow)
            .with_collateral_balance(collateral).with_loans(open, closed)), user_id, token, bucket)
            == pool.deposit_refusal(users, user_id, token, bucket),
{
}

/// A granted borrow pays out the amount less the origination fee, and
/// records the liquidation price: the price at which the collateral, at the
/// minimum collateralisation, just covers the amount paid out.
pub proof fn law_borrow_payout_and_liquidation_price(pool: &LendingPool, users: &UserManagement, user_id: u64,
    token: u64, amount: i128, loan_id: u64)
    requires
        pool.borrow_outcome(users, user_id, token, amount, loan_id) is Ok,
    ensures
        ({
            let (loan, actual) = pool.borrow_outcome(users, user_id, token, amount, loan_id).unwrap();
            &&& actual == amount - trunc_div(amount * pool.borrow_fees, ONE as int)
            &&& loan.liquidation_price == trunc_div(
                    trunc_div(trunc_div(actual * pool.xrd_usd, ONE as int) * pool.min_collaterization, ONE as int) * ONE,
                    loan.collateral_amount as int)
            &&& loan.loan_status == Status::Current
            &&& !users.user(user_id).open_loans.contains_key(token)
            &&& !pool.loan_data@.contains_key(loan_id)
        }),
{
}

/// A repayment lowers the loan's balance by the amount repaid; the loan is
/// paid off exactly when the repayment covers its balance, and then its
/// balance is zero, the owner earns the repayment credit twice and one more
/// paid-off loan, and the loan moves from the open to the closed loans.
pub proof fn law_repay_settles_loan(pool: &LendingPool, users: &UserManagement, user_id: u64, loan_id: u64,
    token: u64, bucket: Bucket)
    requires
        pool.repay_outcome(users, user_id, loan_id, token, bucket) is Ok,
    ensures
        ({
            let before = pool.loan_data@[loan_id];
            let (after, u, back) = pool.repay_outcome(users, user_id, loan_id, token, bucket).unwrap();
            let u0 = users.user(user_id);
            &&& before.remaining_balance <= bucket.amount ==> {
                &&& after.loan_status == Status::PaidOff
                &&& after.remaining_balance == 0
                &&& u.credit_score == u0.credit_score + 2 * REPAY_CREDIT
                &&& u.paid_off == u0.paid_off + 1
                &&& !u.open_loans.contains_key(token)
                &&& u.closed_loans[token] == loan_id
            }
            &&& before.remaining_balance > bucket.amount ==> {
                &&& after.loan_status == Status::Current
                &&& after.remaining_balance == before.remaining_balance - bucket.amount
                &&& u.credit_score == u0.credit_score
                &&& u.open_loans == u0.open_loans
            }
            &&& before.loan_status != Status::PaidOff
            &&& 0 <= back <= bucket.amount
            &&& bal(u.borrow_balance, token) + bucket.amount == bal(u0.borrow_balance, token) + back
        }),
{
}

} // verus!
