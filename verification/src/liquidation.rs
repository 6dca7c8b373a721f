//! The liquidation component: repays part of a bad loan and pays the
//! liquidator the equivalent collateral plus a bonus.

use vstd::prelude::*;
use crate::bucket::Bucket;
use crate::collateral_pool::CollateralPool;
use crate::decimal::{dec_div, dec_mul, div_attos, fits, mul_attos};
use crate::error::ProtocolError;
use crate::lending_pool::{LendingPool, LendingPoolView, Loan, Status,
    DEPOSIT_CREDIT};
use crate::user_management::{credited, UserManagement, UserView};

verus! {

broadcast use vstd::std_specs::hash::group_hash_axioms, vstd::std_specs::btree::group_btree_axioms;

/// The data of the badge that records a liquidator's claim.
pub struct ClaimBadge {
    pub claim_amount: i128,
}

/// The liquidation component and its terms.
#[derive(Debug, Clone, Copy, PartialEq, Eq, Structural)]
pub struct Liquidation {
    /// The bonus on the repaid amount that the liquidator takes.
    pub liquidation_bonus: i128,
    /// The share of a loan's balance that one liquidation may repay.
    pub max_repay: i128,
}

impl Liquidation {
    /// A liquidation component with a bonus of five hundredths and a
    /// maximum repayment of one half.
    pub fn new() -> (l: Liquidation)
        ensures l == (Liquidation { liquidation_bonus: 50_000_000_000_000_000, max_repay: 500_000_000_000_000_000 }),
    {
        Liquidation { liquidation_bonus: 50_000_000_000_000_000, max_repay: 500_000_000_000_000_000 }
    }

    /// The checks that [`Liquidation::liquidate`] makes before it touches
    /// any component: the loan must exist and be on the list of bad loans,
    /// the repayment may cover `max_repay` of its balance, and must equal
    /// its value at the collateral price. Gives the collateral to be taken:
    /// that value plus the bonus.
    pub open spec fn liquidate_terms(&self, lending_pool: LendingPoolView, loan_id: u64, repay: Bucket) -> Result<i128, ProtocolError> {
        let loan = lending_pool.loan_data[loan_id];
        let limit = mul_attos(loan.remaining_balance as int, self.max_repay as int);
        let value = div_attos(repay.amount as int, lending_pool.xrd_usd as int);
        let bonus = mul_attos(value, self.liquidation_bonus as int);
        let taken = value + bonus;
        if !lending_pool.loan_data.contains_key(loan_id) {
            Err(ProtocolError::UnknownLoan)
        } else if !lending_pool.bad_loans.contains(loan_id) {
            Err(ProtocolError::NotLiquidatable)
        } else if !fits(limit) {
            Err(ProtocolError::Overflow)
        } else if repay.amount > limit {
            Err(ProtocolError::MaxRepayExceeded)
        } else if lending_pool.xrd_usd == 0 || !fits(value) {
            Err(ProtocolError::Overflow)
        } else if repay.amount != value {
            Err(ProtocolError::PriceMismatch)
        } else if !fits(bonus) || !fits(taken) {
            Err(ProtocolError::Overflow)
        } else {
            Ok(taken as i128)
        }
    }

    /// What [`Liquidation::liquidate`] does once its checks have passed: the
    /// owner's record afterwards, or why it is refused. The collateral taken
    /// is charged to the owner's deposit balance (see
    /// [`UserManagement::decrease_deposit_balance`]) and paid out of the
    /// collateral pool's vault, whatever the owner's other loans; the owner counts
    /// one more default, the loan is marked defaulted, and the repayment is
    /// supplied to the lending pool on the owner's behalf.
    pub open spec fn liquidate_outcome(&self, users: &UserManagement, lending_pool: &LendingPool, collateral_pool: &CollateralPool,
        loan_id: u64, token_address: u64, repay: Bucket, taken: i128) -> Result<UserView, ProtocolError> {
        let owner = lending_pool.loan_data@[loan_id].owner;
        match collateral_pool.redeem_outcome(users, owner, token_address, taken) {
            Err(e) => Err(e),
            Ok(u1) => if u1.defaults == u64::MAX {
                Err(ProtocolError::Overflow)
            } else {
                let u2 = u1.with_defaults((u1.defaults + 1) as u64);
                let pool = Self::defaulted(lending_pool@, loan_id);
                match pool.deposit_refusal(users.users().insert(owner, u2), owner, token_address, repay) {
                    Some(e) => Err(e),
                    None => Ok(u2.with_deposit_balance(credited(u2.deposit_balance, token_address, repay.amount as int))
                        .with_credit_score((u2.credit_score + DEPOSIT_CREDIT) as u64)),
                }
            },
        }
    }

    /// `pool` with the loan `loan_id` marked defaulted.
    pub open spec fn defaulted(pool: LendingPoolView, loan_id: u64) -> LendingPoolView {
        LendingPoolView {
            loan_data: pool.loan_data.insert(loan_id, Loan { loan_status: Status::Defaulted, ..pool.loan_data[loan_id] }),
            ..pool
        }
    }

    /// Liquidates the bad loan `loan_id` with `repay` (see
    /// [`Liquidation::liquidate_terms`] and
    /// [`Liquidation::liquidate_outcome`]). The liquidator receives the
    /// collateral taken, from the collateral pool.
    pub fn liquidate(&self, users: &mut UserManagement, lending_pool: &mut LendingPool, collateral_pool: &mut CollateralPool,
        loan_id: u64, token_address: u64, repay: Bucket) -> (r: Result<Bucket, ProtocolError>)
        requires
            old(lending_pool).wf(),
            old(collateral_pool).wf(),
            repay.amount >= 0,
        ensures
            final(lending_pool).wf(),
            final(collateral_pool).wf(),
            r is Err ==> final(users).same(old(users)) && final(lending_pool).same(old(lending_pool))
                && *final(collateral_pool) == *old(collateral_pool),
            match self.liquidate_terms(old(lending_pool)@, loan_id, repay) {
                Err(e) => r == Err::<Bucket, ProtocolError>(e),
                Ok(taken) => {
                    let owner = old(lending_pool).loan_data@[loan_id].owner;
                    &&& !old(users).users().contains_key(owner) ==> r == Err::<Bucket, ProtocolError>(ProtocolError::UnknownUser)
                    &&& old(users).users().contains_key(owner) ==>
                        match self.liquidate_outcome(old(users), old(lending_pool), old(collateral_pool), loan_id, token_address, repay, taken) {
                            Err(e) => r == Err::<Bucket, ProtocolError>(e),
                            Ok(u) => {
                                &&& r == Ok::<Bucket, ProtocolError>(Bucket { resource: old(collateral_pool).token, amount: taken })
                                &&& old(users).updated(final(users), owner, u)
                                &&& *final(collateral_pool) == (CollateralPool {
                                    liquidity: (old(collateral_pool).liquidity - taken) as i128,
                                    ..*old(collateral_pool)
                                })
                                &&& final(lending_pool)@ == (LendingPoolView {
                                    supplied_amount: (old(lending_pool).supplied_amount + repay.amount) as i128,
                                    liquidity: (old(lending_pool).liquidity + repay.amount) as i128,
                                    ..Self::defaulted(old(lending_pool)@, loan_id)
                                })
                            },
                        }
                },
            },
    {
        let loan: Loan = match lending_pool.loan_data.get(&loan_id) {
            Some(l) => *l,
            None => return Err(ProtocolError::UnknownLoan),
        };
        if !lending_pool.bad_loans.contains(&loan_id) {
            return Err(ProtocolError::NotLiquidatable);
        }
        let owner = loan.owner;
        let limit = match dec_mul(loan.remaining_balance, self.max_repay) {
            Some(v) => v,
            None => return Err(ProtocolError::Overflow),
        };
        if repay.amount > limit {
            return Err(ProtocolError::MaxRepayExceeded);
        }
        let value = match dec_div(repay.amount, lending_pool.xrd_usd) {
            Some(v) => v,
            None => return Err(ProtocolError::Overflow),
        };
        if repay.amount != value {
            return Err(ProtocolError::PriceMismatch);
        }
        let bonus = match dec_mul(value, self.liquidation_bonus) {
            Some(v) => v,
            None => return Err(ProtocolError::Overflow),
        };
        let taken = match value.checked_add(bonus) {
            Some(v) => v,
            None => return Err(ProtocolError::Overflow),
        };
        let mut staged_users = users.snapshot();
        let mut staged_collateral = *collateral_pool;
        match staged_users.decrease_deposit_balance(owner, token_address, taken) {
            Ok(()) => {},
            Err(e) => return Err(e),
        }
        let claim = match staged_collateral.withdraw_vault(taken) {
            Ok(b) => b,
            Err(e) => return Err(e),
        };
        let ghost s1 = staged_users.users();
        match staged_users.inc_default(owner) {
            Ok(()) => {},
            Err(e) => return Err(e),
        }
        let mut staged_pool = lending_pool.snapshot();
        match staged_pool.default_loan(loan_id) {
            Ok(()) => {},
            Err(e) => return Err(e),
        }
        let ghost s2 = staged_users.users();
        match staged_pool.deposit(&mut staged_users, owner, token_address, repay) {
            Ok(()) => {},
            Err(e) => return Err(e),
        }
        proof {
            let u1 = s1[owner];
            let u2 = u1.with_defaults((u1.defaults + 1) as u64);
            assert(s2 =~= users.users().insert(owner, u2));
            assert(staged_users.users() =~= users.users().insert(owner,
                u2.with_deposit_balance(credited(u2.deposit_balance, token_address, repay.amount as int))
                    .with_credit_score((u2.credit_score + DEPOSIT_CREDIT) as u64)));
        }
        *users = staged_users;
        *collateral_pool = staged_collateral;
        *lending_pool = staged_pool;
        Ok(claim)
    }

    /// Checks that the loan `loan_id` may be liquidated by price: its
    /// liquidation price must lie above the collateral price.
    pub fn liquidatev2(&self, lending_pool: &LendingPool, loan_id: u64) -> (r: Result<(), ProtocolError>)
        ensures
            !lending_pool.loan_data@.contains_key(loan_id) ==> r == Err::<(), ProtocolError>(ProtocolError::UnknownLoan),
            lending_pool.loan_data@.contains_key(loan_id) ==> r == (if lending_pool.loan_data@[loan_id].liquidation_price <= lending_pool.xrd_usd {
                Err::<(), ProtocolError>(ProtocolError::NotLiquidatable)
            } else {
                Ok::<(), ProtocolError>(())
            }),
    {
        match lending_pool.loan_data.get(&loan_id) {
            None => Err(ProtocolError::UnknownLoan),
            Some(l) => if l.liquidation_price <= lending_pool.xrd_usd {
                Err(ProtocolError::NotLiquidatable)
            } else {
                Ok(())
            },
        }
    }
}

} // verus!
