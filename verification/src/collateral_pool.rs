//! The collateral pool: collateral posted against loans, its release back
//! to the lending pool, and the liquidation of unhealthy loans.

use vstd::prelude::*;
use crate::bucket::Bucket;
use crate::decimal::{dec_mul, fits, mul_attos, ONE};
use crate::error::ProtocolError;
use crate::lending_pool::{loans_settled, no_loan_settled, some_loan_current, some_loan_unrecorded, LendingPool, LendingPoolView, Loan, Status};
use crate::user_management::{bal, collateral_seized, collateral_to_deposit, credited, deposit_decrease_refusal,
    deposit_to_collateral, repaid, UserManagement, UserView};

verus! {

broadcast use vstd::std_specs::hash::group_hash_axioms;

/// The share of a loan's balance that one liquidation may repay while the
/// loan's health factor is above the close factor: one half.
pub const CLOSE_FACTOR_REPAY: i128 = 500_000_000_000_000_000;
/// The bonus on the repaid amount that a liquidator takes from the
/// collateral: five hundredths.
pub const LIQUIDATION_BONUS: i128 = 50_000_000_000_000_000;
/// The credit score that a liquidation costs the borrower.
pub const DEFAULT_PENALTY: u64 = 80;

/// The collateral pool of one token.
#[derive(Debug, Clone, Copy, PartialEq, Eq, Structural)]
pub struct CollateralPool {
    /// The pool's token.
    pub token: u64,
    /// What the pool's vault holds.
    pub liquidity: i128,
    /// The health factor at or below which a whole loan may be repaid by
    /// one liquidation.
    pub close_factor: i128,
}

impl CollateralPool {
    /// What the pool keeps true between calls: the vault is not overdrawn.
    pub open spec fn wf(&self) -> bool {
        self.liquidity >= 0
    }

    /// Why a withdrawal of `amount` from the vault is refused, if it is.
    pub open spec fn withdraw_refusal(&self, amount: i128) -> Option<ProtocolError> {
        if self.liquidity < amount {
            Some(ProtocolError::InsufficientLiquidity)
        } else if amount < 0 {
            Some(ProtocolError::InvalidAmount)
        } else {
            None
        }
    }

    /// An empty collateral pool for `token_address`, with a close factor of
    /// one half.
    pub fn new(token_address: u64) -> (p: CollateralPool)
        ensures
            p.wf(),
            p == (CollateralPool { token: token_address, liquidity: 0, close_factor: 500_000_000_000_000_000 }),
    {
        CollateralPool { token: token_address, liquidity: 0, close_factor: 500_000_000_000_000_000 }
    }

    /// The tokens the pool holds (one).
    pub fn addresses(&self) -> (r: Vec<u64>)
        ensures r@ == seq![self.token],
    {
        let mut v = Vec::new();
        v.push(self.token);
        v
    }

    /// Whether `address` is the pool's token.
    pub fn belongs_to_pool(&self, address: u64) -> (r: bool)
        ensures r == (address == self.token),
    {
        address == self.token
    }

    /// Fails unless `address` is the pool's token.
    pub fn assert_belongs_to_pool(&self, address: u64) -> (r: Result<(), ProtocolError>)
        ensures
            r == (if address == self.token {
                Ok::<(), ProtocolError>(())
            } else {
                Err::<(), ProtocolError>(ProtocolError::NotInPool)
            }),
    {
        if self.belongs_to_pool(address) { Ok(()) } else { Err(ProtocolError::NotInPool) }
    }

    /// Takes `amount` of `resource_address`, which must be the pool's
    /// token, out of the vault.
    fn withdraw(&mut self, resource_address: u64, amount: i128) -> (r: Result<Bucket, ProtocolError>)
        requires
            old(self).wf(),
        ensures
            final(self).wf(),
            r == (if resource_address != old(self).token {
                Err::<Bucket, ProtocolError>(ProtocolError::NotInPool)
            } else {
                match old(self).withdraw_refusal(amount) {
                    Some(e) => Err::<Bucket, ProtocolError>(e),
                    None => Ok::<Bucket, ProtocolError>(Bucket { resource: resource_address, amount }),
                }
            }),
            r is Err ==> *final(self) == *old(self),
            r is Ok ==> *final(self) == (CollateralPool { liquidity: (old(self).liquidity - amount) as i128, ..*old(self) }),
    {
        match self.assert_belongs_to_pool(resource_address) {
            Ok(()) => {},
            Err(e) => return Err(e),
        }
        if self.liquidity < amount {
            return Err(ProtocolError::InsufficientLiquidity);
        }
        if amount < 0 {
            return Err(ProtocolError::InvalidAmount);
        }
        self.liquidity = self.liquidity - amount;
        Ok(Bucket { resource: resource_address, amount })
    }

    /// What the vault of `token_address` holds.
    pub fn check_total_collateral_supplied(&self, token_address: u64) -> (r: Result<i128, ProtocolError>)
        ensures
            r == (if token_address == self.token {
                Ok::<i128, ProtocolError>(self.liquidity)
            } else {
                Err::<i128, ProtocolError>(ProtocolError::NotInPool)
            }),
    {
        if token_address == self.token { Ok(self.liquidity) } else { Err(ProtocolError::NotInPool) }
    }

    /// Takes `amount` out of the vault.
    pub fn withdraw_vault(&mut self, amount: i128) -> (r: Result<Bucket, ProtocolError>)
        requires
            old(self).wf(),
        ensures
            final(self).wf(),
            r == (match old(self).withdraw_refusal(amount) {
                Some(e) => Err::<Bucket, ProtocolError>(e),
                None => Ok::<Bucket, ProtocolError>(Bucket { resource: old(self).token, amount }),
            }),
            r is Err ==> *final(self) == *old(self),
            r is Ok ==> *final(self) == (CollateralPool { liquidity: (old(self).liquidity - amount) as i128, ..*old(self) }),
    {
        let token = self.token;
        self.withdraw(token, amount)
    }

    /// Why putting `amount` of `resource` into the vault is refused, if it is.
    pub open spec fn put_refusal(&self, resource: u64, amount: i128) -> Option<ProtocolError> {
        if resource != self.token {
            Some(ProtocolError::NotInPool)
        } else if !fits(self.liquidity + amount) {
            Some(ProtocolError::Overflow)
        } else {
            None
        }
    }

    /// Why [`CollateralPool::deposit`] is refused, if it is; otherwise the
    /// user's record after it.
    pub open spec fn deposit_outcome(&self, users: &UserManagement, user_id: u64, token_address: u64, bucket: Bucket)
        -> Result<UserView, ProtocolError> {
        let u = users.user(user_id);
        if token_address != bucket.resource {
            Err(ProtocolError::TokenMismatch)
        } else if !users.users().contains_key(user_id) {
            Err(ProtocolError::UnknownUser)
        } else if !fits(bal(u.collateral_balance, token_address) + bucket.amount) {
            Err(ProtocolError::Overflow)
        } else {
            match self.put_refusal(bucket.resource, bucket.amount) {
                Some(e) => Err(e),
                None => Ok(u.with_collateral_balance(credited(u.collateral_balance, token_address, bucket.amount as int))),
            }
        }
    }

    /// Posts `bucket` as collateral of `user_id`: the user's collateral
    /// balance and the vault grow by the amount.
    pub fn deposit(&mut self, users: &mut UserManagement, user_id: u64, token_address: u64, bucket: Bucket)
        -> (r: Result<(), ProtocolError>)
        requires
            old(self).wf(),
            bucket.amount >= 0,
        ensures
            final(self).wf(),
            match old(self).deposit_outcome(old(users), user_id, token_address, bucket) {
                Err(e) => r == Err::<(), ProtocolError>(e) && *final(self) == *old(self) && final(users).same(old(users)),
                Ok(u) => r is Ok && old(users).updated(final(users), user_id, u)
                    && *final(self) == (CollateralPool { liquidity: (old(self).liquidity + bucket.amount) as i128, ..*old(self) }),
            },
    {
        if token_address != bucket.resource {
            return Err(ProtocolError::TokenMismatch);
        }
        let mut staged = users.snapshot();
        match staged.add_collateral_balance(user_id, token_address, bucket.amount) {
            Ok(()) => {},
            Err(e) => return Err(e),
        }
        if bucket.resource != self.token {
            return Err(ProtocolError::NotInPool);
        }
        let liquidity = match self.liquidity.checked_add(bucket.amount) {
            Some(v) => v,
            None => return Err(ProtocolError::Overflow),
        };
        *users = staged;
        self.liquidity = liquidity;
        Ok(())
    }

    /// Why [`CollateralPool::deposit_additional`] is refused, if it is;
    /// otherwise the user's record after it.
    pub open spec fn deposit_additional_outcome(&self, users: &UserManagement, lending_pool: &LendingPool, user_id: u64,
        loan_id: u64, token_address: u64, bucket: Bucket) -> Result<UserView, ProtocolError> {
        let u = users.user(user_id);
        if token_address != bucket.resource {
            Err(ProtocolError::TokenMismatch)
        } else if !lending_pool.loan_data@.contains_key(loan_id) {
            Err(ProtocolError::UnknownLoan)
        } else if !users.users().contains_key(user_id) {
            Err(ProtocolError::UnknownUser)
        } else if !fits(bal(u.collateral_balance, token_address) + bucket.amount)
            || !fits(lending_pool.loan_data@[loan_id].collateral_amount + bucket.amount) {
            Err(ProtocolError::Overflow)
        } else {
            match self.put_refusal(bucket.resource, bucket.amount) {
                Some(e) => Err(e),
                None => Ok(u.with_collateral_balance(credited(u.collateral_balance, token_address, bucket.amount as int))),
            }
        }
    }

    /// Posts `bucket` as more collateral of `user_id` for the loan
    /// `loan_id`, which must exist: the user's collateral balance, the
    /// loan's collateral amount and the vault grow by the amount.
    pub fn deposit_additional(&mut self, users: &mut UserManagement, lending_pool: &mut LendingPool, user_id: u64, loan_id: u64,
        token_address: u64, bucket: Bucket) -> (r: Result<(), ProtocolError>)
        requires
            old(self).wf(),
            old(lending_pool).wf(),
            bucket.amount >= 0,
        ensures
            final(self).wf(),
            final(lending_pool).wf(),
            match old(self).deposit_additional_outcome(old(users), old(lending_pool), user_id, loan_id, token_address, bucket) {
                Err(e) => r == Err::<(), ProtocolError>(e) && *final(self) == *old(self) && final(users).same(old(users))
                    && final(lending_pool).same(old(lending_pool)),
                Ok(u) => {
                    let loan = old(lending_pool).loan_data@[loan_id];
                    &&& r is Ok
                    &&& old(users).updated(final(users), user_id, u)
                    &&& *final(self) == (CollateralPool { liquidity: (old(self).liquidity + bucket.amount) as i128, ..*old(self) })
                    &&& final(lending_pool)@ == (LendingPoolView {
                        loan_data: old(lending_pool).loan_data@.insert(loan_id,
                            Loan { collateral_amount: (loan.collateral_amount + bucket.amount) as i128, ..loan }),
                        ..old(lending_pool)@
                    })
                },
            },
    {
        if token_address != bucket.resource {
            return Err(ProtocolError::TokenMismatch);
        }
        let loan: Loan = match lending_pool.loan_data.get(&loan_id) {
            Some(l) => *l,
            None => return Err(ProtocolError::UnknownLoan),
        };
        let mut staged = users.snapshot();
        match staged.add_collateral_balance(user_id, token_address, bucket.amount) {
            Ok(()) => {},
            Err(e) => return Err(e),
        }
        let collateral_amount = match loan.collateral_amount.checked_add(bucket.amount) {
            Some(v) => v,
            None => return Err(ProtocolError::Overflow),
        };
        if bucket.resource != self.token {
            return Err(ProtocolError::NotInPool);
        }
        let liquidity = match self.liquidity.checked_add(bucket.amount) {
            Some(v) => v,
            None => return Err(ProtocolError::Overflow),
        };
        *users = staged;
        self.liquidity = liquidity;
        lending_pool.loan_data.insert(loan_id, Loan { collateral_amount, ..loan });
        Ok(())
    }

    /// Why [`CollateralPool::convert_from_deposit`] is refused, if it is;
    /// otherwise the user's record after it.
    pub open spec fn convert_from_deposit_outcome(&self, users: &UserManagement, user_id: u64, token_address: u64, bucket: Bucket)
        -> Result<UserView, ProtocolError> {
        if token_address != bucket.resource {
            Err(ProtocolError::TokenMismatch)
        } else if !users.users().contains_key(user_id) {
            Err(ProtocolError::UnknownUser)
        } else {
            match deposit_to_collateral(users.user(user_id), token_address, bucket.amount) {
                Err(e) => Err(e),
                Ok(u) => match self.put_refusal(bucket.resource, bucket.amount) {
                    Some(e) => Err(e),
                    None => Ok(u),
                },
            }
        }
    }

    /// Takes `bucket`, supply of `user_id` moved over by the lending pool,
    /// as collateral: the user's deposit balance in the token becomes
    /// collateral balance, and the funds go to the vault.
    pub fn convert_from_deposit(&mut self, users: &mut UserManagement, user_id: u64, token_address: u64, bucket: Bucket)
        -> (r: Result<(), ProtocolError>)
        requires
            old(self).wf(),
            bucket.amount >= 0,
        ensures
            final(self).wf(),
            match old(self).convert_from_deposit_outcome(old(users), user_id, token_address, bucket) {
                Err(e) => r == Err::<(), ProtocolError>(e) && *final(self) == *old(self) && final(users).same(old(users)),
                Ok(u) => r is Ok && old(users).updated(final(users), user_id, u)
                    && *final(self) == (CollateralPool { liquidity: (old(self).liquidity + bucket.amount) as i128, ..*old(self) }),
            },
    {
        if token_address != bucket.resource {
            return Err(ProtocolError::TokenMismatch);
        }
        let mut staged = users.snapshot();
        match staged.convert_deposit_to_collateral(user_id, token_address, bucket.amount) {
            Ok(()) => {},
            Err(e) => return Err(e),
        }
        if bucket.resource != self.token {
            return Err(ProtocolError::NotInPool);
        }
        let liquidity = match self.liquidity.checked_add(bucket.amount) {
            Some(v) => v,
            None => return Err(ProtocolError::Overflow),
        };
        *users = staged;
        self.liquidity = liquidity;
        Ok(())
    }

    /// The user's record after [`CollateralPool::redeem`], or why it is
    /// refused, once the user's loans are known to be settled.
    pub open spec fn redeem_outcome(&self, users: &UserManagement, user_id: u64, token_address: u64, amount: i128)
        -> Result<UserView, ProtocolError> {
        let u = users.user(user_id);
        match deposit_decrease_refusal(u, token_address, amount) {
            Some(e) => Err(e),
            None => match self.withdraw_refusal(amount) {
                Some(e) => Err(e),
                None => Ok(u.with_deposit_balance(
                    u.deposit_balance.insert(token_address, (bal(u.deposit_balance, token_address) - amount) as i128))),
            },
        }
    }

    /// Pays out `redeem_amount` from the vault to `user_id`, charged to
    /// their deposit balance in `token_address`. The user must have no
    /// outstanding loan (see [`LendingPool::check_loans_settled`]), owe
    /// nothing in the token, and hold enough deposit.
    pub fn redeem(&mut self, users: &mut UserManagement, lending_pool: &LendingPool, user_id: u64, token_address: u64,
        redeem_amount: i128) -> (r: Result<Bucket, ProtocolError>)
        requires
            old(self).wf(),
        ensures
            final(self).wf(),
            r is Err ==> *final(self) == *old(self) && final(users).same(old(users)),
            !old(users).users().contains_key(user_id) ==> r == Err::<Bucket, ProtocolError>(ProtocolError::UnknownUser),
            old(users).users().contains_key(user_id) && !loans_settled(old(users).user(user_id).open_loans, lending_pool.loan_data@) ==> {
                let open = old(users).user(user_id).open_loans;
                &&& r == Err::<Bucket, ProtocolError>(ProtocolError::UnknownLoan) || r == Err::<Bucket, ProtocolError>(ProtocolError::OutstandingLoans)
                &&& r == Err::<Bucket, ProtocolError>(ProtocolError::UnknownLoan) ==> some_loan_unrecorded(open, lending_pool.loan_data@)
                &&& r == Err::<Bucket, ProtocolError>(ProtocolError::OutstandingLoans) ==> some_loan_current(open, lending_pool.loan_data@)
            },
            old(users).users().contains_key(user_id) && loans_settled(old(users).user(user_id).open_loans, lending_pool.loan_data@) ==>
                match old(self).redeem_outcome(old(users), user_id, token_address, redeem_amount) {
                    Err(e) => r == Err::<Bucket, ProtocolError>(e),
                    Ok(u) => {
                        &&& r == Ok::<Bucket, ProtocolError>(Bucket { resource: old(self).token, amount: redeem_amount })
                        &&& old(users).updated(final(users), user_id, u)
                        &&& *final(self) == (CollateralPool { liquidity: (old(self).liquidity - redeem_amount) as i128, ..*old(self) })
                    },
                },
    {
        match lending_pool.check_loans_settled(users, user_id) {
            Ok(()) => {},
            Err(e) => return Err(e),
        }
        let mut staged = users.snapshot();
        match staged.decrease_deposit_balance(user_id, token_address, redeem_amount) {
            Ok(()) => {},
            Err(e) => return Err(e),
        }
        let bucket = match self.withdraw_vault(redeem_amount) {
            Ok(b) => b,
            Err(e) => return Err(e),
        };
        *users = staged;
        Ok(bucket)
    }

    /// What [`CollateralPool::convert_to_deposit`] does once the user's
    /// first open loan has been found settled: the user's record after it,
    /// or why it is refused.
    pub open spec fn convert_to_deposit_outcome(&self, users: &UserManagement, lending_pool: &LendingPool, user_id: u64,
        token_address: u64, amount: i128) -> Result<UserView, ProtocolError> {
        let u = users.user(user_id);
        if !u.collateral_balance.contains_key(token_address) {
            Err(ProtocolError::MissingCollateralBalance)
        } else if u.collateral_balance[token_address] < amount {
            Err(ProtocolError::InsufficientCollateral)
        } else {
            match self.withdraw_refusal(amount) {
                Some(e) => Err(e),
                None => lending_pool.convert_from_collateral_outcome(users, user_id, token_address,
                    Bucket { resource: self.token, amount }),
            }
        }
    }

    /// Releases `deposit_amount` of the collateral of `user_id` back to the
    /// lending pool as supply. The user's first open loan must be settled
    /// (see [`LendingPool::check_first_loan_settled`]) and the user must hold
    /// that much collateral in the token; the funds leave this vault for the
    /// lending pool's, and the user's collateral balance becomes deposit
    /// balance.
    pub fn convert_to_deposit(&mut self, users: &mut UserManagement, lending_pool: &mut LendingPool, user_id: u64,
        token_address: u64, deposit_amount: i128) -> (r: Result<(), ProtocolError>)
        requires
            old(self).wf(),
            old(lending_pool).wf(),
        ensures
            final(self).wf(),
            final(lending_pool).wf(),
            r is Err ==> *final(self) == *old(self) && final(users).same(old(users)) && final(lending_pool).same(old(lending_pool)),
            !old(users).users().contains_key(user_id) ==> r == Err::<(), ProtocolError>(ProtocolError::UnknownUser),
            old(users).users().contains_key(user_id) ==> {
                let open = old(users).user(user_id).open_loans;
                let data = old(lending_pool).loan_data@;
                let checked = r != Err::<(), ProtocolError>(ProtocolError::UnknownLoan)
                    && r != Err::<(), ProtocolError>(ProtocolError::OutstandingLoans);
                &&& loans_settled(open, data) ==> checked
                &&& no_loan_settled(open, data) ==> !checked
                &&& r == Err::<(), ProtocolError>(ProtocolError::UnknownLoan) ==> some_loan_unrecorded(open, data)
                &&& r == Err::<(), ProtocolError>(ProtocolError::OutstandingLoans) ==> some_loan_current(open, data)
                &&& checked ==> match old(self).convert_to_deposit_outcome(old(users), old(lending_pool), user_id, token_address, deposit_amount) {
                    Err(e) => r == Err::<(), ProtocolError>(e),
                    Ok(u) => {
                        &&& r is Ok
                        &&& old(users).updated(final(users), user_id, u)
                        &&& *final(self) == (CollateralPool { liquidity: (old(self).liquidity - deposit_amount) as i128, ..*old(self) })
                        &&& final(lending_pool)@ == (LendingPoolView {
                            liquidity: (old(lending_pool).liquidity + deposit_amount) as i128,
                            ..old(lending_pool)@
                        })
                    },
                }
            },
    {
        match lending_pool.check_first_loan_settled(users, user_id) {
            Ok(()) => {},
            Err(e) => return Err(e),
        }
        let collateral = match users.get_user(user_id) {
            None => return Err(ProtocolError::UnknownUser),
            Some(u) => match u.collateral_balance.get(&token_address) {
                Some(c) => *c,
                None => return Err(ProtocolError::MissingCollateralBalance),
            },
        };
        if collateral < deposit_amount {
            return Err(ProtocolError::InsufficientCollateral);
        }
        let mut staged_pool = *self;
        let bucket = match staged_pool.withdraw_vault(deposit_amount) {
            Ok(b) => b,
            Err(e) => return Err(e),
        };
        match lending_pool.convert_from_collateral(users, user_id, token_address, bucket) {
            Ok(()) => {},
            Err(e) => return Err(e),
        }
        *self = staged_pool;
        Ok(())
    }

    /// What a liquidation of the loan `loan_id` with `repay` does: the
    /// liquidated loan, the owner's record afterwards and the collateral
    /// paid to the liquidator; or why it is refused.
    ///
    /// The repayment, in the loan's asset, may cover half of the loan's
    /// balance, or all of it once the loan's health factor is at or below
    /// the close factor. The liquidator receives the repayment plus
    /// [`LIQUIDATION_BONUS`] on it, in collateral. The loan loses that
    /// collateral and the repaid balance and is marked defaulted; its owner
    /// counts one more default, has the repayment settled against their
    /// borrow balance, loses [`DEFAULT_PENALTY`] of credit score, and has the
    /// seized collateral recorded twice against their borrow balance in
    /// `collateral_address` (see [`collateral_seized`]).
    pub open spec fn liquidate_outcome(&self, users: &UserManagement, lending_pool: &LendingPool, loan_id: u64,
        collateral_address: u64, repay: Bucket) -> Result<(Loan, UserView, i128), ProtocolError> {
        let loan = lending_pool.loan_data@[loan_id];
        let max_repay = if loan.health_factor > self.close_factor { CLOSE_FACTOR_REPAY } else { ONE };
        let limit = mul_attos(loan.remaining_balance as int, max_repay as int);
        let bonus = mul_attos(repay.amount as int, LIQUIDATION_BONUS as int);
        let to_liquidator = repay.amount + bonus;
        let collateral_left = loan.collateral_amount - to_liquidator;
        let balance_left = loan.remaining_balance - repay.amount;
        let owner = loan.owner;
        let u0 = users.user(owner);
        let u1 = u0.with_defaults((u0.defaults + 1) as u64);
        if !lending_pool.loan_data@.contains_key(loan_id) {
            Err(ProtocolError::UnknownLoan)
        } else if repay.resource != loan.asset {
            Err(ProtocolError::TokenMismatch)
        } else if !fits(limit) {
            Err(ProtocolError::Overflow)
        } else if repay.amount > limit {
            Err(ProtocolError::MaxRepayExceeded)
        } else if !fits(bonus) || !fits(to_liquidator) {
            Err(ProtocolError::Overflow)
        } else if self.withdraw_refusal(to_liquidator as i128) is Some {
            Err(self.withdraw_refusal(to_liquidator as i128).unwrap())
        } else if !fits(collateral_left) || !fits(balance_left) {
            Err(ProtocolError::Overflow)
        } else if !users.users().contains_key(owner) {
            Err(ProtocolError::UnknownUser)
        } else if u0.defaults == u64::MAX {
            Err(ProtocolError::Overflow)
        } else {
            match repaid(u1, loan.asset, repay.amount) {
                Err(e) => Err(e),
                Ok((u2, _)) => match collateral_seized(u2, collateral_address, to_liquidator as i128) {
                    Err(e) => Err(e),
                    Ok((u3, _)) => if u3.credit_score < DEFAULT_PENALTY {
                        Err(ProtocolError::Overflow)
                    } else {
                        let u4 = u3.with_credit_score((u3.credit_score - DEFAULT_PENALTY) as u64);
                        match collateral_seized(u4, collateral_address, to_liquidator as i128) {
                            Err(e) => Err(e),
                            Ok((u5, _)) => if repay.resource != lending_pool.token {
                                Err(ProtocolError::NotInPool)
                            } else if !fits(lending_pool.liquidity + repay.amount) {
                                Err(ProtocolError::Overflow)
                            } else {
                                Ok((
                                    Loan {
                                        collateral_amount: collateral_left as i128,
                                        remaining_balance: balance_left as i128,
                                        loan_status: Status::Defaulted,
                                        ..loan
                                    },
                                    u5,
                                    to_liquidator as i128,
                                ))
                            },
                        }
                    },
                },
            }
        }
    }

    /// Liquidates the loan `loan_id`, repaying `repay` of it (see
    /// [`CollateralPool::liquidate_outcome`]). The repayment goes to the
    /// lending pool's vault; the liquidator is paid from this vault.
    ///
    /// The loan's health is not checked here: this is the step that the
    /// holder of the protocol's access badge performs once a loan has been
    /// found bad (see [`LendingPool::liquidate`] and
    /// [`crate::liquidation::Liquidation::liquidate`], which check the list
    /// of bad loans).
    pub fn liquidate(&mut self, users: &mut UserManagement, lending_pool: &mut LendingPool, loan_id: u64,
        collateral_address: u64, repay: Bucket) -> (r: Result<Bucket, ProtocolError>)
        requires
            old(self).wf(),
            old(lending_pool).wf(),
            repay.amount >= 0,
        ensures
            final(self).wf(),
            final(lending_pool).wf(),
            match old(self).liquidate_outcome(old(users), old(lending_pool), loan_id, collateral_address, repay) {
                Err(e) => r == Err::<Bucket, ProtocolError>(e) && *final(self) == *old(self)
                    && final(users).same(old(users)) && final(lending_pool).same(old(lending_pool)),
                Ok((loan, u, paid)) => {
                    &&& r == Ok::<Bucket, ProtocolError>(Bucket { resource: old(self).token, amount: paid })
                    &&& old(users).updated(final(users), old(lending_pool).loan_data@[loan_id].owner, u)
                    &&& *final(self) == (CollateralPool { liquidity: (old(self).liquidity - paid) as i128, ..*old(self) })
                    &&& final(lending_pool)@ == (LendingPoolView {
                        liquidity: (old(lending_pool).liquidity + repay.amount) as i128,
                        loan_data: old(lending_pool).loan_data@.insert(loan_id, loan),
                        ..old(lending_pool)@
                    })
                },
            },
    {
        let loan: Loan = match lending_pool.loan_data.get(&loan_id) {
            Some(l) => *l,
            None => return Err(ProtocolError::UnknownLoan),
        };
        if repay.resource != loan.asset {
            return Err(ProtocolError::TokenMismatch);
        }
        let max_repay: i128 = if loan.health_factor > self.close_factor { CLOSE_FACTOR_REPAY } else { ONE };
        let limit = match dec_mul(loan.remaining_balance, max_repay) {
            Some(v) => v,
            None => return Err(ProtocolError::Overflow),
        };
        if repay.amount > limit {
            return Err(ProtocolError::MaxRepayExceeded);
        }
        let bonus = match dec_mul(repay.amount, LIQUIDATION_BONUS) {
            Some(v) => v,
            None => return Err(ProtocolError::Overflow),
        };
        let to_liquidator = match repay.amount.checked_add(bonus) {
            Some(v) => v,
            None => return Err(ProtocolError::Overflow),
        };
        let mut staged_pool = *self;
        let claim = match staged_pool.withdraw_vault(to_liquidator) {
            Ok(b) => b,
            Err(e) => return Err(e),
        };
        let collateral_left = match loan.collateral_amount.checked_sub(claim.amount) {
            Some(v) => v,
            None => return Err(ProtocolError::Overflow),
        };
        let balance_left = match loan.remaining_balance.checked_sub(repay.amount) {
            Some(v) => v,
            None => return Err(ProtocolError::Overflow),
        };
        let owner = loan.owner;
        let mut staged = users.snapshot();
        match staged.inc_default(owner) {
            Ok(()) => {},
            Err(e) => return Err(e),
        }
        let ghost s1 = staged.users();
        match staged.decrease_borrow_balance(owner, loan.asset, repay.amount) {
            Ok(_) => {},
            Err(e) => return Err(e),
        }
        let ghost s2 = staged.users();
        match staged.decrease_collateral_balance(owner, collateral_address, to_liquidator) {
            Ok(_) => {},
            Err(e) => return Err(e),
        }
        let ghost s3 = staged.users();
        match staged.dec_credit_score(owner, DEFAULT_PENALTY) {
            Ok(()) => {},
            Err(e) => return Err(e),
        }
        let ghost s4 = staged.users();
        match staged.decrease_collateral_balance(owner, collateral_address, claim.amount) {
            Ok(_) => {},
            Err(e) => return Err(e),
        }
        if repay.resource != lending_pool.token {
            return Err(ProtocolError::NotInPool);
        }
        let lending_liquidity = match lending_pool.liquidity.checked_add(repay.amount) {
            Some(v) => v,
            None => return Err(ProtocolError::Overflow),
        };
        proof {
            let u0 = users.user(owner);
            let u1 = u0.with_defaults((u0.defaults + 1) as u64);
            let u2 = repaid(u1, loan.asset, repay.amount).unwrap().0;
            let u3 = collateral_seized(u2, collateral_address, to_liquidator).unwrap().0;
            let u4 = u3.with_credit_score((u3.credit_score - DEFAULT_PENALTY) as u64);
            let u5 = collateral_seized(u4, collateral_address, to_liquidator).unwrap().0;
            assert(s1 =~= users.users().insert(owner, u1));
            assert(s2 =~= users.users().insert(owner, u2));
            assert(s3 =~= users.users().insert(owner, u3));
            assert(s4 =~= users.users().insert(owner, u4));
            assert(staged.users() =~= users.users().insert(owner, u5));
        }
        *users = staged;
        *self = staged_pool;
        lending_pool.liquidity = lending_liquidity;
        lending_pool.loan_data.insert(loan_id, Loan {
            collateral_amount: collateral_left,
            remaining_balance: balance_left,
            loan_status: Status::Defaulted,
            ..loan
        });
        Ok(claim)
    }
}

} // verus!
