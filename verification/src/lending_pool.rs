//! The lending pool: supply deposits, loans, repayments and the list of
//! loans that may be liquidated.
//!
//! The pool holds one token. Suppliers deposit it and earn a share of the
//! pool; borrowers take it against collateral held in the collateral pool,
//! pay an origination fee and an interest that depends on how much of the
//! pool is lent out, and receive a loan record. The ledger's vault of the
//! pool is held here as its balance, `liquidity`.

use std::collections::{BTreeSet, HashMap};
use vstd::prelude::*;
use crate::bucket::Bucket;
use crate::decimal::{add_opt, dec_div, dec_mul, div_attos, div_opt, fits, mul_attos, mul_opt, sub_opt, ONE};
use crate::error::ProtocolError;
use crate::ordered::{sorted_ids, strictly_increasing};
use crate::collateral_pool::{CollateralPool, DEFAULT_PENALTY, LIQUIDATION_BONUS};
use crate::user_management::{bal, borrow_after_repay, collateral_seized, collateral_to_deposit, credited, deposit_decrease_refusal, excess_of_repay, interest_discount, repay_overflows, User, UserManagement, UserView};

verus! {

broadcast use vstd::std_specs::hash::group_hash_axioms, vstd::std_specs::btree::group_btree_axioms;

/// The state of a loan.
#[derive(Debug, Clone, Copy, PartialEq, Eq, Structural)]
pub enum Status {
    Current,
    PaidOff,
    Defaulted,
}

/// The terms and state of a loan, as its loan record holds them.
#[derive(Debug, Clone, Copy, PartialEq, Eq, Structural)]
pub struct Loan {
    pub asset: u64,
    pub collateral: u64,
    pub principal_loan_amount: i128,
    pub interest: i128,
    pub owner: u64,
    pub remaining_balance: i128,
    pub interest_expense: i128,
    pub collateral_amount: i128,
    pub collateral_amount_usd: i128,
    pub health_factor: i128,
    pub liquidation_price: i128,
    pub loan_status: Status,
}

/// The origination fee, one hundredth of the amount borrowed.
pub const BORROW_FEE: i128 = 10_000_000_000_000_000;
/// The share of a user's collateral that may be borrowed: three quarters.
pub const MAX_BORROW: i128 = 750_000_000_000_000_000;
/// The health factor below which a loan may be liquidated: one.
pub const MIN_HEALTH_FACTOR: i128 = 1_000_000_000_000_000_000;
/// The collateralisation used for the liquidation price: one and a half.
pub const MIN_COLLATERIZATION: i128 = 1_500_000_000_000_000_000;
/// The share of the collateral's value that counts toward the health
/// factor: eight tenths.
pub const LIQUIDATION_THRESHOLD: i128 = 800_000_000_000_000_000;
/// The interest charged on an additional borrow: two hundredths.
pub const ADDITIONAL_INTEREST: i128 = 20_000_000_000_000_000;
/// The credit score that a supply deposit earns.
pub const DEPOSIT_CREDIT: u64 = 5;
/// The credit score that paying off a loan earns, counted twice.
pub const REPAY_CREDIT: u64 = 20;

/// The interest rate for a utilisation rate: 0.08 up to 0.60, then 0.09,
/// 0.10, 0.11 up to 0.70, 0.80, 0.90, and 0.12 above.
pub open spec fn interest_for(utilization: i128) -> i128 {
    if utilization > 900_000_000_000_000_000 {
        120_000_000_000_000_000
    } else if utilization > 800_000_000_000_000_000 {
        110_000_000_000_000_000
    } else if utilization > 700_000_000_000_000_000 {
        100_000_000_000_000_000
    } else if utilization > 600_000_000_000_000_000 {
        90_000_000_000_000_000
    } else {
        80_000_000_000_000_000
    }
}

/// The health factor of a loan: the collateral's value, weighted by the
/// liquidation threshold, over the remaining balance.
pub open spec fn health_factor_of(collateral: i128, price: i128, remaining: i128) -> Option<i128> {
    match mul_opt(collateral, price) {
        Some(value) => match mul_opt(value, LIQUIDATION_THRESHOLD) {
            Some(weighted) => div_opt(weighted, remaining),
            None => None,
        },
        None => None,
    }
}

/// The mathematical value of a [`LendingPool`].
pub struct LendingPoolView {
    pub token: u64,
    pub liquidity: i128,
    pub supplied_amount: i128,
    pub borrow_amount: i128,
    pub borrow_fees: i128,
    pub xrd_usd: i128,
    pub max_borrow: i128,
    pub min_health_factor: i128,
    pub min_collaterization: i128,
    pub loans: Set<u64>,
    pub loan_data: Map<u64, Loan>,
    pub bad_loans: Set<u64>,
}

/// Whether every open loan in `open_loans` has a record in `loan_data` and
/// none of them is current.
pub open spec fn loans_settled(open_loans: Map<u64, u64>, loan_data: Map<u64, Loan>) -> bool {
    forall|t: u64| #[trigger] open_loans.contains_key(t)
        ==> loan_data.contains_key(open_loans[t]) && loan_data[open_loans[t]].loan_status != Status::Current
}

/// Whether some open loan in `open_loans` has no record in `loan_data`.
pub open spec fn some_loan_unrecorded(open_loans: Map<u64, u64>, loan_data: Map<u64, Loan>) -> bool {
    exists|t: u64| #[trigger] open_loans.contains_key(t) && !loan_data.contains_key(open_loans[t])
}

/// Whether some open loan in `open_loans` is current.
pub open spec fn some_loan_current(open_loans: Map<u64, u64>, loan_data: Map<u64, Loan>) -> bool {
    exists|t: u64| #[trigger] open_loans.contains_key(t) && loan_data.contains_key(open_loans[t])
        && loan_data[open_loans[t]].loan_status == Status::Current
}

impl LendingPoolView {
    /// Why a supply deposit of `bucket` by `user_id`, whose records are
    /// `users`, is refused, if it is.
    pub open spec fn deposit_refusal(self, users: Map<u64, UserView>, user_id: u64, token_address: u64, bucket: Bucket) -> Option<ProtocolError> {
        let u = users[user_id];
        if token_address != bucket.resource {
            Some(ProtocolError::TokenMismatch)
        } else if bucket.amount == 0 {
            Some(ProtocolError::EmptyDeposit)
        } else if !users.contains_key(user_id) {
            Some(ProtocolError::UnknownUser)
        } else if !fits(bal(u.deposit_balance, token_address) + bucket.amount) {
            Some(ProtocolError::Overflow)
        } else if u.credit_score + DEPOSIT_CREDIT > u64::MAX {
            Some(ProtocolError::Overflow)
        } else if !fits(self.supplied_amount + bucket.amount) {
            Some(ProtocolError::Overflow)
        } else if bucket.resource != self.token {
            Some(ProtocolError::NotInPool)
        } else if !fits(self.liquidity + bucket.amount) {
            Some(ProtocolError::Overflow)
        } else {
            None
        }
    }

    /// Whether the loan `l` is at or below the minimum health factor.
    pub open spec fn is_bad(self, l: u64) -> bool {
        self.loan_data[l].health_factor <= self.min_health_factor
    }

    /// Whether the bad loan `l` may leave the list of bad loans: its health
    /// factor is back above the minimum, or it has been paid off.
    pub open spec fn is_cleanable(self, l: u64) -> bool {
        self.loan_data[l].health_factor > self.min_health_factor
            || self.loan_data[l].loan_status == Status::PaidOff
    }

    /// The bad loans once every issued loan at or below the minimum health factor
    /// has been added.
    pub open spec fn bad_loans_found(self) -> Set<u64> {
        self.bad_loans.union(self.loans.filter(|l: u64| self.is_bad(l)))
    }
}

impl LendingPoolView {
    /// Whether `m` is the least bad loan that may leave the list.
    pub open spec fn is_least_cleanable(self, m: u64) -> bool {
        &&& self.bad_loans.contains(m) && self.is_cleanable(m)
        &&& forall|x: u64| #[trigger] self.bad_loans.contains(x) && self.is_cleanable(x) ==> m <= x
    }

    /// Whether `after` is `self` with the least cleanable bad loan taken
    /// off the list, or `self` unchanged where there is none.
    pub open spec fn closed_loan_removed(self, after: LendingPoolView) -> bool {
        &&& (forall|x: u64| !(#[trigger] self.bad_loans.contains(x) && self.is_cleanable(x))) ==> after == self
        &&& (exists|x: u64| #[trigger] self.bad_loans.contains(x) && self.is_cleanable(x)) ==> exists|m: u64|
            self.is_least_cleanable(m) && after == (LendingPoolView { bad_loans: self.bad_loans.remove(m), ..self })
    }
}

/// `loan` with its health factor recomputed at the collateral price
/// `price`.
pub open spec fn repriced(loan: Loan, price: i128) -> Loan {
    Loan { health_factor: health_factor_of(loan.collateral_amount, price, loan.remaining_balance).unwrap(), ..loan }
}

/// Whether the health factor of `loan` can be recomputed at `price`.
pub open spec fn can_reprice(loan: Loan, price: i128) -> bool {
    health_factor_of(loan.collateral_amount, price, loan.remaining_balance) is Some
}

/// Whether `x` occurs among the first `n` elements of `s`.
pub open spec fn occurs_before(s: Seq<u64>, n: int, x: u64) -> bool {
    exists|j: int| 0 <= j < n && #[trigger] s[j] == x
}

/// Whether every open loan in `open_loans` is unrecorded in `loan_data` or
/// current, and there is at least one.
pub open spec fn no_loan_settled(open_loans: Map<u64, u64>, loan_data: Map<u64, Loan>) -> bool {
    &&& exists|t: u64| #[trigger] open_loans.contains_key(t)
    &&& forall|t: u64| #[trigger] open_loans.contains_key(t) ==> !loan_data.contains_key(open_loans[t])
        || loan_data[open_loans[t]].loan_status == Status::Current
}

/// The lending pool of one token.
pub struct LendingPool {
    /// The pool's token.
    pub token: u64,
    /// What the pool's vault holds.
    pub liquidity: i128,
    /// All that has been supplied to the pool.
    pub supplied_amount: i128,
    /// All that is lent out, net of fees and repaid principal.
    pub borrow_amount: i128,
    pub borrow_fees: i128,
    /// The price of the collateral in the borrowed token.
    pub xrd_usd: i128,
    pub max_borrow: i128,
    pub min_health_factor: i128,
    pub min_collaterization: i128,
    /// The ids of all loans issued.
    pub loans: BTreeSet<u64>,
    /// The record of each loan issued, by loan id.
    pub loan_data: HashMap<u64, Loan>,
    /// The loans found at or below the minimum health factor.
    pub bad_loans: BTreeSet<u64>,
}

impl View for LendingPool {
    type V = LendingPoolView;

    open spec fn view(&self) -> LendingPoolView {
        LendingPoolView {
            token: self.token,
            liquidity: self.liquidity,
            supplied_amount: self.supplied_amount,
            borrow_amount: self.borrow_amount,
            borrow_fees: self.borrow_fees,
            xrd_usd: self.xrd_usd,
            max_borrow: self.max_borrow,
            min_health_factor: self.min_health_factor,
            min_collaterization: self.min_collaterization,
            loans: self.loans@,
            loan_data: self.loan_data@,
            bad_loans: self.bad_loans@,
        }
    }
}

impl LendingPool {
    /// What the pool keeps true between calls: every loan issued has a
    /// record, every bad loan was issued, and the vault is not overdrawn.
    pub open spec fn wf(&self) -> bool {
        &&& forall|l: u64| #[trigger] self.loans@.contains(l) ==> self.loan_data@.contains_key(l)
        &&& self.bad_loans@.subset_of(self.loans@)
        &&& self.liquidity >= 0
    }

    /// Whether two pools are in the same state.
    pub open spec fn same(&self, other: &LendingPool) -> bool {
        self@ == other@
    }

    /// A copy of the pool, to stage the changes of a transaction that may
    /// still be refused.
    pub fn snapshot(&self) -> (r: LendingPool)
        ensures r@ == self@,
    {
        LendingPool {
            token: self.token,
            liquidity: self.liquidity,
            supplied_amount: self.supplied_amount,
            borrow_amount: self.borrow_amount,
            borrow_fees: self.borrow_fees,
            xrd_usd: self.xrd_usd,
            max_borrow: self.max_borrow,
            min_health_factor: self.min_health_factor,
            min_collaterization: self.min_collaterization,
            loans: self.loans.clone(),
            loan_data: self.loan_data.clone(),
            bad_loans: self.bad_loans.clone(),
        }
    }

    /// Opens a pool with `initial_funds` as its first supply. The pool's
    /// token is the token of the funds.
    pub fn new(initial_funds: Bucket) -> (r: Result<LendingPool, ProtocolError>)
        requires
            initial_funds.amount >= 0,
        ensures
            initial_funds.amount == 0 <==> r == Err::<LendingPool, ProtocolError>(ProtocolError::EmptyDeposit),
            initial_funds.amount != 0 <==> r is Ok,
            r is Ok ==> {
                let p = r->Ok_0;
                &&& p.wf()
                &&& p.token == initial_funds.resource
                &&& p.liquidity == initial_funds.amount
                &&& p.supplied_amount == initial_funds.amount
                &&& p.borrow_amount == 0
                &&& p.borrow_fees == BORROW_FEE
                &&& p.xrd_usd == ONE
                &&& p.max_borrow == MAX_BORROW
                &&& p.min_health_factor == MIN_HEALTH_FACTOR
                &&& p.min_collaterization == MIN_COLLATERIZATION
                &&& p.loans@ == Set::<u64>::empty()
                &&& p.loan_data@ == Map::<u64, Loan>::empty()
                &&& p.bad_loans@ == Set::<u64>::empty()
            },
    {
        if initial_funds.is_empty() {
            return Err(ProtocolError::EmptyDeposit);
        }
        Ok(LendingPool {
            token: initial_funds.resource,
            liquidity: initial_funds.amount,
            supplied_amount: initial_funds.amount,
            borrow_amount: 0,
            borrow_fees: BORROW_FEE,
            xrd_usd: ONE,
            max_borrow: MAX_BORROW,
            min_health_factor: MIN_HEALTH_FACTOR,
            min_collaterization: MIN_COLLATERIZATION,
            loans: BTreeSet::new(),
            loan_data: HashMap::new(),
            bad_loans: BTreeSet::new(),
        })
    }

    /// The price of the collateral.
    pub fn retrieve_xrd_price(&self) -> (r: i128)
        ensures r == self.xrd_usd,
    {
        self.xrd_usd
    }

    /// The tokens the pool holds (one).
    pub fn addresses(&self) -> (r: Vec<u64>)
        ensures r@ == seq![self.token],
    {
        let mut v = Vec::new();
        v.push(self.token);
        v
    }

    /// Whether `address` is the pool's token.
    pub fn belongs_to_pool(&self, address: u64) -> (r: bool)
        ensures r == (address == self.token),
    {
        address == self.token
    }

    /// Fails unless `address` is the pool's token.
    pub fn assert_belongs_to_pool(&self, address: u64) -> (r: Result<(), ProtocolError>)
        ensures
            r == (if address == self.token {
                Ok::<(), ProtocolError>(())
            } else {
                Err::<(), ProtocolError>(ProtocolError::NotInPool)
            }),
    {
        if self.belongs_to_pool(address) { Ok(()) } else { Err(ProtocolError::NotInPool) }
    }

    /// Takes `amount` of `resource_address` out of the vault (see
    /// [`LendingPool::withdraw_refusal`]).
    fn withdraw(&mut self, resource_address: u64, amount: i128) -> (r: Result<Bucket, ProtocolError>)
        requires
            old(self).wf(),
        ensures
            final(self).wf(),
            r == (match old(self).withdraw_refusal(resource_address, amount) {
                Some(e) => Err::<Bucket, ProtocolError>(e),
                None => Ok::<Bucket, ProtocolError>(Bucket { resource: resource_address, amount }),
            }),
            r is Err ==> final(self)@ == old(self)@,
            r is Ok ==> final(self)@ == (LendingPoolView { liquidity: (old(self).liquidity - amount) as i128, ..old(self)@ }),
    {
        match self.assert_belongs_to_pool(resource_address) {
            Ok(()) => {},
            Err(e) => return Err(e),
        }
        if self.liquidity < amount {
            return Err(ProtocolError::InsufficientLiquidity);
        }
        if amount < 0 {
            return Err(ProtocolError::InvalidAmount);
        }
        self.liquidity = self.liquidity - amount;
        Ok(Bucket { resource: resource_address, amount })
    }

    /// What the vault of `token_address` holds.
    pub fn check_liquidity(&self, token_address: u64) -> (r: Result<i128, ProtocolError>)
        ensures
            r == (if token_address == self.token {
                Ok::<i128, ProtocolError>(self.liquidity)
            } else {
                Err::<i128, ProtocolError>(ProtocolError::NotInPool)
            }),
    {
        if token_address == self.token { Ok(self.liquidity) } else { Err(ProtocolError::NotInPool) }
    }

    /// All that has been supplied to the pool. The pool holds one token, so
    /// the token named is not consulted.
    pub fn check_total_supplied(&self, _token_address: u64) -> (r: i128)
        ensures r == self.supplied_amount,
    {
        self.supplied_amount
    }

    /// All that is lent out.
    pub fn check_total_borrowed(&self) -> (r: i128)
        ensures r == self.borrow_amount,
    {
        self.borrow_amount
    }

    /// The share of the supply that is lent out. The pool holds one token,
    /// so the token named is not consulted.
    pub fn check_utilization_rate(&self, _token_address: u64) -> (r: Result<i128, ProtocolError>)
        ensures
            r == (match div_opt(self.borrow_amount, self.supplied_amount) {
                Some(u) => Ok::<i128, ProtocolError>(u),
                None => Err::<i128, ProtocolError>(ProtocolError::Overflow),
            }),
    {
        match dec_div(self.borrow_amount, self.supplied_amount) {
            Some(u) => Ok(u),
            None => Err(ProtocolError::Overflow),
        }
    }

    /// The interest rate that the current utilisation rate sets.
    pub fn interest_calc(&self, token_address: u64) -> (r: Result<i128, ProtocolError>)
        ensures
            r == (match div_opt(self.borrow_amount, self.supplied_amount) {
                Some(u) => Ok::<i128, ProtocolError>(interest_for(u)),
                None => Err::<i128, ProtocolError>(ProtocolError::Overflow),
            }),
    {
        let u = match self.check_utilization_rate(token_address) {
            Ok(u) => u,
            Err(e) => return Err(e),
        };
        if u > 900_000_000_000_000_000 {
            Ok(120_000_000_000_000_000)
        } else if u > 800_000_000_000_000_000 && u <= 900_000_000_000_000_000 {
            Ok(110_000_000_000_000_000)
        } else if u > 700_000_000_000_000_000 && u <= 800_000_000_000_000_000 {
            Ok(100_000_000_000_000_000)
        } else if u > 600_000_000_000_000_000 && u <= 700_000_000_000_000_000 {
            Ok(90_000_000_000_000_000)
        } else {
            Ok(80_000_000_000_000_000)
        }
    }

    /// Why a withdrawal of `amount` of `resource_address` from the vault is
    /// refused, if it is.
    pub open spec fn withdraw_refusal(&self, resource_address: u64, amount: i128) -> Option<ProtocolError> {
        if resource_address != self.token {
            Some(ProtocolError::NotInPool)
        } else if self.liquidity < amount {
            Some(ProtocolError::InsufficientLiquidity)
        } else if amount < 0 {
            Some(ProtocolError::InvalidAmount)
        } else {
            None
        }
    }

    /// Why a supply deposit is refused, if it is.
    pub open spec fn deposit_refusal(&self, users: &UserManagement, user_id: u64, token_address: u64, bucket: Bucket) -> Option<ProtocolError> {
        self@.deposit_refusal(users.users(), user_id, token_address, bucket)
    }

    /// Supplies `bucket` to the pool on behalf of `user_id`: the user's
    /// deposit balance grows by the amount, their credit score by
    /// [`DEPOSIT_CREDIT`], and the pool's supply and vault by the amount.
    pub fn deposit(&mut self, users: &mut UserManagement, user_id: u64, token_address: u64, bucket: Bucket) -> (r: Result<(), ProtocolError>)
        requires
            old(self).wf(),
            bucket.amount >= 0,
        ensures
            final(self).wf(),
            r == (match old(self).deposit_refusal(old(users), user_id, token_address, bucket) {
                Some(e) => Err::<(), ProtocolError>(e),
                None => Ok::<(), ProtocolError>(()),
            }),
            r is Err ==> final(self).same(old(self)) && final(users).same(old(users)),
            r is Ok ==> {
                let u = old(users).user(user_id);
                &&& old(users).updated(final(users), user_id,
                    u.with_deposit_balance(credited(u.deposit_balance, token_address, bucket.amount as int))
                     .with_credit_score((u.credit_score + DEPOSIT_CREDIT) as u64))
                &&& final(self)@ == (LendingPoolView {
                    supplied_amount: (old(self).supplied_amount + bucket.amount) as i128,
                    liquidity: (old(self).liquidity + bucket.amount) as i128,
                    ..old(self)@
                })
            },
    {
        if token_address != bucket.resource {
            return Err(ProtocolError::TokenMismatch);
        }
        if bucket.is_empty() {
            return Err(ProtocolError::EmptyDeposit);
        }
        let mut staged = users.snapshot();
        match staged.add_deposit_balance(user_id, token_address, bucket.amount) {
            Ok(()) => {},
            Err(e) => return Err(e),
        }
        let ghost mid = staged.users();
        match staged.inc_credit_score(user_id, DEPOSIT_CREDIT) {
            Ok(()) => {},
            Err(e) => return Err(e),
        }
        proof {
            let u = users.user(user_id);
            assert(staged.users() =~= users.users().insert(user_id,
                u.with_deposit_balance(credited(u.deposit_balance, token_address, bucket.amount as int))
                 .with_credit_score((u.credit_score + DEPOSIT_CREDIT) as u64)));
        }
        let supplied = match self.supplied_amount.checked_add(bucket.amount) {
            Some(v) => v,
            None => return Err(ProtocolError::Overflow),
        };
        if bucket.resource != self.token {
            return Err(ProtocolError::NotInPool);
        }
        let liquidity = match self.liquidity.checked_add(bucket.amount) {
            Some(v) => v,
            None => return Err(ProtocolError::Overflow),
        };
        *users = staged;
        self.supplied_amount = supplied;
        self.liquidity = liquidity;
        Ok(())
    }

    /// The loan that a borrow of `amount` of `token` by a user with record
    /// `u` opens, with the amount paid out (the amount less the origination
    /// fee), or why it is refused: the amount must not exceed
    /// `max_borrow` times the user's collateral in the token, the user must
    /// not already have an open loan in it, and every figure must fit.
    pub open spec fn borrow_terms(&self, u: UserView, user_id: u64, token: u64, amount: i128) -> Result<(Loan, i128), ProtocolError> {
        let collateral = bal(u.collateral_balance, token);
        let limit = mul_attos(collateral, self.max_borrow as int);
        let fee = mul_attos(amount as int, self.borrow_fees as int);
        let actual = amount - fee;
        let total = self.borrow_amount + actual;
        let util = div_attos(total, self.supplied_amount as int);
        let rate = interest_for(util as i128) - interest_discount(u.credit_score);
        let expense = mul_attos(amount as int, rate);
        let remaining = actual + expense;
        let value = mul_attos(collateral, self.xrd_usd as int);
        let weighted = mul_attos(value, LIQUIDATION_THRESHOLD as int);
        let hf = div_attos(weighted, remaining);
        let lp1 = mul_attos(actual, self.xrd_usd as int);
        let lp2 = mul_attos(lp1, self.min_collaterization as int);
        let lp = div_attos(lp2, collateral);
        if !fits(limit) {
            Err(ProtocolError::Overflow)
        } else if amount > limit {
            Err(ProtocolError::BorrowLimitExceeded)
        } else if u.open_loans.contains_key(token) {
            Err(ProtocolError::LoanAlreadyOpen)
        } else if !fits(fee) || !fits(actual) || !fits(total) || self.supplied_amount == 0 || !fits(util)
            || !fits(rate) || !fits(expense) || !fits(remaining) || !fits(value) || !fits(weighted)
            || remaining == 0 || !fits(hf) || !fits(lp1) || !fits(lp2) || collateral == 0 || !fits(lp) {
            Err(ProtocolError::Overflow)
        } else {
            Ok((Loan {
                asset: token,
                collateral: token,
                principal_loan_amount: amount,
                interest: rate as i128,
                owner: user_id,
                remaining_balance: remaining as i128,
                interest_expense: expense as i128,
                collateral_amount: collateral as i128,
                collateral_amount_usd: value as i128,
                health_factor: hf as i128,
                liquidation_price: lp as i128,
                loan_status: Status::Current,
            }, actual as i128))
        }
    }

    fn compute_borrow_terms(&self, u: &User, user_id: u64, token: u64, amount: i128) -> (r: Result<(Loan, i128), ProtocolError>)
        ensures r == self.borrow_terms(u@, user_id, token, amount),
    {
        let collateral = User::balance(&u.collateral_balance, token);
        let limit = match dec_mul(collateral, self.max_borrow) {
            Some(v) => v,
            None => return Err(ProtocolError::Overflow),
        };
        if amount > limit {
            return Err(ProtocolError::BorrowLimitExceeded);
        }
        if u.open_loans.contains_key(&token) {
            return Err(ProtocolError::LoanAlreadyOpen);
        }
        let fee = match dec_mul(amount, self.borrow_fees) {
            Some(v) => v,
            None => return Err(ProtocolError::Overflow),
        };
        let actual = match amount.checked_sub(fee) {
            Some(v) => v,
            None => return Err(ProtocolError::Overflow),
        };
        let total = match self.borrow_amount.checked_add(actual) {
            Some(v) => v,
            None => return Err(ProtocolError::Overflow),
        };
        let util = match dec_div(total, self.supplied_amount) {
            Some(v) => v,
            None => return Err(ProtocolError::Overflow),
        };
        let base_rate: i128 = if util > 900_000_000_000_000_000 {
            120_000_000_000_000_000
        } else if util > 800_000_000_000_000_000 {
            110_000_000_000_000_000
        } else if util > 700_000_000_000_000_000 {
            100_000_000_000_000_000
        } else if util > 600_000_000_000_000_000 {
            90_000_000_000_000_000
        } else {
            80_000_000_000_000_000
        };
        let cs = u.credit_score;
        let modifier: i128 = if cs >= 100 && cs < 200 {
            10_000_000_000_000_000
        } else if cs >= 200 && cs < 300 {
            20_000_000_000_000_000
        } else if cs >= 300 {
            30_000_000_000_000_000
        } else {
            0
        };
        let rate = base_rate - modifier;
        let expense = match dec_mul(amount, rate) {
            Some(v) => v,
            None => return Err(ProtocolError::Overflow),
        };
        let remaining = match actual.checked_add(expense) {
            Some(v) => v,
            None => return Err(ProtocolError::Overflow),
        };
        let value = match dec_mul(collateral, self.xrd_usd) {
            Some(v) => v,
            None => return Err(ProtocolError::Overflow),
        };
        let weighted = match dec_mul(value, LIQUIDATION_THRESHOLD) {
            Some(v) => v,
            None => return Err(ProtocolError::Overflow),
        };
        let hf = match dec_div(weighted, remaining) {
            Some(v) => v,
            None => return Err(ProtocolError::Overflow),
        };
        let lp1 = match dec_mul(actual, self.xrd_usd) {
            Some(v) => v,
            None => return Err(ProtocolError::Overflow),
        };
        let lp2 = match dec_mul(lp1, self.min_collaterization) {
            Some(v) => v,
            None => return Err(ProtocolError::Overflow),
        };
        let lp = match dec_div(lp2, collateral) {
            Some(v) => v,
            None => return Err(ProtocolError::Overflow),
        };
        Ok((Loan {
            asset: token,
            collateral: token,
            principal_loan_amount: amount,
            interest: rate,
            owner: user_id,
            remaining_balance: remaining,
            interest_expense: expense,
            collateral_amount: collateral,
            collateral_amount_usd: value,
            health_factor: hf,
            liquidation_price: lp,
            loan_status: Status::Current,
        }, actual))
    }

    /// The loan that `borrow` opens and the amount it pays out, or why it is
    /// refused.
    pub open spec fn borrow_outcome(&self, users: &UserManagement, user_id: u64, token: u64, amount: i128, loan_id: u64) -> Result<(Loan, i128), ProtocolError> {
        if !users.users().contains_key(user_id) {
            Err(ProtocolError::UnknownUser)
        } else {
            let u = users.user(user_id);
            match self.borrow_terms(u, user_id, token, amount) {
                Err(e) => Err(e),
                Ok((loan, actual)) => {
                    if self.loan_data@.contains_key(loan_id) {
                        Err(ProtocolError::LoanIdTaken)
                    } else if !fits(bal(u.borrow_balance, token) + actual) {
                        Err(ProtocolError::Overflow)
                    } else {
                        match self.withdraw_refusal(self.token, actual) {
                            Some(e) => Err(e),
                            None => Ok((loan, actual)),
                        }
                    }
                },
            }
        }
    }

    /// Lends `borrow_amount` of `token_address` to `user_id` against their
    /// collateral, under the loan id `loan_id` that the ledger drew. The
    /// user receives the amount less the origination fee; the pool records
    /// the loan (see [`LendingPool::borrow_terms`]) and counts the amount
    /// paid out as borrowed; the user's record gains the borrow balance and
    /// the open loan.
    pub fn borrow(&mut self, users: &mut UserManagement, user_id: u64, token_address: u64, borrow_amount: i128, loan_id: u64)
        -> (r: Result<(Bucket, u64), ProtocolError>)
        requires
            old(self).wf(),
        ensures
            final(self).wf(),
            match old(self).borrow_outcome(old(users), user_id, token_address, borrow_amount, loan_id) {
                Err(e) => r == Err::<(Bucket, u64), ProtocolError>(e)
                    && final(self).same(old(self)) && final(users).same(old(users)),
                Ok((loan, actual)) => {
                    let u = old(users).user(user_id);
                    &&& r == Ok::<(Bucket, u64), ProtocolError>((Bucket { resource: old(self).token, amount: actual }, loan_id))
                    &&& old(users).updated(final(users), user_id,
                        u.with_borrow_balance(credited(u.borrow_balance, token_address, actual as int))
                         .with_loans(u.open_loans.insert(token_address, loan_id), u.closed_loans))
                    &&& final(self)@ == (LendingPoolView {
                        borrow_amount: (old(self).borrow_amount + actual) as i128,
                        liquidity: (old(self).liquidity - actual) as i128,
                        loans: old(self).loans@.insert(loan_id),
                        loan_data: old(self).loan_data@.insert(loan_id, loan),
                        ..old(self)@
                    })
                },
            },
    {
        let (loan, actual) = match users.get_user(user_id) {
            None => return Err(ProtocolError::UnknownUser),
            Some(u) => match self.compute_borrow_terms(u, user_id, token_address, borrow_amount) {
                Ok(t) => t,
                Err(e) => return Err(e),
            },
        };
        if self.loan_data.contains_key(&loan_id) {
            return Err(ProtocolError::LoanIdTaken);
        }
        let mut staged = users.snapshot();
        match staged.increase_borrow_balance(user_id, token_address, actual) {
            Ok(()) => {},
            Err(e) => return Err(e),
        }
        let ghost mid = staged.users();
        match staged.insert_loan(user_id, token_address, loan_id) {
            Ok(()) => {},
            Err(e) => return Err(e),
        }
        if self.liquidity < actual {
            return Err(ProtocolError::InsufficientLiquidity);
        }
        if actual < 0 {
            return Err(ProtocolError::InvalidAmount);
        }
        proof {
            let u = users.user(user_id);
            assert(staged.users() =~= users.users().insert(user_id,
                u.with_borrow_balance(credited(u.borrow_balance, token_address, actual as int))
                 .with_loans(u.open_loans.insert(token_address, loan_id), u.closed_loans)));
        }
        *users = staged;
        self.borrow_amount = self.borrow_amount + actual;
        self.liquidity = self.liquidity - actual;
        self.loans.insert(loan_id);
        self.loan_data.insert(loan_id, loan);
        Ok((Bucket { resource: self.token, amount: actual }, loan_id))
    }

    /// The updated loan and the amount counted as borrowed by
    /// `borrow_additional`, or why it is refused.
    pub open spec fn borrow_additional_outcome(&self, users: &UserManagement, user_id: u64, loan_id: u64, token: u64, amount: i128)
        -> Result<(Loan, i128), ProtocolError> {
        let u = users.user(user_id);
        let collateral = bal(u.collateral_balance, token);
        let limit = mul_attos(collateral, self.max_borrow as int);
        let fee = mul_attos(amount as int, self.borrow_fees as int);
        let actual = amount - fee;
        let expense = mul_attos(amount as int, ADDITIONAL_INTEREST as int);
        let total = self.borrow_amount + actual;
        let util = div_attos(total, self.supplied_amount as int);
        let loan = self.loan_data@[loan_id];
        let added = amount + expense;
        let remaining = loan.remaining_balance + added;
        let interest_expense = loan.interest_expense + expense;
        if !users.users().contains_key(user_id) {
            Err(ProtocolError::UnknownUser)
        } else if !fits(limit) {
            Err(ProtocolError::Overflow)
        } else if amount > limit {
            Err(ProtocolError::BorrowLimitExceeded)
        } else if !u.open_loans.contains_key(token) {
            Err(ProtocolError::NoOpenLoan)
        } else if !fits(fee) || !fits(actual) || !fits(expense) || !fits(total) || self.supplied_amount == 0 || !fits(util) {
            Err(ProtocolError::Overflow)
        } else if !self.loan_data@.contains_key(loan_id) {
            Err(ProtocolError::UnknownLoan)
        } else if loan.loan_status != Status::Current {
            Err(ProtocolError::LoanNotCurrent)
        } else if !fits(added) || !fits(remaining) || !fits(interest_expense) {
            Err(ProtocolError::Overflow)
        } else if loan.health_factor < ONE {
            Err(ProtocolError::UnhealthyLoan)
        } else if !fits(bal(u.borrow_balance, token) + amount) {
            Err(ProtocolError::Overflow)
        } else {
            match self.withdraw_refusal(self.token, amount) {
                Some(e) => Err(e),
                None => Ok((Loan {
                    remaining_balance: remaining as i128,
                    interest_expense: interest_expense as i128,
                    ..loan
                }, actual as i128)),
            }
        }
    }

    /// Lends `borrow_amount` more to `user_id` on the open loan `loan_id`.
    /// The loan must be current and healthy; its balance grows by the amount
    /// and an interest of [`ADDITIONAL_INTEREST`] on it. The user receives
    /// the whole amount and owes it; the pool counts the amount less the
    /// origination fee as borrowed.
    pub fn borrow_additional(&mut self, users: &mut UserManagement, user_id: u64, loan_id: u64, token_address: u64, borrow_amount: i128)
        -> (r: Result<Bucket, ProtocolError>)
        requires
            old(self).wf(),
        ensures
            final(self).wf(),
            match old(self).borrow_additional_outcome(old(users), user_id, loan_id, token_address, borrow_amount) {
                Err(e) => r == Err::<Bucket, ProtocolError>(e)
                    && final(self).same(old(self)) && final(users).same(old(users)),
                Ok((loan, actual)) => {
                    let u = old(users).user(user_id);
                    &&& r == Ok::<Bucket, ProtocolError>(Bucket { resource: old(self).token, amount: borrow_amount })
                    &&& old(users).updated(final(users), user_id,
                        u.with_borrow_balance(credited(u.borrow_balance, token_address, borrow_amount as int)))
                    &&& final(self)@ == (LendingPoolView {
                        borrow_amount: (old(self).borrow_amount + actual) as i128,
                        liquidity: (old(self).liquidity - borrow_amount) as i128,
                        loan_data: old(self).loan_data@.insert(loan_id, loan),
                        ..old(self)@
                    })
                },
            },
    {
        let collateral = match users.get_user(user_id) {
            None => return Err(ProtocolError::UnknownUser),
            Some(u) => User::balance(&u.collateral_balance, token_address),
        };
        let limit = match dec_mul(collateral, self.max_borrow) {
            Some(v) => v,
            None => return Err(ProtocolError::Overflow),
        };
        if borrow_amount > limit {
            return Err(ProtocolError::BorrowLimitExceeded);
        }
        match users.get_user(user_id) {
            None => return Err(ProtocolError::UnknownUser),
            Some(u) => if !u.open_loans.contains_key(&token_address) {
                return Err(ProtocolError::NoOpenLoan);
            },
        }
        let fee = match dec_mul(borrow_amount, self.borrow_fees) {
            Some(v) => v,
            None => return Err(ProtocolError::Overflow),
        };
        let actual = match borrow_amount.checked_sub(fee) {
            Some(v) => v,
            None => return Err(ProtocolError::Overflow),
        };
        let expense = match dec_mul(borrow_amount, ADDITIONAL_INTEREST) {
            Some(v) => v,
            None => return Err(ProtocolError::Overflow),
        };
        let total = match self.borrow_amount.checked_add(actual) {
            Some(v) => v,
            None => return Err(ProtocolError::Overflow),
        };
        match dec_div(total, self.supplied_amount) {
            Some(_) => {},
            None => return Err(ProtocolError::Overflow),
        }
        let loan: Loan = match self.loan_data.get(&loan_id) {
            Some(l) => *l,
            None => return Err(ProtocolError::UnknownLoan),
        };
        if loan.loan_status != Status::Current {
            return Err(ProtocolError::LoanNotCurrent);
        }
        let added = match borrow_amount.checked_add(expense) {
            Some(v) => v,
            None => return Err(ProtocolError::Overflow),
        };
        let remaining = match loan.remaining_balance.checked_add(added) {
            Some(v) => v,
            None => return Err(ProtocolError::Overflow),
        };
        let interest_expense = match loan.interest_expense.checked_add(expense) {
            Some(v) => v,
            None => return Err(ProtocolError::Overflow),
        };
        if loan.health_factor < ONE {
            return Err(ProtocolError::UnhealthyLoan);
        }
        let mut staged = users.snapshot();
        match staged.increase_borrow_balance(user_id, token_address, borrow_amount) {
            Ok(()) => {},
            Err(e) => return Err(e),
        }
        if self.liquidity < borrow_amount {
            return Err(ProtocolError::InsufficientLiquidity);
        }
        if borrow_amount < 0 {
            return Err(ProtocolError::InvalidAmount);
        }
        *users = staged;
        self.borrow_amount = total;
        self.liquidity = self.liquidity - borrow_amount;
        self.loan_data.insert(loan_id, Loan { remaining_balance: remaining, interest_expense, ..loan });
        Ok(Bucket { resource: self.token, amount: borrow_amount })
    }

    /// The user's record after a loan is paid off: the credit score earns
    /// [`REPAY_CREDIT`] twice, one more loan counts as paid off, and the loan
    /// moves from the open to the closed loans.
    pub open spec fn paid_off_record(u: UserView, token: u64, loan_id: u64) -> UserView {
        u.with_credit_score((u.credit_score + 2 * REPAY_CREDIT) as u64)
         .with_paid_off((u.paid_off + 1) as u64)
         .with_loans(u.open_loans.remove(token), u.closed_loans.insert(token, loan_id))
    }

    /// The loan, the user's record and the amount handed back after
    /// `repay`, or why it is refused.
    pub open spec fn repay_outcome(&self, users: &UserManagement, user_id: u64, loan_id: u64, token: u64, bucket: Bucket)
        -> Result<(Loan, UserView, i128), ProtocolError> {
        let loan = self.loan_data@[loan_id];
        let rem = loan.remaining_balance - bucket.amount;
        let principal = bucket.amount - loan.interest_expense;
        let total = self.borrow_amount - principal;
        let paid = rem <= 0;
        let u0 = users.user(user_id);
        let u1 = if paid { Self::paid_off_record(u0, token, loan_id) } else { u0 };
        let b = bal(u0.borrow_balance, token);
        let to_return = excess_of_repay(b, bucket.amount as int);
        if !self.loans@.contains(loan_id) {
            Err(ProtocolError::UnknownLoan)
        } else if loan.loan_status == Status::PaidOff {
            Err(ProtocolError::LoanPaidOff)
        } else if !fits(rem) || !fits(principal) || !fits(total) {
            Err(ProtocolError::Overflow)
        } else if !users.users().contains_key(user_id) {
            Err(ProtocolError::UnknownUser)
        } else if paid && (u0.credit_score + 2 * REPAY_CREDIT > u64::MAX || u0.paid_off == u64::MAX) {
            Err(ProtocolError::Overflow)
        } else if !u0.borrow_balance.contains_key(token) {
            Err(ProtocolError::MissingBorrowBalance)
        } else if repay_overflows(b, bucket.amount as int) {
            Err(ProtocolError::Overflow)
        } else if to_return > bucket.amount {
            Err(ProtocolError::InvalidAmount)
        } else if bucket.resource != self.token {
            Err(ProtocolError::NotInPool)
        } else if !fits(self.liquidity + bucket.amount - to_return) {
            Err(ProtocolError::Overflow)
        } else {
            Ok((
                if paid {
                    Loan { loan_status: Status::PaidOff, remaining_balance: 0, ..loan }
                } else {
                    Loan { loan_status: Status::Current, remaining_balance: rem as i128, ..loan }
                },
                u1.with_borrow_balance(u1.borrow_balance.insert(token, borrow_after_repay(b, bucket.amount as int) as i128)),
                to_return as i128,
            ))
        }
    }

    /// Repays `bucket` against the loan `loan_id` of `user_id`. The loan's
    /// balance shrinks by the amount, and the pool's borrowed total by the
    /// amount less the loan's interest expense. A loan whose balance reaches
    /// zero is paid off (see [`LendingPool::paid_off_record`]); any other
    /// stays current. The user's borrow balance in the token is settled, and
    /// what exceeds it is handed back; the rest goes to the pool's vault.
    pub fn repay(&mut self, users: &mut UserManagement, user_id: u64, loan_id: u64, token_address: u64, bucket: Bucket)
        -> (r: Result<Bucket, ProtocolError>)
        requires
            old(self).wf(),
            bucket.amount >= 0,
        ensures
            final(self).wf(),
            match old(self).repay_outcome(old(users), user_id, loan_id, token_address, bucket) {
                Err(e) => r == Err::<Bucket, ProtocolError>(e)
                    && final(self).same(old(self)) && final(users).same(old(users)),
                Ok((loan, u, to_return)) => {
                    &&& r == Ok::<Bucket, ProtocolError>(Bucket { resource: bucket.resource, amount: to_return })
                    &&& old(users).updated(final(users), user_id, u)
                    &&& final(self)@ == (LendingPoolView {
                        borrow_amount: (old(self).borrow_amount - (bucket.amount - old(self).loan_data@[loan_id].interest_expense)) as i128,
                        liquidity: (old(self).liquidity + bucket.amount - to_return) as i128,
                        loan_data: old(self).loan_data@.insert(loan_id, loan),
                        ..old(self)@
                    })
                },
            },
    {
        if !self.loans.contains(&loan_id) {
            return Err(ProtocolError::UnknownLoan);
        }
        let loan: Loan = match self.loan_data.get(&loan_id) {
            Some(l) => *l,
            None => return Err(ProtocolError::UnknownLoan),
        };
        if loan.loan_status == Status::PaidOff {
            return Err(ProtocolError::LoanPaidOff);
        }
        let rem = match loan.remaining_balance.checked_sub(bucket.amount) {
            Some(v) => v,
            None => return Err(ProtocolError::Overflow),
        };
        let principal = match bucket.amount.checked_sub(loan.interest_expense) {
            Some(v) => v,
            None => return Err(ProtocolError::Overflow),
        };
        let total = match self.borrow_amount.checked_sub(principal) {
            Some(v) => v,
            None => return Err(ProtocolError::Overflow),
        };
        let mut staged = users.snapshot();
        let new_loan = if rem <= 0 {
            match staged.inc_credit_score(user_id, REPAY_CREDIT) {
                Ok(()) => {},
                Err(e) => return Err(e),
            }
            match staged.inc_credit_score(user_id, REPAY_CREDIT) {
                Ok(()) => {},
                Err(e) => return Err(e),
            }
            match staged.inc_paid_off(user_id) {
                Ok(()) => {},
                Err(e) => return Err(e),
            }
            match staged.close_loan(user_id, token_address, loan_id) {
                Ok(()) => {},
                Err(e) => return Err(e),
            }
            proof {
                assert(staged.users() =~= users.users().insert(user_id,
                    Self::paid_off_record(users.user(user_id), token_address, loan_id)));
            }
            Loan { loan_status: Status::PaidOff, remaining_balance: 0, ..loan }
        } else {
            Loan { loan_status: Status::Current, remaining_balance: rem, ..loan }
        };
        let ghost mid = staged.users();
        let to_return = match staged.decrease_borrow_balance(user_id, token_address, bucket.amount) {
            Ok(v) => v,
            Err(e) => return Err(e),
        };
        if to_return > bucket.amount {
            return Err(ProtocolError::InvalidAmount);
        }
        if bucket.resource != self.token {
            return Err(ProtocolError::NotInPool);
        }
        let liquidity = match self.liquidity.checked_add(bucket.amount - to_return) {
            Some(v) => v,
            None => return Err(ProtocolError::Overflow),
        };
        proof {
            let u0 = users.user(user_id);
            let u1 = if rem <= 0 { Self::paid_off_record(u0, token_address, loan_id) } else { u0 };
            assert(mid =~= users.users().insert(user_id, u1));
            let b = bal(u0.borrow_balance, token_address);
            assert(staged.users() =~= users.users().insert(user_id,
                u1.with_borrow_balance(u1.borrow_balance.insert(token_address, borrow_after_repay(b, bucket.amount as int) as i128))));
        }
        *users = staged;
        self.borrow_amount = total;
        self.liquidity = liquidity;
        self.loan_data.insert(loan_id, new_loan);
        Ok(Bucket { resource: bucket.resource, amount: to_return })
    }

    /// Checks that none of the open loans of `user_id` is outstanding: each
    /// must have a record and none may be current. The loans are looked at
    /// in the order in which the user's record hands them out, and the first
    /// that fails decides the error.
    pub fn check_loans_settled(&self, users: &UserManagement, user_id: u64) -> (r: Result<(), ProtocolError>)
        ensures
            !users.users().contains_key(user_id) ==> r == Err::<(), ProtocolError>(ProtocolError::UnknownUser),
            users.users().contains_key(user_id) ==> {
                let open = users.user(user_id).open_loans;
                &&& r is Ok <==> loans_settled(open, self.loan_data@)
                &&& r == Err::<(), ProtocolError>(ProtocolError::UnknownLoan) ==> some_loan_unrecorded(open, self.loan_data@)
                &&& r == Err::<(), ProtocolError>(ProtocolError::OutstandingLoans) ==> some_loan_current(open, self.loan_data@)
                &&& r is Err ==> r == Err::<(), ProtocolError>(ProtocolError::UnknownLoan)
                    || r == Err::<(), ProtocolError>(ProtocolError::OutstandingLoans)
            },
    {
        let ids = match users.open_loan_ids(user_id) {
            Ok(ids) => ids,
            Err(e) => return Err(e),
        };
        let ghost open = users.user(user_id).open_loans;
        let n = ids.len();
        let mut i: usize = 0;
        while i < n
            invariant
                n == ids@.len(),
                0 <= i <= n,
                users.users().contains_key(user_id),
                open == users.user(user_id).open_loans,
                forall|j: int| 0 <= j < ids@.len() ==> open.contains_value(#[trigger] ids@[j]),
                forall|k: u64| #[trigger] open.contains_key(k) ==> ids@.contains(open[k]),
                forall|j: int| 0 <= j < i ==> self.loan_data@.contains_key(#[trigger] ids@[j])
                    && self.loan_data@[ids@[j]].loan_status != Status::Current,
            decreases n - i,
        {
            let id = ids[i];
            match self.loan_data.get(&id) {
                None => {
                    proof {
                        assert(open.contains_value(ids@[i as int]));
                        let t = choose|t: u64| #[trigger] open.contains_key(t) && open[t] == ids@[i as int];
                        assert(open.contains_key(t) && !self.loan_data@.contains_key(open[t]));
                    }
                    return Err(ProtocolError::UnknownLoan);
                },
                Some(l) => if l.loan_status == Status::Current {
                    proof {
                        assert(open.contains_value(ids@[i as int]));
                        let t = choose|t: u64| #[trigger] open.contains_key(t) && open[t] == ids@[i as int];
                        assert(open.contains_key(t) && self.loan_data@.contains_key(open[t]));
                    }
                    return Err(ProtocolError::OutstandingLoans);
                },
            }
            i = i + 1;
        }
        proof {
            assert forall|t: u64| #[trigger] open.contains_key(t) implies
                self.loan_data@.contains_key(open[t]) && self.loan_data@[open[t]].loan_status != Status::Current by {
                assert(ids@.contains(open[t]));
                let j = choose|j: int| 0 <= j < ids@.len() && ids@[j] == open[t];
                assert(self.loan_data@.contains_key(ids@[j]));
            }
        }
        Ok(())
    }

    /// The user's record after `redeem` and the amount paid out, or why it
    /// is refused, once the user's loans are known to be settled.
    pub open spec fn redeem_outcome(&self, users: &UserManagement, user_id: u64, token: u64, amount: i128)
        -> Result<(UserView, i128), ProtocolError> {
        let u = users.user(user_id);
        let ratio = div_attos(self.liquidity as int, self.supplied_amount as int);
        let out = mul_attos(amount as int, ratio);
        match deposit_decrease_refusal(u, token, amount) {
            Some(e) => Err(e),
            None => if token != self.token {
                Err(ProtocolError::NotInPool)
            } else if self.supplied_amount == 0 || !fits(ratio) || !fits(out) {
                Err(ProtocolError::Overflow)
            } else {
                match self.withdraw_refusal(self.token, out as i128) {
                    Some(e) => Err(e),
                    None => Ok((
                        u.with_deposit_balance(u.deposit_balance.insert(token, (bal(u.deposit_balance, token) - amount) as i128)),
                        out as i128,
                    )),
                }
            },
        }
    }

    /// Redeems `redeem_amount` of the supply deposit of `user_id`. The user
    /// must have no outstanding loan (see
    /// [`LendingPool::check_loans_settled`]), owe nothing in the token, and
    /// hold enough deposit. The deposit balance shrinks by the amount; the
    /// user is paid the amount times the vault's holdings over everything
    /// ever supplied.
    pub fn redeem(&mut self, users: &mut UserManagement, user_id: u64, token_address: u64, redeem_amount: i128)
        -> (r: Result<Bucket, ProtocolError>)
        requires
            old(self).wf(),
        ensures
            final(self).wf(),
            r is Err ==> final(self).same(old(self)) && final(users).same(old(users)),
            !old(users).users().contains_key(user_id) ==> r == Err::<Bucket, ProtocolError>(ProtocolError::UnknownUser),
            old(users).users().contains_key(user_id) && !loans_settled(old(users).user(user_id).open_loans, old(self).loan_data@) ==> {
                let open = old(users).user(user_id).open_loans;
                &&& r == Err::<Bucket, ProtocolError>(ProtocolError::UnknownLoan) || r == Err::<Bucket, ProtocolError>(ProtocolError::OutstandingLoans)
                &&& r == Err::<Bucket, ProtocolError>(ProtocolError::UnknownLoan) ==> some_loan_unrecorded(open, old(self).loan_data@)
                &&& r == Err::<Bucket, ProtocolError>(ProtocolError::OutstandingLoans) ==> some_loan_current(open, old(self).loan_data@)
            },
            old(users).users().contains_key(user_id) && loans_settled(old(users).user(user_id).open_loans, old(self).loan_data@) ==>
                match old(self).redeem_outcome(old(users), user_id, token_address, redeem_amount) {
                    Err(e) => r == Err::<Bucket, ProtocolError>(e),
                    Ok((u, out)) => {
                        &&& r == Ok::<Bucket, ProtocolError>(Bucket { resource: old(self).token, amount: out })
                        &&& old(users).updated(final(users), user_id, u)
                        &&& final(self)@ == (LendingPoolView { liquidity: (old(self).liquidity - out) as i128, ..old(self)@ })
                    },
                },
    {
        match self.check_loans_settled(users, user_id) {
            Ok(()) => {},
            Err(e) => return Err(e),
        }
        let mut staged = users.snapshot();
        match staged.decrease_deposit_balance(user_id, token_address, redeem_amount) {
            Ok(()) => {},
            Err(e) => return Err(e),
        }
        if token_address != self.token {
            return Err(ProtocolError::NotInPool);
        }
        let ratio = match dec_div(self.liquidity, self.supplied_amount) {
            Some(v) => v,
            None => return Err(ProtocolError::Overflow),
        };
        let out = match dec_mul(redeem_amount, ratio) {
            Some(v) => v,
            None => return Err(ProtocolError::Overflow),
        };
        let bucket = match self.withdraw(self.token, out) {
            Ok(b) => b,
            Err(e) => return Err(e),
        };
        *users = staged;
        Ok(bucket)
    }

    /// Adds every issued loan whose health factor is at or below the minimum to
    /// the bad loans.
    pub fn insert_bad_loans(&mut self)
        requires
            old(self).wf(),
        ensures
            final(self).wf(),
            final(self)@ == (LendingPoolView { bad_loans: old(self)@.bad_loans_found(), ..old(self)@ }),
    {
        let ids = sorted_ids(&self.loans);
        let n = ids.len();
        let ghost old_bad = self.bad_loans@;
        let ghost pre = self@;
        let mut i: usize = 0;
        while i < n
            invariant
                n == ids@.len(),
                0 <= i <= n,
                self.wf(),
                self@ == (LendingPoolView { bad_loans: self.bad_loans@, ..pre }),
                old_bad == pre.bad_loans,
                forall|x: u64| pre.loans.contains(x) <==> ids@.contains(x),
                old_bad.subset_of(self.bad_loans@),
                forall|j: int| 0 <= j < i && pre.is_bad(#[trigger] ids@[j]) ==> self.bad_loans@.contains(ids@[j]),
                forall|l: u64| #[trigger] self.bad_loans@.contains(l) ==> old_bad.contains(l) || (pre.loans.contains(l) && pre.is_bad(l)),
            decreases n - i,
        {
            let l = ids[i];
            proof {
                assert(ids@.contains(l));
            }
            let hf = match self.loan_data.get(&l) {
                Some(loan) => loan.health_factor,
                None => return,
            };
            if hf <= self.min_health_factor {
                self.bad_loans.insert(l);
            }
            i = i + 1;
        }
        proof {
            assert forall|l: u64| pre.loans.contains(l) && pre.is_bad(l) implies self.bad_loans@.contains(l) by {
                assert(ids@.contains(l));
                let j = choose|j: int| 0 <= j < ids@.len() && ids@[j] == l;
            }
            assert(self.bad_loans@ =~= pre.bad_loans_found());
        }
    }

    /// The bad loans that may leave the list (see
    /// [`LendingPoolView::is_cleanable`]), in ascending order.
    pub fn clean_bad_loans(&self) -> (r: Vec<u64>)
        requires
            self.wf(),
        ensures
            strictly_increasing(r@),
            forall|l: u64| r@.contains(l) <==> self.bad_loans@.contains(l) && self@.is_cleanable(l),
    {
        let ids = sorted_ids(&self.bad_loans);
        let n = ids.len();
        let mut paid: Vec<u64> = Vec::new();
        let mut i: usize = 0;
        while i < n
            invariant
                n == ids@.len(),
                0 <= i <= n,
                self.wf(),
                strictly_increasing(ids@),
                forall|x: u64| self.bad_loans@.contains(x) <==> ids@.contains(x),
                strictly_increasing(paid@),
                forall|j: int| 0 <= j < paid@.len() ==> exists|k: int| 0 <= k < i && ids@[k] == #[trigger] paid@[j],
                forall|j: int| 0 <= j < i && self@.is_cleanable(#[trigger] ids@[j]) ==> paid@.contains(ids@[j]),
                forall|x: u64| #[trigger] paid@.contains(x) ==> self.bad_loans@.contains(x) && self@.is_cleanable(x),
            decreases n - i,
        {
            let l = ids[i];
            proof {
                assert(ids@.contains(l));
            }
            let (hf, status) = match self.loan_data.get(&l) {
                Some(loan) => (loan.health_factor, loan.loan_status),
                None => return paid,
            };
            if hf > self.min_health_factor || status == Status::PaidOff {
                proof {
                    assert forall|j: int| 0 <= j < paid@.len() implies paid@[j] < l by {
                        let k = choose|k: int| 0 <= k < i && ids@[k] == paid@[j];
                    }
                }
                let ghost old_paid = paid@;
                paid.push(l);
                proof {
                    assert forall|j: int| 0 <= j < paid@.len() implies exists|k: int| 0 <= k < i + 1 && ids@[k] == #[trigger] paid@[j] by {
                        if j < paid@.len() - 1 {
                            let k = choose|k: int| 0 <= k < i && ids@[k] == paid@[j];
                            assert(0 <= k < i + 1 && ids@[k] == paid@[j]);
                        } else {
                            assert(ids@[i as int] == paid@[j]);
                        }
                    }
                    assert forall|x: u64| #[trigger] paid@.contains(x) implies self.bad_loans@.contains(x) && self@.is_cleanable(x) by {
                        let k = choose|k: int| 0 <= k < paid@.len() && paid@[k] == x;
                        if k < old_paid.len() {
                            assert(old_paid[k] == x);
                            assert(old_paid.contains(x));
                        }
                    }
                    assert forall|j: int| 0 <= j < i + 1 && self@.is_cleanable(#[trigger] ids@[j]) implies paid@.contains(ids@[j]) by {
                        if j < i {
                            assert(old_paid.contains(ids@[j]));
                            let k = choose|k: int| 0 <= k < old_paid.len() && old_paid[k] == ids@[j];
                            assert(paid@[k] == ids@[j]);
                        } else {
                            assert(paid@[paid@.len() - 1] == ids@[j]);
                        }
                    }
                }
            }
            i = i + 1;
        }
        proof {
            assert forall|l: u64| self.bad_loans@.contains(l) && self@.is_cleanable(l) implies paid@.contains(l) by {
                assert(ids@.contains(l));
                let j = choose|j: int| 0 <= j < ids@.len() && ids@[j] == l;
            }
        }
        paid
    }

    /// Takes the least bad loan that may leave the list (see
    /// [`LendingPoolView::is_cleanable`]) off the list, if there is one.
    pub fn remove_closed_loans(&mut self)
        requires
            old(self).wf(),
        ensures
            final(self).wf(),
            old(self)@.closed_loan_removed(final(self)@),
    {
        let paid = self.clean_bad_loans();
        if paid.len() > 0 {
            let m = paid[0];
            proof {
                assert(paid@.contains(m));
                assert forall|x: u64| #[trigger] self.bad_loans@.contains(x) && self@.is_cleanable(x) implies m <= x by {
                    assert(paid@.contains(x));
                    let k = choose|k: int| 0 <= k < paid@.len() && paid@[k] == x;
                    if k > 0 {
                        assert(paid@[0] < paid@[k]);
                    }
                }
                assert(self@.is_least_cleanable(m));
            }
            let ghost pre = self@;
            self.bad_loans.remove(&m);
            proof {
                assert(self@ == (LendingPoolView { bad_loans: pre.bad_loans.remove(m), ..pre }));
            }
        } else {
            proof {
                assert forall|x: u64| !(#[trigger] self.bad_loans@.contains(x) && self@.is_cleanable(x)) by {
                    if self.bad_loans@.contains(x) && self@.is_cleanable(x) {
                        assert(paid@.contains(x));
                    }
                }
            }
        }
    }

    /// The loans that may be liquidated.
    pub fn bad_loans(&self) -> (r: BTreeSet<u64>)
        ensures r@ == self.bad_loans@,
    {
        self.bad_loans.clone()
    }

    /// Refreshes the list of bad loans ([`LendingPool::insert_bad_loans`],
    /// then [`LendingPool::remove_closed_loans`]) and reports each bad loan
    /// with its health factor, in ascending order of loan id.
    pub fn find_bad_loans(&mut self) -> (r: Vec<(u64, i128)>)
        requires
            old(self).wf(),
        ensures
            final(self).wf(),
            (LendingPoolView { bad_loans: old(self)@.bad_loans_found(), ..old(self)@ }).closed_loan_removed(final(self)@),
            forall|i: int, j: int| 0 <= i < j < r@.len() ==> r@[i].0 < r@[j].0,
            forall|i: int| 0 <= i < r@.len() ==> final(self).bad_loans@.contains(#[trigger] r@[i].0)
                && r@[i].1 == final(self).loan_data@[r@[i].0].health_factor,
            forall|l: u64| #[trigger] final(self).bad_loans@.contains(l) ==> exists|i: int| 0 <= i < r@.len() && r@[i].0 == l,
    {
        self.insert_bad_loans();
        self.remove_closed_loans();
        let ids = sorted_ids(&self.bad_loans);
        let n = ids.len();
        let mut out: Vec<(u64, i128)> = Vec::new();
        let mut i: usize = 0;
        while i < n
            invariant
                n == ids@.len(),
                0 <= i <= n,
                self.wf(),
                strictly_increasing(ids@),
                forall|x: u64| self.bad_loans@.contains(x) <==> ids@.contains(x),
                out@.len() == i,
                forall|j: int| 0 <= j < i ==> (#[trigger] out@[j]).0 == ids@[j]
                    && out@[j].1 == self.loan_data@[ids@[j]].health_factor,
            decreases n - i,
        {
            let l = ids[i];
            proof {
                assert(ids@.contains(l));
            }
            let hf = match self.loan_data.get(&l) {
                Some(loan) => loan.health_factor,
                None => return out,
            };
            out.push((l, hf));
            i = i + 1;
        }
        proof {
            assert forall|i: int, j: int| 0 <= i < j < out@.len() implies out@[i].0 < out@[j].0 by {
                assert(out@[i].0 == ids@[i] && out@[j].0 == ids@[j]);
            }
            assert forall|i: int| 0 <= i < out@.len() implies self.bad_loans@.contains(#[trigger] out@[i].0) by {
                assert(out@[i].0 == ids@[i]);
            }
            assert forall|l: u64| #[trigger] self.bad_loans@.contains(l) implies exists|i: int| 0 <= i < out@.len() && out@[i].0 == l by {
                assert(ids@.contains(l));
                let j = choose|j: int| 0 <= j < ids@.len() && ids@[j] == l;
                assert(out@[j].0 == l);
            }
        }
        out
    }

    /// Marks the loan `loan_id` as defaulted.
    pub fn default_loan(&mut self, loan_id: u64) -> (r: Result<(), ProtocolError>)
        requires
            old(self).wf(),
        ensures
            final(self).wf(),
            r is Ok <==> old(self).loan_data@.contains_key(loan_id),
            r is Err ==> r == Err::<(), ProtocolError>(ProtocolError::UnknownLoan) && final(self).same(old(self)),
            r is Ok ==> final(self)@ == (LendingPoolView {
                loan_data: old(self).loan_data@.insert(loan_id,
                    Loan { loan_status: Status::Defaulted, ..old(self).loan_data@[loan_id] }),
                ..old(self)@
            }),
    {
        let loan: Loan = match self.loan_data.get(&loan_id) {
            Some(l) => *l,
            None => return Err(ProtocolError::UnknownLoan),
        };
        self.loan_data.insert(loan_id, Loan { loan_status: Status::Defaulted, ..loan });
        Ok(())
    }

    /// The health factor of the loan `loan_id`.
    pub fn check_health_factor(&self, loan_id: u64) -> (r: Result<i128, ProtocolError>)
        ensures
            r == (if self.loan_data@.contains_key(loan_id) {
                Ok::<i128, ProtocolError>(self.loan_data@[loan_id].health_factor)
            } else {
                Err::<i128, ProtocolError>(ProtocolError::UnknownLoan)
            }),
    {
        match self.loan_data.get(&loan_id) {
            Some(l) => Ok(l.health_factor),
            None => Err(ProtocolError::UnknownLoan),
        }
    }

    /// The record of the loan `loan_id`.
    pub fn get_loan_info(&self, loan_id: u64) -> (r: Result<Loan, ProtocolError>)
        ensures
            r == (if self.loan_data@.contains_key(loan_id) {
                Ok::<Loan, ProtocolError>(self.loan_data@[loan_id])
            } else {
                Err::<Loan, ProtocolError>(ProtocolError::UnknownLoan)
            }),
    {
        match self.loan_data.get(&loan_id) {
            Some(l) => Ok(*l),
            None => Err(ProtocolError::UnknownLoan),
        }
    }

    /// Whether the loan `loan_id` is at or below the minimum health factor.
    pub fn check_collateral_ratio(&self, loan_id: u64) -> (r: Result<bool, ProtocolError>)
        ensures
            r == (if self.loan_data@.contains_key(loan_id) {
                Ok::<bool, ProtocolError>(self@.is_bad(loan_id))
            } else {
                Err::<bool, ProtocolError>(ProtocolError::UnknownLoan)
            }),
    {
        match self.loan_data.get(&loan_id) {
            Some(l) => Ok(l.health_factor <= self.min_health_factor),
            None => Err(ProtocolError::UnknownLoan),
        }
    }

    /// Sets the collateral price to `xrd_price` and recomputes, at that
    /// price, the health factor of every open loan of `user_id`. Every such
    /// loan must have a record whose health factor can be computed; the
    /// loans are taken in the order in which the user's record hands them
    /// out, and the first that fails decides the error. The token named is
    /// not consulted: the price is the price of the collateral.
    pub fn set_price(&mut self, users: &UserManagement, user_id: u64, _token_address: u64, xrd_price: i128) -> (r: Result<(), ProtocolError>)
        requires
            old(self).wf(),
        ensures
            final(self).wf(),
            r is Err ==> final(self).same(old(self)),
            !users.users().contains_key(user_id) ==> r == Err::<(), ProtocolError>(ProtocolError::UnknownUser),
            users.users().contains_key(user_id) ==> {
                let open = users.user(user_id).open_loans;
                let data = old(self).loan_data@;
                &&& r is Ok <==> forall|t: u64| #[trigger] open.contains_key(t)
                    ==> data.contains_key(open[t]) && can_reprice(data[open[t]], xrd_price)
                &&& r == Err::<(), ProtocolError>(ProtocolError::UnknownLoan)
                    ==> exists|t: u64| #[trigger] open.contains_key(t) && !data.contains_key(open[t])
                &&& r == Err::<(), ProtocolError>(ProtocolError::Overflow) ==> exists|t: u64| #[trigger] open.contains_key(t)
                    && data.contains_key(open[t]) && !can_reprice(data[open[t]], xrd_price)
                &&& r is Err ==> r == Err::<(), ProtocolError>(ProtocolError::UnknownLoan)
                    || r == Err::<(), ProtocolError>(ProtocolError::Overflow)
                &&& r is Ok ==> final(self)@ == (LendingPoolView {
                    xrd_usd: xrd_price,
                    loan_data: Map::new(|l: u64| data.contains_key(l),
                        |l: u64| if open.contains_value(l) { repriced(data[l], xrd_price) } else { data[l] }),
                    ..old(self)@
                })
            },
    {
        let ids = match users.open_loan_ids(user_id) {
            Ok(ids) => ids,
            Err(e) => return Err(e),
        };
        let ghost open = users.user(user_id).open_loans;
        let ghost data = self.loan_data@;
        let mut staged = self.loan_data.clone();
        let n = ids.len();
        let mut i: usize = 0;
        while i < n
            invariant
                n == ids@.len(),
                0 <= i <= n,
                data == self.loan_data@,
                self.wf(),
                users.users().contains_key(user_id),
                open == users.user(user_id).open_loans,
                forall|j: int| 0 <= j < ids@.len() ==> open.contains_value(#[trigger] ids@[j]),
                forall|k: u64| #[trigger] open.contains_key(k) ==> ids@.contains(open[k]),
                forall|j: int| 0 <= j < i ==> data.contains_key(#[trigger] ids@[j]) && can_reprice(data[ids@[j]], xrd_price),
                staged@.dom() == data.dom(),
                forall|l: u64| #[trigger] data.contains_key(l) ==> staged@[l] == (if occurs_before(ids@, i as int, l) {
                    repriced(data[l], xrd_price)
                } else {
                    data[l]
                }),
            decreases n - i,
        {
            let id = ids[i];
            let loan: Loan = match self.loan_data.get(&id) {
                Some(l) => *l,
                None => {
                    proof {
                        let t = choose|t: u64| #[trigger] open.contains_key(t) && open[t] == ids@[i as int];
                        assert(open.contains_key(t) && !data.contains_key(open[t]));
                    }
                    return Err(ProtocolError::UnknownLoan);
                },
            };
            let value = match dec_mul(loan.collateral_amount, xrd_price) {
                Some(v) => v,
                None => {
                    proof {
                        let t = choose|t: u64| #[trigger] open.contains_key(t) && open[t] == ids@[i as int];
                        assert(open.contains_key(t) && !can_reprice(data[open[t]], xrd_price));
                    }
                    return Err(ProtocolError::Overflow);
                },
            };
            let weighted = match dec_mul(value, LIQUIDATION_THRESHOLD) {
                Some(v) => v,
                None => {
                    proof {
                        let t = choose|t: u64| #[trigger] open.contains_key(t) && open[t] == ids@[i as int];
                        assert(open.contains_key(t) && !can_reprice(data[open[t]], xrd_price));
                    }
                    return Err(ProtocolError::Overflow);
                },
            };
            let hf = match dec_div(weighted, loan.remaining_balance) {
                Some(v) => v,
                None => {
                    proof {
                        let t = choose|t: u64| #[trigger] open.contains_key(t) && open[t] == ids@[i as int];
                        assert(open.contains_key(t) && !can_reprice(data[open[t]], xrd_price));
                    }
                    return Err(ProtocolError::Overflow);
                },
            };
            staged.insert(id, Loan { health_factor: hf, ..loan });
            proof {
                assert forall|l: u64| #[trigger] data.contains_key(l) implies staged@[l] == (if occurs_before(ids@, i + 1, l) {
                    repriced(data[l], xrd_price)
                } else {
                    data[l]
                }) by {
                    if l == id {
                        assert(ids@[i as int] == l);
                    } else {
                        if occurs_before(ids@, i + 1, l) {
                            let k = choose|k: int| 0 <= k < i + 1 && #[trigger] ids@[k] == l;
                            assert(0 <= k < i && ids@[k] == l);
                        }
                    }
                }
            }
            i = i + 1;
        }
        proof {
            assert forall|t: u64| #[trigger] open.contains_key(t) implies data.contains_key(open[t]) && can_reprice(data[open[t]], xrd_price) by {
                assert(ids@.contains(open[t]));
                let j = choose|j: int| 0 <= j < ids@.len() && ids@[j] == open[t];
                assert(data.contains_key(ids@[j]));
            }
            assert forall|l: u64| occurs_before(ids@, n as int, l) <==> open.contains_value(l) by {
                if occurs_before(ids@, n as int, l) {
                    let j = choose|j: int| 0 <= j < n && #[trigger] ids@[j] == l;
                    assert(open.contains_value(ids@[j]));
                }
                if open.contains_value(l) {
                    let t = choose|t: u64| #[trigger] open.contains_key(t) && open[t] == l;
                    assert(ids@.contains(open[t]));
                    let j = choose|j: int| 0 <= j < ids@.len() && ids@[j] == open[t];
                    assert(ids@[j] == l);
                }
            }
            assert(staged@ =~= Map::new(|l: u64| data.contains_key(l),
                |l: u64| if open.contains_value(l) { repriced(data[l], xrd_price) } else { data[l] }));
        }
        self.loan_data = staged;
        self.xrd_usd = xrd_price;
        Ok(())
    }

    /// Why [`LendingPool::convert_from_collateral`] is refused, if it is;
    /// otherwise the user's record after it.
    pub open spec fn convert_from_collateral_outcome(&self, users: &UserManagement, user_id: u64, token_address: u64, bucket: Bucket)
        -> Result<UserView, ProtocolError> {
        if token_address != bucket.resource {
            Err(ProtocolError::TokenMismatch)
        } else if !users.users().contains_key(user_id) {
            Err(ProtocolError::UnknownUser)
        } else {
            match collateral_to_deposit(users.user(user_id), token_address, bucket.amount) {
                Err(e) => Err(e),
                Ok(u) => if bucket.resource != self.token {
                    Err(ProtocolError::NotInPool)
                } else if !fits(self.liquidity + bucket.amount) {
                    Err(ProtocolError::Overflow)
                } else {
                    Ok(u)
                },
            }
        }
    }

    /// Takes back `bucket`, collateral of `user_id` released by the
    /// collateral pool, as supply: the user's collateral balance in the
    /// token becomes deposit balance, and the funds go to the vault.
    pub fn convert_from_collateral(&mut self, users: &mut UserManagement, user_id: u64, token_address: u64, bucket: Bucket)
        -> (r: Result<(), ProtocolError>)
        requires
            old(self).wf(),
            bucket.amount >= 0,
        ensures
            final(self).wf(),
            match old(self).convert_from_collateral_outcome(old(users), user_id, token_address, bucket) {
                Err(e) => r == Err::<(), ProtocolError>(e) && final(self).same(old(self)) && final(users).same(old(users)),
                Ok(u) => r is Ok && old(users).updated(final(users), user_id, u)
                    && final(self)@ == (LendingPoolView { liquidity: (old(self).liquidity + bucket.amount) as i128, ..old(self)@ }),
            },
    {
        if token_address != bucket.resource {
            return Err(ProtocolError::TokenMismatch);
        }
        let mut staged = users.snapshot();
        match staged.convert_collateral_to_deposit(user_id, token_address, bucket.amount) {
            Ok(()) => {},
            Err(e) => return Err(e),
        }
        if bucket.resource != self.token {
            return Err(ProtocolError::NotInPool);
        }
        let liquidity = match self.liquidity.checked_add(bucket.amount) {
            Some(v) => v,
            None => return Err(ProtocolError::Overflow),
        };
        *users = staged;
        self.liquidity = liquidity;
        Ok(())
    }

    /// Puts a repayment collected by a liquidation into the vault.
    pub fn repayment_deposit(&mut self, bucket: Bucket) -> (r: Result<(), ProtocolError>)
        requires
            old(self).wf(),
            bucket.amount >= 0,
        ensures
            final(self).wf(),
            bucket.resource != old(self).token ==> r == Err::<(), ProtocolError>(ProtocolError::NotInPool),
            bucket.resource == old(self).token && !fits(old(self).liquidity + bucket.amount)
                ==> r == Err::<(), ProtocolError>(ProtocolError::Overflow),
            r is Ok <==> bucket.resource == old(self).token && fits(old(self).liquidity + bucket.amount),
            r is Err ==> final(self).same(old(self)),
            r is Ok ==> final(self)@ == (LendingPoolView { liquidity: (old(self).liquidity + bucket.amount) as i128, ..old(self)@ }),
    {
        if bucket.resource != self.token {
            return Err(ProtocolError::NotInPool);
        }
        match self.liquidity.checked_add(bucket.amount) {
            Some(v) => {
                self.liquidity = v;
                Ok(())
            },
            None => Err(ProtocolError::Overflow),
        }
    }

    /// Looks at the first open loan of `user_id`, in the order in which the
    /// user's record hands them out: it must have a record and must not be
    /// current. Any later open loan is not looked at.
    pub fn check_first_loan_settled(&self, users: &UserManagement, user_id: u64) -> (r: Result<(), ProtocolError>)
        ensures
            !users.users().contains_key(user_id) ==> r == Err::<(), ProtocolError>(ProtocolError::UnknownUser),
            users.users().contains_key(user_id) ==> {
                let open = users.user(user_id).open_loans;
                &&& loans_settled(open, self.loan_data@) ==> r is Ok
                &&& no_loan_settled(open, self.loan_data@) ==> r is Err
                &&& r == Err::<(), ProtocolError>(ProtocolError::UnknownLoan) ==> some_loan_unrecorded(open, self.loan_data@)
                &&& r == Err::<(), ProtocolError>(ProtocolError::OutstandingLoans) ==> some_loan_current(open, self.loan_data@)
                &&& r is Err ==> r == Err::<(), ProtocolError>(ProtocolError::UnknownLoan)
                    || r == Err::<(), ProtocolError>(ProtocolError::OutstandingLoans)
            },
    {
        let ids = match users.open_loan_ids(user_id) {
            Ok(ids) => ids,
            Err(e) => return Err(e),
        };
        let ghost open = users.user(user_id).open_loans;
        if ids.len() == 0 {
            proof {
                assert forall|t: u64| !#[trigger] open.contains_key(t) by {
                    if open.contains_key(t) {
                        assert(ids@.contains(open[t]));
                    }
                }
                assert(open.dom() =~= Set::<u64>::empty());
            }
            return Ok(());
        }
        let first = ids[0];
        proof {
            assert(open.contains_value(ids@[0]));
        }
        let ghost t = choose|t: u64| #[trigger] open.contains_key(t) && open[t] == first;
        match self.loan_data.get(&first) {
            None => {
                proof {
                    assert(open.contains_key(t) && !self.loan_data@.contains_key(open[t]));
                }
                Err(ProtocolError::UnknownLoan)
            },
            Some(l) => if l.loan_status == Status::Current {
                proof {
                    assert(open.contains_key(t) && self.loan_data@.contains_key(open[t]));
                }
                Err(ProtocolError::OutstandingLoans)
            } else {
                proof {
                    assert(open.contains_key(t));
                }
                Ok(())
            },
        }
    }

    /// What [`LendingPool::convert_to_collateral`] does: the user's record
    /// after it, or why it is refused.
    pub open spec fn convert_to_collateral_outcome(&self, users: &UserManagement, collateral_pool: &CollateralPool,
        user_id: u64, token_address: u64, amount: i128) -> Result<UserView, ProtocolError> {
        let u = users.user(user_id);
        if token_address != self.token {
            Err(ProtocolError::NotInPool)
        } else if !users.users().contains_key(user_id) {
            Err(ProtocolError::UnknownUser)
        } else if !u.deposit_balance.contains_key(token_address) {
            Err(ProtocolError::MissingDepositBalance)
        } else if u.deposit_balance[token_address] < amount {
            Err(ProtocolError::InsufficientDeposit)
        } else {
            match self.withdraw_refusal(self.token, amount) {
                Some(e) => Err(e),
                None => collateral_pool.convert_from_deposit_outcome(users, user_id, token_address,
                    Bucket { resource: self.token, amount }),
            }
        }
    }

    /// Moves `deposit_collateral` of the supply deposit of `user_id` to the
    /// collateral pool: the funds leave this vault for the collateral
    /// pool's, and the user's deposit balance becomes collateral balance.
    pub fn convert_to_collateral(&mut self, users: &mut UserManagement, collateral_pool: &mut CollateralPool, user_id: u64,
        token_address: u64, deposit_collateral: i128) -> (r: Result<(), ProtocolError>)
        requires
            old(self).wf(),
            old(collateral_pool).wf(),
        ensures
            final(self).wf(),
            final(collateral_pool).wf(),
            match old(self).convert_to_collateral_outcome(old(users), old(collateral_pool), user_id, token_address, deposit_collateral) {
                Err(e) => r == Err::<(), ProtocolError>(e) && final(self).same(old(self))
                    && final(users).same(old(users)) && *final(collateral_pool) == *old(collateral_pool),
                Ok(u) => {
                    &&& r is Ok
                    &&& old(users).updated(final(users), user_id, u)
                    &&& final(self)@ == (LendingPoolView { liquidity: (old(self).liquidity - deposit_collateral) as i128, ..old(self)@ })
                    &&& *final(collateral_pool) == (CollateralPool {
                        liquidity: (old(collateral_pool).liquidity + deposit_collateral) as i128,
                        ..*old(collateral_pool)
                    })
                },
            },
    {
        if token_address != self.token {
            return Err(ProtocolError::NotInPool);
        }
        let deposit = match users.get_user(user_id) {
            None => return Err(ProtocolError::UnknownUser),
            Some(u) => match u.deposit_balance.get(&token_address) {
                Some(d) => *d,
                None => return Err(ProtocolError::MissingDepositBalance),
            },
        };
        if deposit < deposit_collateral {
            return Err(ProtocolError::InsufficientDeposit);
        }
        if self.liquidity < deposit_collateral {
            return Err(ProtocolError::InsufficientLiquidity);
        }
        if deposit_collateral < 0 {
            return Err(ProtocolError::InvalidAmount);
        }
        let bucket = Bucket { resource: self.token, amount: deposit_collateral };
        match collateral_pool.convert_from_deposit(users, user_id, token_address, bucket) {
            Ok(()) => {},
            Err(e) => return Err(e),
        }
        self.liquidity = self.liquidity - deposit_collateral;
        Ok(())
    }

    /// What [`LendingPool::liquidate`] does: the liquidated loan, its
    /// owner's record afterwards and the collateral paid to the liquidator;
    /// or why it is refused.
    ///
    /// Only a loan on the list of bad loans may be liquidated, and the
    /// repayment may cover half of its balance. The liquidator receives the
    /// repayment plus [`LIQUIDATION_BONUS`] on it from the collateral pool;
    /// the loan loses that collateral and is marked defaulted; its owner
    /// counts one more default, loses [`DEFAULT_PENALTY`] of credit score,
    /// and has the seized collateral recorded against their borrow balance in
    /// `token_address` (see [`collateral_seized`]).
    pub open spec fn liquidate_outcome(&self, users: &UserManagement, collateral_pool: &CollateralPool, loan_id: u64,
        token_address: u64, repay: Bucket) -> Result<(Loan, UserView, i128), ProtocolError> {
        let loan = self.loan_data@[loan_id];
        let limit = mul_attos(loan.remaining_balance as int, 500_000_000_000_000_000);
        let bonus = mul_attos(repay.amount as int, LIQUIDATION_BONUS as int);
        let to_liquidator = repay.amount + bonus;
        let collateral_left = loan.collateral_amount - to_liquidator;
        let owner = loan.owner;
        let u0 = users.user(owner);
        let u1 = u0.with_defaults((u0.defaults + 1) as u64).with_credit_score((u0.credit_score - DEFAULT_PENALTY) as u64);
        if !self.bad_loans@.contains(loan_id) {
            Err(ProtocolError::NotLiquidatable)
        } else if !fits(limit) {
            Err(ProtocolError::Overflow)
        } else if repay.amount > limit {
            Err(ProtocolError::MaxRepayExceeded)
        } else if !fits(bonus) || !fits(to_liquidator) {
            Err(ProtocolError::Overflow)
        } else if collateral_pool.withdraw_refusal(to_liquidator as i128) is Some {
            Err(collateral_pool.withdraw_refusal(to_liquidator as i128).unwrap())
        } else if !fits(collateral_left) {
            Err(ProtocolError::Overflow)
        } else if !users.users().contains_key(owner) {
            Err(ProtocolError::UnknownUser)
        } else if u0.defaults == u64::MAX || u0.credit_score < DEFAULT_PENALTY {
            Err(ProtocolError::Overflow)
        } else {
            match collateral_seized(u1, token_address, to_liquidator as i128) {
                Err(e) => Err(e),
                Ok((u2, _)) => if repay.resource != self.token {
                    Err(ProtocolError::NotInPool)
                } else if !fits(self.liquidity + repay.amount) {
                    Err(ProtocolError::Overflow)
                } else {
                    Ok((
                        Loan { collateral_amount: collateral_left as i128, loan_status: Status::Defaulted, ..loan },
                        u2,
                        to_liquidator as i128,
                    ))
                },
            }
        }
    }

    /// Liquidates the bad loan `loan_id`, repaying `repay` of it (see
    /// [`LendingPool::liquidate_outcome`]). The repayment goes to this
    /// pool's vault; the liquidator is paid from the collateral pool's.
    pub fn liquidate(&mut self, users: &mut UserManagement, collateral_pool: &mut CollateralPool, loan_id: u64,
        token_address: u64, repay: Bucket) -> (r: Result<Bucket, ProtocolError>)
        requires
            old(self).wf(),
            old(collateral_pool).wf(),
            repay.amount >= 0,
        ensures
            final(self).wf(),
            final(collateral_pool).wf(),
            match old(self).liquidate_outcome(old(users), old(collateral_pool), loan_id, token_address, repay) {
                Err(e) => r == Err::<Bucket, ProtocolError>(e) && final(self).same(old(self))
                    && final(users).same(old(users)) && *final(collateral_pool) == *old(collateral_pool),
                Ok((loan, u, paid)) => {
                    &&& r == Ok::<Bucket, ProtocolError>(Bucket { resource: old(collateral_pool).token, amount: paid })
                    &&& old(users).updated(final(users), old(self).loan_data@[loan_id].owner, u)
                    &&& *final(collateral_pool) == (CollateralPool {
                        liquidity: (old(collateral_pool).liquidity - paid) as i128,
                        ..*old(collateral_pool)
                    })
                    &&& final(self)@ == (LendingPoolView {
                        liquidity: (old(self).liquidity + repay.amount) as i128,
                        loan_data: old(self).loan_data@.insert(loan_id, loan),
                        ..old(self)@
                    })
                },
            },
    {
        if !self.bad_loans.contains(&loan_id) {
            return Err(ProtocolError::NotLiquidatable);
        }
        let loan: Loan = match self.loan_data.get(&loan_id) {
            Some(l) => *l,
            None => return Err(ProtocolError::UnknownLoan),
        };
        let limit = match dec_mul(loan.remaining_balance, 500_000_000_000_000_000) {
            Some(v) => v,
            None => return Err(ProtocolError::Overflow),
        };
        if repay.amount > limit {
            return Err(ProtocolError::MaxRepayExceeded);
        }
        let bonus = match dec_mul(repay.amount, LIQUIDATION_BONUS) {
            Some(v) => v,
            None => return Err(ProtocolError::Overflow),
        };
        let to_liquidator = match repay.amount.checked_add(bonus) {
            Some(v) => v,
            None => return Err(ProtocolError::Overflow),
        };
        let mut staged_pool = *collateral_pool;
        let claim = match staged_pool.withdraw_vault(to_liquidator) {
            Ok(b) => b,
            Err(e) => return Err(e),
        };
        let collateral_left = match loan.collateral_amount.checked_sub(claim.amount) {
            Some(v) => v,
            None => return Err(ProtocolError::Overflow),
        };
        let owner = loan.owner;
        let mut staged = users.snapshot();
        match staged.inc_default(owner) {
            Ok(()) => {},
            Err(e) => return Err(e),
        }
        let ghost s1 = staged.users();
        match staged.dec_credit_score(owner, DEFAULT_PENALTY) {
            Ok(()) => {},
            Err(e) => return Err(e),
        }
        let ghost s2 = staged.users();
        match staged.decrease_collateral_balance(owner, token_address, claim.amount) {
            Ok(_) => {},
            Err(e) => return Err(e),
        }
        if repay.resource != self.token {
            return Err(ProtocolError::NotInPool);
        }
        let liquidity = match self.liquidity.checked_add(repay.amount) {
            Some(v) => v,
            None => return Err(ProtocolError::Overflow),
        };
        proof {
            let u0 = users.user(owner);
            let u1 = u0.with_defaults((u0.defaults + 1) as u64).with_credit_score((u0.credit_score - DEFAULT_PENALTY) as u64);
            assert(s2 =~= users.users().insert(owner, u1));
            assert(staged.users() =~= users.users().insert(owner, collateral_seized(u1, token_address, to_liquidator).unwrap().0));
        }
        *users = staged;
        *collateral_pool = staged_pool;
        self.liquidity = liquidity;
        self.loan_data.insert(loan_id, Loan { collateral_amount: collateral_left, loan_status: Status::Defaulted, ..loan });
        Ok(claim)
    }
}

} // verus!
