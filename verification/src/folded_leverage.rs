//! The router of the protocol: one lending pool per token, and the user
//! registry that the pools share.
//!
//! A deposit in a token without a pool opens one with the deposit as its
//! initial supply. Borrows, redemptions and repayments are routed to the
//! pool of the token; where there is none, an empty bucket of the router's
//! access badge is handed back.

use std::collections::{BTreeSet, HashMap};
use vstd::prelude::*;
use crate::bucket::Bucket;
use crate::decimal::ONE;
use crate::error::ProtocolError;
use crate::lending_pool::{loans_settled, some_loan_current, some_loan_unrecorded, LendingPool, LendingPoolView, Loan, Status,
    BORROW_FEE, MAX_BORROW, MIN_COLLATERIZATION, MIN_HEALTH_FACTOR};
use crate::user_management::{credited, fresh_user, UserManagement, UserView};

verus! {

broadcast use vstd::std_specs::hash::group_hash_axioms;

/// The data of the promise token minted for a flash loan.
pub struct LoanDue {
    pub amount_due: i128,
}

/// The data of the badge that lets the pools update user records.
pub struct AccessBadge {
    pub description: String,
}

/// The router: a lending pool per token and the shared user registry.
pub struct FoldedLeverage {
    /// The lending pool of each token.
    pub lending_pools: HashMap<u64, LendingPool>,
    /// The user registry.
    pub user_management: UserManagement,
    /// The token of the router's access badge.
    pub access_badge_token: u64,
}

impl FoldedLeverage {
    /// The pools, by token.
    pub open spec fn pools(&self) -> Map<u64, LendingPoolView> {
        Map::new(|k: u64| self.lending_pools@.contains_key(k), |k: u64| self.lending_pools@[k]@)
    }

    /// What the router keeps true between calls: every pool is well formed
    /// and is the pool of the token it is filed under.
    pub open spec fn wf(&self) -> bool {
        forall|k: u64| #[trigger] self.lending_pools@.contains_key(k)
            ==> self.lending_pools@[k].wf() && self.lending_pools@[k].token == k
    }

    /// A router without pools or users.
    pub fn new(access_badge_token: u64) -> (r: FoldedLeverage)
        ensures
            r.wf(),
            r.pools() == Map::<u64, LendingPoolView>::empty(),
            r.user_management.users() == Map::<u64, UserView>::empty(),
            r.user_management.account_record@ == Seq::<u64>::empty(),
            r.access_badge_token == access_badge_token,
    {
        let r = FoldedLeverage { lending_pools: HashMap::new(), user_management: UserManagement::new(), access_badge_token };
        assert(r.pools() =~= Map::<u64, LendingPoolView>::empty());
        r
    }

    /// Registers a new user for `account_address` under the id `user_id`
    /// (see [`UserManagement::new_user`]).
    pub fn new_user(&mut self, account_address: u64, user_id: u64) -> (r: Result<u64, ProtocolError>)
        ensures
            final(self).lending_pools@ == old(self).lending_pools@,
            final(self).access_badge_token == old(self).access_badge_token,
            old(self).user_management.account_record@.contains(account_address)
                ==> r == Err::<u64, ProtocolError>(ProtocolError::AccountAlreadyRegistered),
            !old(self).user_management.account_record@.contains(account_address) && old(self).user_management.users().contains_key(user_id)
                ==> r == Err::<u64, ProtocolError>(ProtocolError::UserIdTaken),
            !old(self).user_management.account_record@.contains(account_address) && !old(self).user_management.users().contains_key(user_id)
                ==> r == Ok::<u64, ProtocolError>(user_id),
            r is Ok ==> final(self).user_management.users() == old(self).user_management.users().insert(user_id, fresh_user())
                && final(self).user_management.account_record@ == old(self).user_management.account_record@.push(account_address),
            r is Err ==> final(self).user_management.same(&old(self).user_management),
    {
        self.user_management.new_user(account_address, user_id)
    }

    /// Whether a pool exists for `address`.
    pub fn pool_exists(&self, address: u64) -> (r: bool)
        ensures r == self.pools().contains_key(address),
    {
        self.lending_pools.contains_key(&address)
    }

    /// Fails unless a pool exists for `address`.
    pub fn assert_pool_exists(&self, address: u64) -> (r: Result<(), ProtocolError>)
        ensures
            r == (if self.pools().contains_key(address) {
                Ok::<(), ProtocolError>(())
            } else {
                Err::<(), ProtocolError>(ProtocolError::NoPool)
            }),
    {
        if self.pool_exists(address) { Ok(()) } else { Err(ProtocolError::NoPool) }
    }

    /// Fails if a pool exists for `address`.
    pub fn assert_pool_doesnt_exists(&self, address: u64) -> (r: Result<(), ProtocolError>)
        ensures
            r == (if self.pools().contains_key(address) {
                Err::<(), ProtocolError>(ProtocolError::PoolExists)
            } else {
                Ok::<(), ProtocolError>(())
            }),
    {
        if self.pool_exists(address) { Err(ProtocolError::PoolExists) } else { Ok(()) }
    }

    /// The data of a new flash-loan promise token: nothing is due yet.
    pub fn create_transient_token(&self) -> (r: LoanDue)
        ensures r.amount_due == 0,
    {
        LoanDue { amount_due: 0 }
    }

    /// The pool that a first deposit of `funds` opens.
    pub open spec fn opened_pool(funds: Bucket) -> LendingPoolView {
        LendingPoolView {
            token: funds.resource,
            liquidity: funds.amount,
            supplied_amount: funds.amount,
            borrow_amount: 0,
            borrow_fees: BORROW_FEE,
            xrd_usd: ONE,
            max_borrow: MAX_BORROW,
            min_health_factor: MIN_HEALTH_FACTOR,
            min_collaterization: MIN_COLLATERIZATION,
            loans: Set::empty(),
            loan_data: Map::empty(),
            bad_loans: Set::empty(),
        }
    }

    /// Opens a lending pool for the token of `deposit`, with the deposit as
    /// its initial supply. No pool may exist for the token yet, and the
    /// deposit must not be empty. The depositor's record is not changed.
    pub fn new_lending_pool(&mut self, user_id: u64, deposit: Bucket) -> (r: Result<(), ProtocolError>)
        requires
            old(self).wf(),
            deposit.amount >= 0,
        ensures
            final(self).wf(),
            final(self).user_management == old(self).user_management,
            final(self).access_badge_token == old(self).access_badge_token,
            old(self).pools().contains_key(deposit.resource) ==> r == Err::<(), ProtocolError>(ProtocolError::PoolExists),
            !old(self).pools().contains_key(deposit.resource) && deposit.amount == 0
                ==> r == Err::<(), ProtocolError>(ProtocolError::EmptyDeposit),
            r is Ok <==> !old(self).pools().contains_key(deposit.resource) && deposit.amount != 0,
            r is Err ==> final(self).pools() == old(self).pools(),
            r is Ok ==> final(self).pools() == old(self).pools().insert(deposit.resource, Self::opened_pool(deposit)),
    {
        match self.assert_pool_doesnt_exists(deposit.resource) {
            Ok(()) => {},
            Err(e) => return Err(e),
        }
        let pool = match LendingPool::new(deposit) {
            Ok(p) => p,
            Err(e) => return Err(e),
        };
        let ghost before = self.pools();
        let ghost pv = pool@;
        self.lending_pools.insert(deposit.resource, pool);
        proof {
            assert(pv == Self::opened_pool(deposit));
            assert(self.pools() =~= before.insert(deposit.resource, Self::opened_pool(deposit)));
        }
        Ok(())
    }

    fn take_pool(&mut self, token: u64) -> (p: LendingPool)
        requires
            old(self).lending_pools@.contains_key(token),
        ensures
            p == old(self).lending_pools@[token],
            final(self).lending_pools@ == old(self).lending_pools@.remove(token),
            final(self).user_management == old(self).user_management,
            final(self).access_badge_token == old(self).access_badge_token,
    {
        match self.lending_pools.remove(&token) {
            Some(p) => p,
            None => {
                assert(false);
                LendingPool {
                    token,
                    liquidity: 0,
                    supplied_amount: 0,
                    borrow_amount: 0,
                    borrow_fees: BORROW_FEE,
                    xrd_usd: ONE,
                    max_borrow: MAX_BORROW,
                    min_health_factor: MIN_HEALTH_FACTOR,
                    min_collaterization: MIN_COLLATERIZATION,
                    loans: BTreeSet::new(),
                    loan_data: HashMap::new(),
                    bad_loans: BTreeSet::new(),
                }
            },
        }
    }

    /// The empty bucket handed back where no pool exists for a token.
    pub open spec fn empty_bucket(&self) -> Bucket {
        Bucket { resource: self.access_badge_token, amount: 0 }
    }

    /// The pool filed under `token`.
    pub open spec fn pool(&self, token: u64) -> LendingPool {
        self.lending_pools@[token]
    }

    /// Supplies `bucket` on behalf of `user_id` to the pool of its token
    /// (see [`LendingPool::deposit`]), or opens that pool with it (see
    /// [`FoldedLeverage::new_lending_pool`]) where there is none.
    pub fn deposit(&mut self, user_id: u64, token_address: u64, bucket: Bucket) -> (r: Result<(), ProtocolError>)
        requires
            old(self).wf(),
            bucket.amount >= 0,
        ensures
            final(self).wf(),
            final(self).access_badge_token == old(self).access_badge_token,
            r is Err ==> final(self).pools() == old(self).pools() && final(self).user_management.same(&old(self).user_management),
            token_address != bucket.resource ==> r == Err::<(), ProtocolError>(ProtocolError::TokenMismatch),
            token_address == bucket.resource && old(self).pools().contains_key(token_address) ==> {
                let users = old(self).user_management;
                let pool = old(self).pool(token_address);
                match pool.deposit_refusal(&users, user_id, token_address, bucket) {
                    Some(e) => r == Err::<(), ProtocolError>(e),
                    None => {
                        let u = users.user(user_id);
                        &&& r is Ok
                        &&& users.updated(&final(self).user_management, user_id,
                            u.with_deposit_balance(credited(u.deposit_balance, token_address, bucket.amount as int))
                             .with_credit_score((u.credit_score + 5) as u64))
                        &&& final(self).pools() == old(self).pools().insert(token_address, LendingPoolView {
                            supplied_amount: (pool.supplied_amount + bucket.amount) as i128,
                            liquidity: (pool.liquidity + bucket.amount) as i128,
                            ..pool@
                        })
                    },
                }
            },
            token_address == bucket.resource && !old(self).pools().contains_key(token_address) ==> {
                &&& bucket.amount == 0 ==> r == Err::<(), ProtocolError>(ProtocolError::EmptyDeposit)
                &&& bucket.amount != 0 ==> r is Ok
                    && final(self).pools() == old(self).pools().insert(token_address, Self::opened_pool(bucket))
                    && final(self).user_management == old(self).user_management
            },
    {
        if token_address != bucket.resource {
            return Err(ProtocolError::TokenMismatch);
        }
        if self.lending_pools.contains_key(&bucket.resource) {
            let ghost before = self.pools();
            let mut pool = self.take_pool(bucket.resource);
            let r = pool.deposit(&mut self.user_management, user_id, token_address, bucket);
            let ghost pv = pool@;
            self.lending_pools.insert(bucket.resource, pool);
            proof {
                assert(self.pools() =~= before.insert(bucket.resource, pv));
                if r is Err {
                    assert(self.pools() =~= before);
                }
            }
            r
        } else {
            self.new_lending_pool(user_id, bucket)
        }
    }

    /// Lends `amount` of `token_requested` to `user_id` from the pool of the
    /// token (see [`LendingPool::borrow`]), handing back the funds and the
    /// new loan's id; where there is no pool, an empty bucket and no loan.
    pub fn borrow(&mut self, user_id: u64, token_requested: u64, amount: i128, loan_id: u64)
        -> (r: Result<(Bucket, Option<u64>), ProtocolError>)
        requires
            old(self).wf(),
        ensures
            final(self).wf(),
            final(self).access_badge_token == old(self).access_badge_token,
            r is Err ==> final(self).pools() == old(self).pools() && final(self).user_management.same(&old(self).user_management),
            !old(self).pools().contains_key(token_requested) ==> r == Ok::<(Bucket, Option<u64>), ProtocolError>((old(self).empty_bucket(), None))
                && final(self).pools() == old(self).pools() && final(self).user_management == old(self).user_management,
            old(self).pools().contains_key(token_requested) ==> {
                let users = old(self).user_management;
                let pool = old(self).pool(token_requested);
                match pool.borrow_outcome(&users, user_id, token_requested, amount, loan_id) {
                    Err(e) => r == Err::<(Bucket, Option<u64>), ProtocolError>(e),
                    Ok((loan, actual)) => {
                        let u = users.user(user_id);
                        &&& r == Ok::<(Bucket, Option<u64>), ProtocolError>((Bucket { resource: token_requested, amount: actual }, Some(loan_id)))
                        &&& users.updated(&final(self).user_management, user_id,
                            u.with_borrow_balance(credited(u.borrow_balance, token_requested, actual as int))
                             .with_loans(u.open_loans.insert(token_requested, loan_id), u.closed_loans))
                        &&& final(self).pools() == old(self).pools().insert(token_requested, LendingPoolView {
                            borrow_amount: (pool.borrow_amount + actual) as i128,
                            liquidity: (pool.liquidity - actual) as i128,
                            loans: pool.loans@.insert(loan_id),
                            loan_data: pool.loan_data@.insert(loan_id, loan),
                            ..pool@
                        })
                    },
                }
            },
    {
        if !self.lending_pools.contains_key(&token_requested) {
            return Ok((Bucket { resource: self.access_badge_token, amount: 0 }, None));
        }
        let ghost before = self.pools();
        let mut pool = self.take_pool(token_requested);
        let r = pool.borrow(&mut self.user_management, user_id, token_requested, amount, loan_id);
        let ghost pv = pool@;
        self.lending_pools.insert(token_requested, pool);
        proof {
            assert(self.pools() =~= before.insert(token_requested, pv));
            if r is Err {
                assert(self.pools() =~= before);
            }
        }
        match r {
            Ok((b, id)) => Ok((b, Some(id))),
            Err(e) => Err(e),
        }
    }

    /// Redeems `amount` of the supply deposit of `user_id` from the pool of
    /// `token_requested` (see [`LendingPool::redeem`]); where there is no
    /// pool, hands back an empty bucket.
    pub fn redeem(&mut self, user_id: u64, token_requested: u64, amount: i128) -> (r: Result<Bucket, ProtocolError>)
        requires
            old(self).wf(),
        ensures
            final(self).wf(),
            final(self).access_badge_token == old(self).access_badge_token,
            r is Err ==> final(self).pools() == old(self).pools() && final(self).user_management.same(&old(self).user_management),
            !old(self).pools().contains_key(token_requested) ==> r == Ok::<Bucket, ProtocolError>(old(self).empty_bucket())
                && final(self).pools() == old(self).pools() && final(self).user_management == old(self).user_management,
            old(self).pools().contains_key(token_requested) ==> {
                let users = old(self).user_management;
                let pool = old(self).pool(token_requested);
                &&& !users.users().contains_key(user_id) ==> r == Err::<Bucket, ProtocolError>(ProtocolError::UnknownUser)
                &&& users.users().contains_key(user_id) && !loans_settled(users.user(user_id).open_loans, pool.loan_data@) ==> {
                    let open = users.user(user_id).open_loans;
                    &&& r == Err::<Bucket, ProtocolError>(ProtocolError::UnknownLoan) || r == Err::<Bucket, ProtocolError>(ProtocolError::OutstandingLoans)
                    &&& r == Err::<Bucket, ProtocolError>(ProtocolError::UnknownLoan) ==> some_loan_unrecorded(open, pool.loan_data@)
                    &&& r == Err::<Bucket, ProtocolError>(ProtocolError::OutstandingLoans) ==> some_loan_current(open, pool.loan_data@)
                }
                &&& users.users().contains_key(user_id) && loans_settled(users.user(user_id).open_loans, pool.loan_data@) ==>
                    match pool.redeem_outcome(&users, user_id, token_requested, amount) {
                        Err(e) => r == Err::<Bucket, ProtocolError>(e),
                        Ok((u, out)) => {
                            &&& r == Ok::<Bucket, ProtocolError>(Bucket { resource: token_requested, amount: out })
                            &&& users.updated(&final(self).user_management, user_id, u)
                            &&& final(self).pools() == old(self).pools().insert(token_requested,
                                LendingPoolView { liquidity: (pool.liquidity - out) as i128, ..pool@ })
                        },
                    }
            },
    {
        if !self.lending_pools.contains_key(&token_requested) {
            return Ok(Bucket { resource: self.access_badge_token, amount: 0 });
        }
        let ghost before = self.pools();
        let mut pool = self.take_pool(token_requested);
        let r = pool.redeem(&mut self.user_management, user_id, token_requested, amount);
        let ghost pv = pool@;
        self.lending_pools.insert(token_requested, pool);
        proof {
            assert(self.pools() =~= before.insert(token_requested, pv));
            if r is Err {
                assert(self.pools() =~= before);
            }
        }
        r
    }

    /// Repays `bucket` against the loan `loan_id` of `user_id` in the pool
    /// of `token_requested` (see [`LendingPool::repay`]), handing back what
    /// exceeds the debt; where there is no pool, hands back an empty bucket.
    pub fn repay(&mut self, user_id: u64, token_requested: u64, loan_id: u64, bucket: Bucket) -> (r: Result<Bucket, ProtocolError>)
        requires
            old(self).wf(),
            bucket.amount >= 0,
        ensures
            final(self).wf(),
            final(self).access_badge_token == old(self).access_badge_token,
            r is Err ==> final(self).pools() == old(self).pools() && final(self).user_management.same(&old(self).user_management),
            token_requested != bucket.resource ==> r == Err::<Bucket, ProtocolError>(ProtocolError::TokenMismatch),
            token_requested == bucket.resource && !old(self).pools().contains_key(token_requested)
                ==> r == Ok::<Bucket, ProtocolError>(old(self).empty_bucket())
                && final(self).pools() == old(self).pools() && final(self).user_management == old(self).user_management,
            token_requested == bucket.resource && old(self).pools().contains_key(token_requested) ==> {
                let users = old(self).user_management;
                let pool = old(self).pool(token_requested);
                match pool.repay_outcome(&users, user_id, loan_id, token_requested, bucket) {
                    Err(e) => r == Err::<Bucket, ProtocolError>(e),
                    Ok((loan, u, to_return)) => {
                        &&& r == Ok::<Bucket, ProtocolError>(Bucket { resource: bucket.resource, amount: to_return })
                        &&& users.updated(&final(self).user_management, user_id, u)
                        &&& final(self).pools() == old(self).pools().insert(token_requested, LendingPoolView {
                            borrow_amount: (pool.borrow_amount - (bucket.amount - pool.loan_data@[loan_id].interest_expense)) as i128,
                            liquidity: (pool.liquidity + bucket.amount - to_return) as i128,
                            loan_data: pool.loan_data@.insert(loan_id, loan),
                            ..pool@
                        })
                    },
                }
            },
    {
        if token_requested != bucket.resource {
            return Err(ProtocolError::TokenMismatch);
        }
        if !self.lending_pools.contains_key(&token_requested) {
            return Ok(Bucket { resource: self.access_badge_token, amount: 0 });
        }
        let ghost before = self.pools();
        let mut pool = self.take_pool(token_requested);
        let r = pool.repay(&mut self.user_management, user_id, loan_id, token_requested, bucket);
        let ghost pv = pool@;
        self.lending_pools.insert(token_requested, pool);
        proof {
            assert(self.pools() =~= before.insert(token_requested, pv));
            if r is Err {
                assert(self.pools() =~= before);
            }
        }
        r
    }
}

} // verus!
