//! User records ("soul bound tokens") and the component that keeps them.
//!
//! Each user of the protocol holds one non-transferable record that tracks
//! what they deposited, posted as collateral and borrowed in each token, the
//! loans they opened and closed, and a credit score. Only the pools change a
//! record, through the methods of [`UserManagement`].

use std::collections::HashMap;
use vstd::prelude::*;
use crate::decimal::fits;
use vstd::std_specs::hash::spec_hash_map_iter;
use vstd::std_specs::iter::IteratorSpec;
use crate::error::ProtocolError;

verus! {

broadcast use vstd::std_specs::hash::group_hash_axioms;

/// The data of a user record. Token and loan ids are plain integers;
/// amounts are in attos (see [`crate::decimal`]).
#[derive(Clone)]
pub struct User {
    pub credit_score: u64,
    pub deposit_balance: HashMap<u64, i128>,
    pub collateral_balance: HashMap<u64, i128>,
    pub borrow_balance: HashMap<u64, i128>,
    pub open_loans: HashMap<u64, u64>,
    pub closed_loans: HashMap<u64, u64>,
    pub defaults: u64,
    pub paid_off: u64,
}

/// The mathematical value of a [`User`].
pub struct UserView {
    pub credit_score: u64,
    pub deposit_balance: Map<u64, i128>,
    pub collateral_balance: Map<u64, i128>,
    pub borrow_balance: Map<u64, i128>,
    pub open_loans: Map<u64, u64>,
    pub closed_loans: Map<u64, u64>,
    pub defaults: u64,
    pub paid_off: u64,
}

impl View for User {
    type V = UserView;

    open spec fn view(&self) -> UserView {
        UserView {
            credit_score: self.credit_score,
            deposit_balance: self.deposit_balance@,
            collateral_balance: self.collateral_balance@,
            borrow_balance: self.borrow_balance@,
            open_loans: self.open_loans@,
            closed_loans: self.closed_loans@,
            defaults: self.defaults,
            paid_off: self.paid_off,
        }
    }
}

/// The balance recorded for `k`, zero where there is no entry.
pub open spec fn bal(m: Map<u64, i128>, k: u64) -> int {
    if m.contains_key(k) { m[k] as int } else { 0 }
}

impl UserView {
    pub open spec fn with_credit_score(self, credit_score: u64) -> UserView {
        UserView { credit_score, ..self }
    }

    pub open spec fn with_deposit_balance(self, deposit_balance: Map<u64, i128>) -> UserView {
        UserView { deposit_balance, ..self }
    }

    pub open spec fn with_collateral_balance(self, collateral_balance: Map<u64, i128>) -> UserView {
        UserView { collateral_balance, ..self }
    }

    pub open spec fn with_borrow_balance(self, borrow_balance: Map<u64, i128>) -> UserView {
        UserView { borrow_balance, ..self }
    }

    pub open spec fn with_loans(self, open_loans: Map<u64, u64>, closed_loans: Map<u64, u64>) -> UserView {
        UserView { open_loans, closed_loans, ..self }
    }

    pub open spec fn with_defaults(self, defaults: u64) -> UserView {
        UserView { defaults, ..self }
    }

    pub open spec fn with_paid_off(self, paid_off: u64) -> UserView {
        UserView { paid_off, ..self }
    }
}

/// `m` with `amount` added to the balance of `k` (an absent entry counts
/// as zero).
pub open spec fn credited(m: Map<u64, i128>, k: u64, amount: int) -> Map<u64, i128> {
    m.insert(k, (bal(m, k) + amount) as i128)
}

/// The reduction of the interest rate that a credit score earns: one, two
/// or three hundredths from a score of 100, 200 or 300 on.
pub open spec fn interest_discount(credit_score: u64) -> i128 {
    if credit_score >= 300 {
        30_000_000_000_000_000
    } else if credit_score >= 200 {
        20_000_000_000_000_000
    } else if credit_score >= 100 {
        10_000_000_000_000_000
    } else {
        0
    }
}

/// The reduction of the collateral requirement that a credit score earns:
/// five, ten or fifteen hundredths from a score of 100, 200 or 300 on.
pub open spec fn collaterization_discount(credit_score: u64) -> i128 {
    if credit_score >= 300 {
        150_000_000_000_000_000
    } else if credit_score >= 200 {
        100_000_000_000_000_000
    } else if credit_score >= 100 {
        50_000_000_000_000_000
    } else {
        0
    }
}

/// The borrow balance left after a repayment of `repay` against `b`.
pub open spec fn borrow_after_repay(b: int, repay: int) -> int {
    if b < repay { 0 } else { b - repay }
}

/// The part of a repayment of `repay` against `b` that is handed back.
pub open spec fn excess_of_repay(b: int, repay: int) -> int {
    if b < repay { repay - b } else { 0 }
}

/// Whether settling a repayment of `repay` against `b` overflows.
pub open spec fn repay_overflows(b: int, repay: int) -> bool {
    if b < repay { !fits(repay - b) } else { !fits(b - repay) }
}

/// Why a withdrawal of `amount` from the deposit balance in `address` of
/// the record `u` is refused, if it is: the user still owes a borrow
/// balance in the token, has no deposit entry for it, or would be left with
/// a negative (or unrepresentable) balance.
pub open spec fn deposit_decrease_refusal(u: UserView, address: u64, amount: i128) -> Option<ProtocolError> {
    let d = bal(u.deposit_balance, address) - amount;
    if bal(u.borrow_balance, address) != 0 {
        Some(ProtocolError::OutstandingBorrow)
    } else if !u.deposit_balance.contains_key(address) {
        Some(ProtocolError::MissingDepositBalance)
    } else if !fits(d) {
        Some(ProtocolError::Overflow)
    } else if d < 0 {
        Some(ProtocolError::NegativeDepositBalance)
    } else {
        None
    }
}

/// The record `u` after a repayment of `repay` against its borrow balance
/// in `address`, with the part of the repayment handed back; or why it is
/// refused.
pub open spec fn repaid(u: UserView, address: u64, repay: i128) -> Result<(UserView, i128), ProtocolError> {
    let b = bal(u.borrow_balance, address);
    if !u.borrow_balance.contains_key(address) {
        Err(ProtocolError::MissingBorrowBalance)
    } else if repay_overflows(b, repay as int) {
        Err(ProtocolError::Overflow)
    } else {
        Ok((
            u.with_borrow_balance(u.borrow_balance.insert(address, borrow_after_repay(b, repay as int) as i128)),
            excess_of_repay(b, repay as int) as i128,
        ))
    }
}

/// The record `u` after a seizure of `redeem` of its collateral in
/// `address` has been recorded against its borrow balance in that token,
/// with the part of the seizure that exceeds the borrow balance; or why it
/// is refused. The user must have a deposit entry for the token. Where the
/// seizure exceeds the borrow balance, an existing borrow entry falls by the
/// whole amount (below zero); otherwise nothing is recorded.
pub open spec fn collateral_seized(u: UserView, address: u64, redeem: i128) -> Result<(UserView, i128), ProtocolError> {
    let b = bal(u.borrow_balance, address);
    if !u.deposit_balance.contains_key(address) {
        Err(ProtocolError::MissingDepositBalance)
    } else if !fits(b - redeem) || (b < redeem && !fits(redeem - b)) {
        Err(ProtocolError::Overflow)
    } else if b < redeem {
        Ok((
            if u.borrow_balance.contains_key(address) {
                u.with_borrow_balance(u.borrow_balance.insert(address, (b - redeem) as i128))
            } else {
                u
            },
            (redeem - b) as i128,
        ))
    } else {
        Ok((u, 0))
    }
}

/// The record `u` after `amount` of its deposit balance in `address` has
/// become collateral, or why that is refused.
pub open spec fn deposit_to_collateral(u: UserView, address: u64, amount: i128) -> Result<UserView, ProtocolError> {
    let d = bal(u.deposit_balance, address) - amount;
    let c = bal(u.collateral_balance, address) + amount;
    if !u.deposit_balance.contains_key(address) {
        Err(ProtocolError::MissingDepositBalance)
    } else if !(fits(d) && fits(c)) {
        Err(ProtocolError::Overflow)
    } else {
        Ok(u.with_deposit_balance(u.deposit_balance.insert(address, d as i128))
            .with_collateral_balance(u.collateral_balance.insert(address, c as i128)))
    }
}

/// The record `u` after `amount` of its collateral balance in `address` has
/// become deposit, or why that is refused.
pub open spec fn collateral_to_deposit(u: UserView, address: u64, amount: i128) -> Result<UserView, ProtocolError> {
    let c = bal(u.collateral_balance, address) - amount;
    let d = bal(u.deposit_balance, address) + amount;
    if !u.collateral_balance.contains_key(address) {
        Err(ProtocolError::MissingCollateralBalance)
    } else if !(fits(d) && fits(c)) {
        Err(ProtocolError::Overflow)
    } else {
        Ok(u.with_deposit_balance(u.deposit_balance.insert(address, d as i128))
            .with_collateral_balance(u.collateral_balance.insert(address, c as i128)))
    }
}

/// The record of a user who has not yet interacted with the protocol.
pub open spec fn fresh_user() -> UserView {
    UserView {
        credit_score: 0,
        deposit_balance: Map::empty(),
        collateral_balance: Map::empty(),
        borrow_balance: Map::empty(),
        open_loans: Map::empty(),
        closed_loans: Map::empty(),
        defaults: 0,
        paid_off: 0,
    }
}

impl User {
    /// The balance of `address` in `m`, zero where there is no entry.
    pub fn balance(m: &HashMap<u64, i128>, address: u64) -> (r: i128)
        ensures r == bal(m@, address),
    {
        match m.get(&address) {
            Some(b) => *b,
            None => 0,
        }
    }

    /// A record with a zero credit score and no balances or loans.
    pub fn new() -> (u: User)
        ensures u@ == fresh_user(),
    {
        User {
            credit_score: 0,
            deposit_balance: HashMap::new(),
            collateral_balance: HashMap::new(),
            borrow_balance: HashMap::new(),
            open_loans: HashMap::new(),
            closed_loans: HashMap::new(),
            defaults: 0,
            paid_off: 0,
        }
    }
}

/// The values of `m`, in the order in which the map hands them out.
pub fn values_of(m: &HashMap<u64, u64>) -> (r: Vec<u64>)
    ensures
        forall|i: int| 0 <= i < r@.len() ==> m@.contains_value(#[trigger] r@[i]),
        forall|k: u64| #[trigger] m@.contains_key(k) ==> r@.contains(m@[k]),
{
    let mut r: Vec<u64> = Vec::new();
    let ghost v = spec_hash_map_iter(m).remaining();
    for (_k, x) in it: m.iter()
        invariant
            it.seq() == v,
            r@.len() == it.index(),
            forall|i: int| 0 <= i < it.index() ==> r@[i] == *it.seq()[i].1,
    {
        r.push(*x);
    }
    proof {
        assert(r@.len() == v.len());
        assert forall|i: int| 0 <= i < r@.len() implies m@.contains_value(#[trigger] r@[i]) by {
            assert(m@.contains_key(*v[i].0) && m@[*v[i].0] == *v[i].1);
        }
        assert forall|k: u64| #[trigger] m@.contains_key(k) implies r@.contains(m@[k]) by {
            assert(v.contains((&k, &m@[k])));
            let j = choose|j: int| 0 <= j < v.len() && v[j] == (&k, &m@[k]);
            assert(r@[j] == m@[k]);
        }
    }
    r
}

/// The registry of user records, and of the accounts that were given one.
pub struct UserManagement {
    pub user_record: HashMap<u64, User>,
    pub account_record: Vec<u64>,
}

impl UserManagement {
    /// The user records, by user id.
    pub open spec fn users(&self) -> Map<u64, UserView> {
        Map::new(|k: u64| self.user_record@.contains_key(k), |k: u64| self.user_record@[k]@)
    }

    /// Whether two registries hold the same records and accounts.
    pub open spec fn same(&self, other: &UserManagement) -> bool {
        &&& self.users() == other.users()
        &&& self.account_record@ == other.account_record@
    }

    /// Whether `other` is `self` with the record of `user_id` replaced by `u`.
    pub open spec fn updated(&self, other: &UserManagement, user_id: u64, u: UserView) -> bool {
        &&& other.users() == self.users().insert(user_id, u)
        &&& other.account_record@ == self.account_record@
    }

    /// The record of `user_id`.
    pub open spec fn user(&self, user_id: u64) -> UserView {
        self.users()[user_id]
    }

    fn take_user(&mut self, user_id: u64) -> (u: User)
        requires
            old(self).user_record@.contains_key(user_id),
        ensures
            u@ == old(self).user(user_id),
            final(self).user_record@ == old(self).user_record@.remove(user_id),
            final(self).account_record@ == old(self).account_record@,
    {
        match self.user_record.remove(&user_id) {
            Some(u) => u,
            None => {
                assert(false);
                User::new()
            },
        }
    }

    fn put_user(&mut self, user_id: u64, u: User)
        ensures
            final(self).user_record@ == old(self).user_record@.insert(user_id, u),
            final(self).account_record@ == old(self).account_record@,
    {
        self.user_record.insert(user_id, u);
    }

    /// The record of `user_id`, if one exists.
    pub fn get_user(&self, user_id: u64) -> (r: Option<&User>)
        ensures
            r is Some <==> self.users().contains_key(user_id),
            r is Some ==> r->0@ == self.user(user_id),
    {
        self.user_record.get(&user_id)
    }

    /// The ids of the open loans of `user_id`, in the order in which the
    /// record hands them out.
    pub fn open_loan_ids(&self, user_id: u64) -> (r: Result<Vec<u64>, ProtocolError>)
        ensures
            r is Err <==> !self.users().contains_key(user_id),
            r is Err ==> r == Err::<Vec<u64>, ProtocolError>(ProtocolError::UnknownUser),
            r is Ok ==> {
                let ids = r->Ok_0@;
                let open = self.user(user_id).open_loans;
                &&& forall|i: int| 0 <= i < ids.len() ==> open.contains_value(#[trigger] ids[i])
                &&& forall|k: u64| #[trigger] open.contains_key(k) ==> ids.contains(open[k])
            },
    {
        match self.user_record.get(&user_id) {
            Some(u) => Ok(values_of(&u.open_loans)),
            None => Err(ProtocolError::UnknownUser),
        }
    }

    /// The credit score of `user_id`, if a record exists.
    pub fn credit_score(&self, user_id: u64) -> (r: Option<u64>)
        ensures
            r == (if self.users().contains_key(user_id) {
                Some(self.user(user_id).credit_score)
            } else {
                None::<u64>
            }),
    {
        match self.user_record.get(&user_id) {
            Some(u) => Some(u.credit_score),
            None => None,
        }
    }

    /// The borrow balance of `user_id` in `address` (zero without an
    /// entry), if a record exists.
    pub fn borrow_balance_of(&self, user_id: u64, address: u64) -> (r: Option<i128>)
        ensures
            r == (if self.users().contains_key(user_id) {
                Some(bal(self.user(user_id).borrow_balance, address) as i128)
            } else {
                None::<i128>
            }),
    {
        match self.user_record.get(&user_id) {
            Some(u) => match u.borrow_balance.get(&address) {
                Some(b) => Some(*b),
                None => Some(0),
            },
            None => None,
        }
    }

    /// A copy of the registry, to stage the changes of a transaction that
    /// may still be refused.
    pub fn snapshot(&self) -> (r: UserManagement)
        ensures r.same(self),
    {
        let accounts = self.account_record.clone();
        assert(accounts@ =~= self.account_record@);
        let r = UserManagement { user_record: self.user_record.clone(), account_record: accounts };
        assert(r.users() =~= self.users());
        r
    }

    /// An empty registry.
    pub fn new() -> (s: UserManagement)
        ensures
            s.users() == Map::<u64, UserView>::empty(),
            s.account_record@ == Seq::<u64>::empty(),
    {
        let s = UserManagement { user_record: HashMap::new(), account_record: Vec::new() };
        assert(s.users() =~= Map::<u64, UserView>::empty());
        s
    }

    /// Whether a record exists under `user_id`.
    pub fn find_user(&self, user_id: u64) -> (r: bool)
        ensures r == self.users().contains_key(user_id),
    {
        self.user_record.contains_key(&user_id)
    }

    /// Fails unless a record exists under `user_id`.
    pub fn assert_user_exist(&self, user_id: u64) -> (r: Result<(), ProtocolError>)
        ensures
            r == (if self.users().contains_key(user_id) {
                Ok::<(), ProtocolError>(())
            } else {
                Err::<(), ProtocolError>(ProtocolError::UnknownUser)
            }),
    {
        if self.find_user(user_id) { Ok(()) } else { Err(ProtocolError::UnknownUser) }
    }

    /// Fails unless the record of `user_id` has a deposit entry for
    /// `address`.
    pub fn assert_deposit_resource_exists(&self, user_id: u64, address: u64) -> (r: Result<(), ProtocolError>)
        ensures
            r == (if !self.users().contains_key(user_id) {
                Err::<(), ProtocolError>(ProtocolError::UnknownUser)
            } else if !self.user(user_id).deposit_balance.contains_key(address) {
                Err::<(), ProtocolError>(ProtocolError::MissingDepositBalance)
            } else {
                Ok::<(), ProtocolError>(())
            }),
    {
        match self.user_record.get(&user_id) {
            None => Err(ProtocolError::UnknownUser),
            Some(u) => if u.deposit_balance.contains_key(&address) {
                Ok(())
            } else {
                Err(ProtocolError::MissingDepositBalance)
            },
        }
    }

    /// Fails unless the record of `user_id` has a borrow entry for
    /// `address`.
    pub fn assert_borrow_resource_exists(&self, user_id: u64, address: u64) -> (r: Result<(), ProtocolError>)
        ensures
            r == (if !self.users().contains_key(user_id) {
                Err::<(), ProtocolError>(ProtocolError::UnknownUser)
            } else if !self.user(user_id).borrow_balance.contains_key(address) {
                Err::<(), ProtocolError>(ProtocolError::MissingBorrowBalance)
            } else {
                Ok::<(), ProtocolError>(())
            }),
    {
        match self.user_record.get(&user_id) {
            None => Err(ProtocolError::UnknownUser),
            Some(u) => if u.borrow_balance.contains_key(&address) {
                Ok(())
            } else {
                Err(ProtocolError::MissingBorrowBalance)
            },
        }
    }

    /// Creates the record of a new user for `account_address`, under the id
    /// `user_id` that the ledger drew for it. An account gets one record
    /// only.
    pub fn new_user(&mut self, account_address: u64, user_id: u64) -> (r: Result<u64, ProtocolError>)
        ensures
            old(self).account_record@.contains(account_address) ==> r == Err::<u64, ProtocolError>(ProtocolError::AccountAlreadyRegistered),
            !old(self).account_record@.contains(account_address) && old(self).users().contains_key(user_id)
                ==> r == Err::<u64, ProtocolError>(ProtocolError::UserIdTaken),
            r is Ok ==> r == Ok::<u64, ProtocolError>(user_id)
                && final(self).users() == old(self).users().insert(user_id, fresh_user())
                && final(self).account_record@ == old(self).account_record@.push(account_address),
            r is Err ==> final(self).users() == old(self).users()
                && final(self).account_record@ == old(self).account_record@,
            !old(self).account_record@.contains(account_address) && !old(self).users().contains_key(user_id) ==> r is Ok,
    {
        let n = self.account_record.len();
        let mut i: usize = 0;
        while i < n
            invariant
                n == self.account_record@.len(),
                0 <= i <= n,
                forall|j: int| 0 <= j < i ==> self.account_record@[j] != account_address,
            decreases n - i,
        {
            if self.account_record[i] == account_address {
                return Err(ProtocolError::AccountAlreadyRegistered);
            }
            i = i + 1;
        }
        if self.user_record.contains_key(&user_id) {
            return Err(ProtocolError::UserIdTaken);
        }
        let ghost before = self.users();
        self.user_record.insert(user_id, User::new());
        self.account_record.push(account_address);
        assert(self.users() =~= before.insert(user_id, fresh_user()));
        Ok(user_id)
    }

    /// Adds `amount` to the credit score of `user_id`.
    pub fn inc_credit_score(&mut self, user_id: u64, amount: u64) -> (r: Result<(), ProtocolError>)
        ensures
            !old(self).users().contains_key(user_id) ==> r == Err::<(), ProtocolError>(ProtocolError::UnknownUser),
            old(self).users().contains_key(user_id) && old(self).user(user_id).credit_score + amount > u64::MAX
                ==> r == Err::<(), ProtocolError>(ProtocolError::Overflow),
            r is Ok <==> old(self).users().contains_key(user_id)
                && old(self).user(user_id).credit_score + amount <= u64::MAX,
            r is Ok ==> old(self).updated(final(self), user_id,
                old(self).user(user_id).with_credit_score((old(self).user(user_id).credit_score + amount) as u64)),
            r is Err ==> final(self).same(old(self)),
    {
        let cs = match self.credit_score(user_id) {
            Some(cs) => cs,
            None => return Err(ProtocolError::UnknownUser),
        };
        if cs > u64::MAX - amount {
            return Err(ProtocolError::Overflow);
        }
        let ghost before = self.users();
        let mut u = self.take_user(user_id);
        u.credit_score = cs + amount;
        self.put_user(user_id, u);
        assert(self.users() =~= before.insert(user_id, before[user_id].with_credit_score((cs + amount) as u64)));
        Ok(())
    }

    /// Subtracts `amount` from the credit score of `user_id`.
    pub fn dec_credit_score(&mut self, user_id: u64, amount: u64) -> (r: Result<(), ProtocolError>)
        ensures
            !old(self).users().contains_key(user_id) ==> r == Err::<(), ProtocolError>(ProtocolError::UnknownUser),
            old(self).users().contains_key(user_id) && old(self).user(user_id).credit_score < amount
                ==> r == Err::<(), ProtocolError>(ProtocolError::Overflow),
            r is Ok <==> old(self).users().contains_key(user_id) && old(self).user(user_id).credit_score >= amount,
            r is Ok ==> old(self).updated(final(self), user_id,
                old(self).user(user_id).with_credit_score((old(self).user(user_id).credit_score - amount) as u64)),
            r is Err ==> final(self).same(old(self)),
    {
        let cs = match self.credit_score(user_id) {
            Some(cs) => cs,
            None => return Err(ProtocolError::UnknownUser),
        };
        if cs < amount {
            return Err(ProtocolError::Overflow);
        }
        let ghost before = self.users();
        let mut u = self.take_user(user_id);
        u.credit_score = cs - amount;
        self.put_user(user_id, u);
        assert(self.users() =~= before.insert(user_id, before[user_id].with_credit_score((cs - amount) as u64)));
        Ok(())
    }

    /// Sets the credit score of `user_id`.
    pub fn set_credit_score(&mut self, user_id: u64, credit_score: u64) -> (r: Result<(), ProtocolError>)
        ensures
            r is Ok <==> old(self).users().contains_key(user_id),
            r is Err ==> r == Err::<(), ProtocolError>(ProtocolError::UnknownUser) && final(self).same(old(self)),
            r is Ok ==> old(self).updated(final(self), user_id, old(self).user(user_id).with_credit_score(credit_score)),
    {
        if !self.user_record.contains_key(&user_id) {
            return Err(ProtocolError::UnknownUser);
        }
        let ghost before = self.users();
        let mut u = self.take_user(user_id);
        u.credit_score = credit_score;
        self.put_user(user_id, u);
        assert(self.users() =~= before.insert(user_id, before[user_id].with_credit_score(credit_score)));
        Ok(())
    }

    /// Adds `amount` to the deposit balance of `user_id` in `address`,
    /// opening the entry if there is none.
    pub fn add_deposit_balance(&mut self, user_id: u64, address: u64, amount: i128) -> (r: Result<(), ProtocolError>)
        ensures
            !old(self).users().contains_key(user_id) ==> r == Err::<(), ProtocolError>(ProtocolError::UnknownUser),
            old(self).users().contains_key(user_id) && !fits(bal(old(self).user(user_id).deposit_balance, address) + amount)
                ==> r == Err::<(), ProtocolError>(ProtocolError::Overflow),
            r is Ok <==> old(self).users().contains_key(user_id)
                && fits(bal(old(self).user(user_id).deposit_balance, address) + amount),
            r is Ok ==> old(self).updated(final(self), user_id, old(self).user(user_id).with_deposit_balance(
                credited(old(self).user(user_id).deposit_balance, address, amount as int))),
            r is Err ==> final(self).same(old(self)),
    {
        if !self.user_record.contains_key(&user_id) {
            return Err(ProtocolError::UnknownUser);
        }
        let ghost before = self.users();
        let mut u = self.take_user(user_id);
        let cur: i128 = match u.deposit_balance.get(&address) {
            Some(b) => *b,
            None => 0,
        };
        let sum = match cur.checked_add(amount) {
            Some(v) => v,
            None => {
                self.put_user(user_id, u);
                assert(self.users() =~= before);
                return Err(ProtocolError::Overflow);
            },
        };
        u.deposit_balance.insert(address, sum);
        self.put_user(user_id, u);
        assert(self.users() =~= before.insert(user_id, before[user_id].with_deposit_balance(
            credited(before[user_id].deposit_balance, address, amount as int))));
        Ok(())
    }

    /// Fails unless `user_id` owes nothing in `address`: a deposit cannot be
    /// withdrawn while a loan in the same token is outstanding.
    pub fn check_lien(&self, user_id: u64, address: u64) -> (r: Result<(), ProtocolError>)
        ensures
            !self.users().contains_key(user_id) ==> r == Err::<(), ProtocolError>(ProtocolError::UnknownUser),
            self.users().contains_key(user_id) && bal(self.user(user_id).borrow_balance, address) != 0
                ==> r == Err::<(), ProtocolError>(ProtocolError::OutstandingBorrow),
            r is Ok <==> self.users().contains_key(user_id) && bal(self.user(user_id).borrow_balance, address) == 0,
    {
        match self.borrow_balance_of(user_id, address) {
            None => Err(ProtocolError::UnknownUser),
            Some(b) => if b == 0 { Ok(()) } else { Err(ProtocolError::OutstandingBorrow) },
        }
    }

    /// Whether the record of `user_id` has a deposit entry for `address`.
    pub fn deposit_resource_exists(&self, user_id: u64, address: u64) -> (r: Result<bool, ProtocolError>)
        ensures
            r == (if self.users().contains_key(user_id) {
                Ok::<bool, ProtocolError>(self.user(user_id).deposit_balance.contains_key(address))
            } else {
                Err::<bool, ProtocolError>(ProtocolError::UnknownUser)
            }),
    {
        match self.user_record.get(&user_id) {
            Some(u) => Ok(u.deposit_balance.contains_key(&address)),
            None => Err(ProtocolError::UnknownUser),
        }
    }

    /// Withdraws `redeem_amount` from the deposit balance of `user_id` in
    /// `address`. The user must owe nothing in that token, must have a
    /// deposit entry for it, and the balance must not go below zero.
    pub fn decrease_deposit_balance(&mut self, user_id: u64, address: u64, redeem_amount: i128) -> (r: Result<(), ProtocolError>)
        ensures
            r == (if !old(self).users().contains_key(user_id) {
                Err::<(), ProtocolError>(ProtocolError::UnknownUser)
            } else {
                match deposit_decrease_refusal(old(self).user(user_id), address, redeem_amount) {
                    Some(e) => Err::<(), ProtocolError>(e),
                    None => Ok::<(), ProtocolError>(()),
                }
            }),
            r is Ok ==> {
                let u = old(self).user(user_id);
                old(self).updated(final(self), user_id, u.with_deposit_balance(
                    u.deposit_balance.insert(address, (bal(u.deposit_balance, address) - redeem_amount) as i128)))
            },
            r is Err ==> final(self).same(old(self)),
    {
        match self.check_lien(user_id, address) {
            Ok(()) => {},
            Err(e) => return Err(e),
        }
        let cur: i128 = match self.user_record.get(&user_id) {
            Some(u) => match u.deposit_balance.get(&address) {
                Some(b) => *b,
                None => return Err(ProtocolError::MissingDepositBalance),
            },
            None => return Err(ProtocolError::UnknownUser),
        };
        let rest = match cur.checked_sub(redeem_amount) {
            Some(v) => v,
            None => return Err(ProtocolError::Overflow),
        };
        if rest < 0 {
            return Err(ProtocolError::NegativeDepositBalance);
        }
        let ghost before = self.users();
        let mut u = self.take_user(user_id);
        u.deposit_balance.insert(address, rest);
        self.put_user(user_id, u);
        assert(self.users() =~= before.insert(user_id, before[user_id].with_deposit_balance(
            before[user_id].deposit_balance.insert(address, rest))));
        Ok(())
    }

    /// Adds `amount` to the borrow balance of `user_id` in `address`,
    /// opening the entry if there is none.
    pub fn increase_borrow_balance(&mut self, user_id: u64, address: u64, amount: i128) -> (r: Result<(), ProtocolError>)
        ensures
            !old(self).users().contains_key(user_id) ==> r == Err::<(), ProtocolError>(ProtocolError::UnknownUser),
            old(self).users().contains_key(user_id) && !fits(bal(old(self).user(user_id).borrow_balance, address) + amount)
                ==> r == Err::<(), ProtocolError>(ProtocolError::Overflow),
            r is Ok <==> old(self).users().contains_key(user_id)
                && fits(bal(old(self).user(user_id).borrow_balance, address) + amount),
            r is Ok ==> old(self).updated(final(self), user_id, old(self).user(user_id).with_borrow_balance(
                credited(old(self).user(user_id).borrow_balance, address, amount as int))),
            r is Err ==> final(self).same(old(self)),
    {
        if !self.user_record.contains_key(&user_id) {
            return Err(ProtocolError::UnknownUser);
        }
        let ghost before = self.users();
        let mut u = self.take_user(user_id);
        let cur: i128 = match u.borrow_balance.get(&address) {
            Some(b) => *b,
            None => 0,
        };
        let sum = match cur.checked_add(amount) {
            Some(v) => v,
            None => {
                self.put_user(user_id, u);
                assert(self.users() =~= before);
                return Err(ProtocolError::Overflow);
            },
        };
        u.borrow_balance.insert(address, sum);
        self.put_user(user_id, u);
        assert(self.users() =~= before.insert(user_id, before[user_id].with_borrow_balance(
            credited(before[user_id].borrow_balance, address, amount as int))));
        Ok(())
    }

    /// Adds `amount` to the collateral balance of `user_id` in `address`,
    /// opening the entry if there is none.
    pub fn add_collateral_balance(&mut self, user_id: u64, address: u64, amount: i128) -> (r: Result<(), ProtocolError>)
        ensures
            !old(self).users().contains_key(user_id) ==> r == Err::<(), ProtocolError>(ProtocolError::UnknownUser),
            old(self).users().contains_key(user_id) && !fits(bal(old(self).user(user_id).collateral_balance, address) + amount)
                ==> r == Err::<(), ProtocolError>(ProtocolError::Overflow),
            r is Ok <==> old(self).users().contains_key(user_id)
                && fits(bal(old(self).user(user_id).collateral_balance, address) + amount),
            r is Ok ==> old(self).updated(final(self), user_id, old(self).user(user_id).with_collateral_balance(
                credited(old(self).user(user_id).collateral_balance, address, amount as int))),
            r is Err ==> final(self).same(old(self)),
    {
        if !self.user_record.contains_key(&user_id) {
            return Err(ProtocolError::UnknownUser);
        }
        let ghost before = self.users();
        let mut u = self.take_user(user_id);
        let cur: i128 = match u.collateral_balance.get(&address) {
            Some(b) => *b,
            None => 0,
        };
        let sum = match cur.checked_add(amount) {
            Some(v) => v,
            None => {
                self.put_user(user_id, u);
                assert(self.users() =~= before);
                return Err(ProtocolError::Overflow);
            },
        };
        u.collateral_balance.insert(address, sum);
        self.put_user(user_id, u);
        assert(self.users() =~= before.insert(user_id, before[user_id].with_collateral_balance(
            credited(before[user_id].collateral_balance, address, amount as int))));
        Ok(())
    }

    /// Records a repayment of `repay_amount` against the borrow balance of
    /// `user_id` in `address`. A repayment larger than the balance clears it
    /// and hands back the excess; otherwise the balance shrinks by the
    /// repayment and nothing is handed back.
    pub fn decrease_borrow_balance(&mut self, user_id: u64, address: u64, repay_amount: i128) -> (r: Result<i128, ProtocolError>)
        ensures
            !old(self).users().contains_key(user_id) ==> r == Err::<i128, ProtocolError>(ProtocolError::UnknownUser),
            old(self).users().contains_key(user_id) ==> match repaid(old(self).user(user_id), address, repay_amount) {
                Ok((u, back)) => r == Ok::<i128, ProtocolError>(back) && old(self).updated(final(self), user_id, u),
                Err(e) => r == Err::<i128, ProtocolError>(e),
            },
            r is Err ==> final(self).same(old(self)),
    {
        let b: i128 = match self.user_record.get(&user_id) {
            Some(u) => match u.borrow_balance.get(&address) {
                Some(b) => *b,
                None => return Err(ProtocolError::MissingBorrowBalance),
            },
            None => return Err(ProtocolError::UnknownUser),
        };
        let ghost before = self.users();
        if b < repay_amount {
            let to_return = match repay_amount.checked_sub(b) {
                Some(v) => v,
                None => return Err(ProtocolError::Overflow),
            };
            let mut u = self.take_user(user_id);
            u.borrow_balance.insert(address, 0);
            self.put_user(user_id, u);
            assert(self.users() =~= before.insert(user_id, before[user_id].with_borrow_balance(
                before[user_id].borrow_balance.insert(address, 0))));
            Ok(to_return)
        } else {
            let rest = match b.checked_sub(repay_amount) {
                Some(v) => v,
                None => return Err(ProtocolError::Overflow),
            };
            let mut u = self.take_user(user_id);
            u.borrow_balance.insert(address, rest);
            self.put_user(user_id, u);
            assert(self.users() =~= before.insert(user_id, before[user_id].with_borrow_balance(
                before[user_id].borrow_balance.insert(address, rest))));
            Ok(0)
        }
    }

    /// Counts one more loan paid off by `user_id`.
    pub fn inc_paid_off(&mut self, user_id: u64) -> (r: Result<(), ProtocolError>)
        ensures
            !old(self).users().contains_key(user_id) ==> r == Err::<(), ProtocolError>(ProtocolError::UnknownUser),
            old(self).users().contains_key(user_id) && old(self).user(user_id).paid_off == u64::MAX
                ==> r == Err::<(), ProtocolError>(ProtocolError::Overflow),
            r is Ok <==> old(self).users().contains_key(user_id) && old(self).user(user_id).paid_off < u64::MAX,
            r is Ok ==> old(self).updated(final(self), user_id,
                old(self).user(user_id).with_paid_off((old(self).user(user_id).paid_off + 1) as u64)),
            r is Err ==> final(self).same(old(self)),
    {
        let n = match self.user_record.get(&user_id) {
            Some(u) => u.paid_off,
            None => return Err(ProtocolError::UnknownUser),
        };
        if n == u64::MAX {
            return Err(ProtocolError::Overflow);
        }
        let ghost before = self.users();
        let mut u = self.take_user(user_id);
        u.paid_off = n + 1;
        self.put_user(user_id, u);
        assert(self.users() =~= before.insert(user_id, before[user_id].with_paid_off((n + 1) as u64)));
        Ok(())
    }

    /// Counts one more default (liquidation) of `user_id`.
    pub fn inc_default(&mut self, user_id: u64) -> (r: Result<(), ProtocolError>)
        ensures
            !old(self).users().contains_key(user_id) ==> r == Err::<(), ProtocolError>(ProtocolError::UnknownUser),
            old(self).users().contains_key(user_id) && old(self).user(user_id).defaults == u64::MAX
                ==> r == Err::<(), ProtocolError>(ProtocolError::Overflow),
            r is Ok <==> old(self).users().contains_key(user_id) && old(self).user(user_id).defaults < u64::MAX,
            r is Ok ==> old(self).updated(final(self), user_id,
                old(self).user(user_id).with_defaults((old(self).user(user_id).defaults + 1) as u64)),
            r is Err ==> final(self).same(old(self)),
    {
        let n = match self.user_record.get(&user_id) {
            Some(u) => u.defaults,
            None => return Err(ProtocolError::UnknownUser),
        };
        if n == u64::MAX {
            return Err(ProtocolError::Overflow);
        }
        let ghost before = self.users();
        let mut u = self.take_user(user_id);
        u.defaults = n + 1;
        self.put_user(user_id, u);
        assert(self.users() =~= before.insert(user_id, before[user_id].with_defaults((n + 1) as u64)));
        Ok(())
    }

    /// Records `loan_id` as the open loan of `user_id` in `token_address`;
    /// a loan already recorded for the token is kept.
    pub fn insert_loan(&mut self, user_id: u64, token_address: u64, loan_id: u64) -> (r: Result<(), ProtocolError>)
        ensures
            r is Ok <==> old(self).users().contains_key(user_id),
            r is Err ==> r == Err::<(), ProtocolError>(ProtocolError::UnknownUser) && final(self).same(old(self)),
            r is Ok ==> {
                let u = old(self).user(user_id);
                old(self).updated(final(self), user_id, if u.open_loans.contains_key(token_address) {
                    u
                } else {
                    u.with_loans(u.open_loans.insert(token_address, loan_id), u.closed_loans)
                })
            },
    {
        if !self.user_record.contains_key(&user_id) {
            return Err(ProtocolError::UnknownUser);
        }
        let ghost before = self.users();
        let mut u = self.take_user(user_id);
        if !u.open_loans.contains_key(&token_address) {
            u.open_loans.insert(token_address, loan_id);
        }
        self.put_user(user_id, u);
        assert(self.users() =~= before.insert(user_id, if before[user_id].open_loans.contains_key(token_address) {
            before[user_id]
        } else {
            before[user_id].with_loans(before[user_id].open_loans.insert(token_address, loan_id), before[user_id].closed_loans)
        }));
        Ok(())
    }

    /// Moves the loan of `user_id` in `token_address` from the open loans
    /// to the closed loans, recorded there as `loan_id`.
    pub fn close_loan(&mut self, user_id: u64, token_address: u64, loan_id: u64) -> (r: Result<(), ProtocolError>)
        ensures
            r is Ok <==> old(self).users().contains_key(user_id),
            r is Err ==> r == Err::<(), ProtocolError>(ProtocolError::UnknownUser) && final(self).same(old(self)),
            r is Ok ==> {
                let u = old(self).user(user_id);
                old(self).updated(final(self), user_id,
                    u.with_loans(u.open_loans.remove(token_address), u.closed_loans.insert(token_address, loan_id)))
            },
    {
        if !self.user_record.contains_key(&user_id) {
            return Err(ProtocolError::UnknownUser);
        }
        let ghost before = self.users();
        let mut u = self.take_user(user_id);
        u.open_loans.remove(&token_address);
        u.closed_loans.insert(token_address, loan_id);
        self.put_user(user_id, u);
        assert(self.users() =~= before.insert(user_id, before[user_id].with_loans(
            before[user_id].open_loans.remove(token_address), before[user_id].closed_loans.insert(token_address, loan_id))));
        Ok(())
    }

    /// Moves `amount` of the deposit balance of `user_id` in `address` to
    /// its collateral balance (opening the collateral entry if needed). The
    /// user must have a deposit entry for the token.
    pub fn convert_deposit_to_collateral(&mut self, user_id: u64, address: u64, amount: i128) -> (r: Result<(), ProtocolError>)
        ensures
            !old(self).users().contains_key(user_id) ==> r == Err::<(), ProtocolError>(ProtocolError::UnknownUser),
            old(self).users().contains_key(user_id) ==> match deposit_to_collateral(old(self).user(user_id), address, amount) {
                Ok(u) => r is Ok && old(self).updated(final(self), user_id, u),
                Err(e) => r == Err::<(), ProtocolError>(e),
            },
            r is Err ==> final(self).same(old(self)),
    {
        let (dep, col): (i128, i128) = match self.user_record.get(&user_id) {
            Some(u) => {
                let dep = match u.deposit_balance.get(&address) {
                    Some(b) => *b,
                    None => return Err(ProtocolError::MissingDepositBalance),
                };
                let col = match u.collateral_balance.get(&address) {
                    Some(b) => *b,
                    None => 0,
                };
                (dep, col)
            },
            None => return Err(ProtocolError::UnknownUser),
        };
        let new_dep = match dep.checked_sub(amount) {
            Some(v) => v,
            None => return Err(ProtocolError::Overflow),
        };
        let new_col = match col.checked_add(amount) {
            Some(v) => v,
            None => return Err(ProtocolError::Overflow),
        };
        let ghost before = self.users();
        let mut u = self.take_user(user_id);
        u.deposit_balance.insert(address, new_dep);
        u.collateral_balance.insert(address, new_col);
        self.put_user(user_id, u);
        assert(self.users() =~= before.insert(user_id,
            before[user_id].with_deposit_balance(before[user_id].deposit_balance.insert(address, new_dep))
                .with_collateral_balance(before[user_id].collateral_balance.insert(address, new_col))));
        Ok(())
    }

    /// Moves `amount` of the collateral balance of `user_id` in `address`
    /// back to its deposit balance (opening the deposit entry if needed).
    /// The user must have a collateral entry for the token.
    pub fn convert_collateral_to_deposit(&mut self, user_id: u64, address: u64, amount: i128) -> (r: Result<(), ProtocolError>)
        ensures
            !old(self).users().contains_key(user_id) ==> r == Err::<(), ProtocolError>(ProtocolError::UnknownUser),
            old(self).users().contains_key(user_id) ==> match collateral_to_deposit(old(self).user(user_id), address, amount) {
                Ok(u) => r is Ok && old(self).updated(final(self), user_id, u),
                Err(e) => r == Err::<(), ProtocolError>(e),
            },
            r is Err ==> final(self).same(old(self)),
    {
        let (dep, col): (i128, i128) = match self.user_record.get(&user_id) {
            Some(u) => {
                let col = match u.collateral_balance.get(&address) {
                    Some(b) => *b,
                    None => return Err(ProtocolError::MissingCollateralBalance),
                };
                let dep = match u.deposit_balance.get(&address) {
                    Some(b) => *b,
                    None => 0,
                };
                (dep, col)
            },
            None => return Err(ProtocolError::UnknownUser),
        };
        let new_col = match col.checked_sub(amount) {
            Some(v) => v,
            None => return Err(ProtocolError::Overflow),
        };
        let new_dep = match dep.checked_add(amount) {
            Some(v) => v,
            None => return Err(ProtocolError::Overflow),
        };
        let ghost before = self.users();
        let mut u = self.take_user(user_id);
        u.deposit_balance.insert(address, new_dep);
        u.collateral_balance.insert(address, new_col);
        self.put_user(user_id, u);
        assert(self.users() =~= before.insert(user_id,
            before[user_id].with_deposit_balance(before[user_id].deposit_balance.insert(address, new_dep))
                .with_collateral_balance(before[user_id].collateral_balance.insert(address, new_col))));
        Ok(())
    }

    /// Records the seizure of `redeem_amount` of collateral from `user_id`
    /// in `address` against the user's borrow balance in that token (see
    /// [`collateral_seized`]). The user must have a deposit entry for the
    /// token. Where the amount exceeds the borrow balance, the excess is
    /// handed back and an existing borrow entry falls by the whole amount;
    /// otherwise nothing is recorded and zero is handed back. The collateral
    /// balance itself is not changed.
    pub fn decrease_collateral_balance(&mut self, user_id: u64, address: u64, redeem_amount: i128) -> (r: Result<i128, ProtocolError>)
        ensures
            !old(self).users().contains_key(user_id) ==> r == Err::<i128, ProtocolError>(ProtocolError::UnknownUser),
            old(self).users().contains_key(user_id) ==> match collateral_seized(old(self).user(user_id), address, redeem_amount) {
                Ok((u, excess)) => r == Ok::<i128, ProtocolError>(excess) && old(self).updated(final(self), user_id, u),
                Err(e) => r == Err::<i128, ProtocolError>(e),
            },
            r is Err ==> final(self).same(old(self)),
    {
        let (has_borrow, b): (bool, i128) = match self.user_record.get(&user_id) {
            Some(u) => {
                if !u.deposit_balance.contains_key(&address) {
                    return Err(ProtocolError::MissingDepositBalance);
                }
                match u.borrow_balance.get(&address) {
                    Some(b) => (true, *b),
                    None => (false, 0),
                }
            },
            None => return Err(ProtocolError::UnknownUser),
        };
        let rest = match b.checked_sub(redeem_amount) {
            Some(v) => v,
            None => return Err(ProtocolError::Overflow),
        };
        if b < redeem_amount {
            let to_return = match redeem_amount.checked_sub(b) {
                Some(v) => v,
                None => return Err(ProtocolError::Overflow),
            };
            if has_borrow {
                let ghost before = self.users();
                let mut u = self.take_user(user_id);
                u.borrow_balance.insert(address, rest);
                self.put_user(user_id, u);
                assert(self.users() =~= before.insert(user_id, before[user_id].with_borrow_balance(
                    before[user_id].borrow_balance.insert(address, rest))));
            } else {
                assert(self.users() =~= self.users().insert(user_id, self.users()[user_id]));
            }
            Ok(to_return)
        } else {
            assert(self.users() =~= self.users().insert(user_id, self.users()[user_id]));
            Ok(0)
        }
    }

    /// The interest rate reduction that the credit score of `user_id` earns.
    pub fn interest_modifier(&self, user_id: u64) -> (r: Result<i128, ProtocolError>)
        ensures
            r == (if self.users().contains_key(user_id) {
                Ok::<i128, ProtocolError>(interest_discount(self.user(user_id).credit_score))
            } else {
                Err::<i128, ProtocolError>(ProtocolError::UnknownUser)
            }),
    {
        let cs = match self.credit_score(user_id) {
            Some(cs) => cs,
            None => return Err(ProtocolError::UnknownUser),
        };
        if cs >= 100 && cs < 200 {
            Ok(10_000_000_000_000_000)
        } else if cs >= 200 && cs < 300 {
            Ok(20_000_000_000_000_000)
        } else if cs >= 300 {
            Ok(30_000_000_000_000_000)
        } else {
            Ok(0)
        }
    }

    /// The collateral requirement reduction that the credit score of
    /// `user_id` earns.
    pub fn collaterization_modifier(&self, user_id: u64) -> (r: Result<i128, ProtocolError>)
        ensures
            r == (if self.users().contains_key(user_id) {
                Ok::<i128, ProtocolError>(collaterization_discount(self.user(user_id).credit_score))
            } else {
                Err::<i128, ProtocolError>(ProtocolError::UnknownUser)
            }),
    {
        let cs = match self.credit_score(user_id) {
            Some(cs) => cs,
            None => return Err(ProtocolError::UnknownUser),
        };
        if cs >= 100 && cs < 200 {
            Ok(50_000_000_000_000_000)
        } else if cs >= 200 && cs < 300 {
            Ok(100_000_000_000_000_000)
        } else if cs >= 300 {
            Ok(150_000_000_000_000_000)
        } else {
            Ok(0)
        }
    }

    /// The borrow balances of `user_id`.
    pub fn check_borrow_balance(&self, user_id: u64) -> (r: Result<&HashMap<u64, i128>, ProtocolError>)
        ensures
            r is Ok <==> self.users().contains_key(user_id),
            r is Ok ==> r->Ok_0@ == self.user(user_id).borrow_balance,
            r is Err ==> r == Err::<&HashMap<u64, i128>, ProtocolError>(ProtocolError::UnknownUser),
    {
        match self.user_record.get(&user_id) {
            Some(u) => Ok(&u.borrow_balance),
            None => Err(ProtocolError::UnknownUser),
        }
    }
}

/// The deposit balances of `user_id`, the balance information that a user
/// may look up in their record.
pub fn check_deposit_balance(users: &UserManagement, user_id: u64) -> (r: Result<&HashMap<u64, i128>, ProtocolError>)
    ensures
        r is Ok <==> users.users().contains_key(user_id),
        r is Ok ==> r->Ok_0@ == users.user(user_id).deposit_balance,
        r is Err ==> r == Err::<&HashMap<u64, i128>, ProtocolError>(ProtocolError::UnknownUser),
{
    match users.get_user(user_id) {
        Some(u) => Ok(&u.deposit_balance),
        None => Err(ProtocolError::UnknownUser),
    }
}

} // verus!
