//! The balance-transfer collaborator: the marketplace queries a buyer's
//! free balance and moves funds from buyer to seller while keeping the
//! buyer's account alive. The host supplies the implementation;
//! `MapBalances` is a plain verified one over an in-memory map.
use vstd::prelude::*;
use std::collections::HashMap;
use crate::AccountId;

verus! {

broadcast use vstd::std_specs::hash::group_hash_axioms;

/// Why a funds transfer was refused.
#[derive(Clone, Copy, Debug, PartialEq, Eq)]
pub enum TransferError {
    /// The paying account does not hold the amount.
    InsufficientFunds,
    /// Paying would leave the paying account below the existential
    /// minimum that keeps it alive.
    ExistentialDepositViolation,
}

/// A balance service. A transfer either moves the full amount and leaves
/// every other account untouched, or fails and changes nothing; whether
/// it succeeds is a function of the balances before the call.
pub trait BalanceSource {
    /// The free balance of `who`.
    spec fn balance_of(&self, who: AccountId) -> u64;

    /// Whether moving `amount` from `from` to `to` would succeed now.
    spec fn can_transfer(&self, from: AccountId, to: AccountId, amount: u64) -> bool;

    /// Reads the free balance of `who`.
    fn free_balance(&self, who: AccountId) -> (r: u64)
        ensures
            r == self.balance_of(who),
    ;

    /// Moves `amount` from `from` to `to`, all or nothing.
    fn transfer(&mut self, from: AccountId, to: AccountId, amount: u64) -> (r: Result<
        (),
        TransferError,
    >)
        requires
            from != to,
        ensures
            r is Ok <==> old(self).can_transfer(from, to, amount),
            r is Ok ==> final(self).balance_of(from) == old(self).balance_of(from) - amount
                && final(self).balance_of(to) == old(self).balance_of(to) + amount,
            r is Ok ==> forall|a: AccountId|
                a != from && a != to ==> final(self).balance_of(a) == old(self).balance_of(a),
            r is Err ==> forall|a: AccountId|
                final(self).balance_of(a) == old(self).balance_of(a),
    ;
}

/// An in-memory balance service: a map from account to free balance and
/// the existential minimum a paying account must keep.
pub struct MapBalances {
    pub accounts: HashMap<AccountId, u64>,
    pub minimum: u64,
}

impl MapBalances {
    /// An empty service: every account holds zero.
    pub fn new(minimum: u64) -> (r: MapBalances)
        ensures
            r.minimum == minimum,
            forall|a: AccountId| r.balance_of(a) == 0u64,
    {
        MapBalances { accounts: HashMap::new(), minimum }
    }

    /// Overwrites the free balance of `who`.
    pub fn set_balance(&mut self, who: AccountId, amount: u64)
        ensures
            final(self).minimum == old(self).minimum,
            final(self).balance_of(who) == amount,
            forall|a: AccountId|
                a != who ==> final(self).balance_of(a) == old(self).balance_of(a),
    {
        self.accounts.insert(who, amount);
    }
}

impl BalanceSource for MapBalances {
    open spec fn balance_of(&self, who: AccountId) -> u64 {
        if self.accounts@.contains_key(who) {
            self.accounts@[who]
        } else {
            0u64
        }
    }

    open spec fn can_transfer(&self, from: AccountId, to: AccountId, amount: u64) -> bool {
        &&& self.balance_of(from) >= amount
        &&& self.balance_of(from) - amount >= self.minimum
        &&& self.balance_of(to) + amount <= u64::MAX
    }

    fn free_balance(&self, who: AccountId) -> (r: u64) {
        match self.accounts.get(&who) {
            Option::Some(b) => *b,
            Option::None => 0,
        }
    }

    fn transfer(&mut self, from: AccountId, to: AccountId, amount: u64) -> (r: Result<
        (),
        TransferError,
    >) {
        let from_balance = self.free_balance(from);
        if from_balance < amount {
            return Err(TransferError::InsufficientFunds);
        }
        let kept = from_balance - amount;
        if kept < self.minimum {
            return Err(TransferError::ExistentialDepositViolation);
        }
        let to_balance = self.free_balance(to);
        if to_balance > u64::MAX - amount {
            return Err(TransferError::InsufficientFunds);
        }
        self.accounts.insert(from, kept);
        self.accounts.insert(to, to_balance + amount);
        Ok(())
    }
}

} // verus!
