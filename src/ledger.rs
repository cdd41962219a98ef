use std::collections::HashMap;
use vstd::prelude::*;

use crate::state::AuctionErr;

verus! {

broadcast use vstd::std_specs::hash::group_hash_axioms;

/// The custody ledger: how much each participant's wallet holds, and how much
/// each auction vault holds in escrow. Vaults are numbered in the order they
/// were opened; a wallet that was never credited holds zero.
pub struct Ledger {
    wallets: HashMap<u64, u64>,
    vaults: Vec<u64>,
}

impl Ledger {
    /// Balance of the wallet of `who`.
    pub closed spec fn wallet(&self, who: u64) -> nat {
        if self.wallets@.contains_key(who) {
            self.wallets@[who] as nat
        } else {
            0
        }
    }

    /// Balances of the vaults, by vault number.
    pub closed spec fn vaults(&self) -> Seq<u64> {
        self.vaults@
    }

    /// A ledger with no funds and no vaults.
    pub fn new() -> (r: Ledger)
        ensures
            forall|w: u64| r.wallet(w) == 0,
            r.vaults() == Seq::<u64>::empty(),
    {
        Ledger { wallets: HashMap::new(), vaults: Vec::new() }
    }

    /// What the wallet of `who` holds.
    pub fn balance_of(&self, who: u64) -> (r: u64)
        ensures
            r == self.wallet(who),
    {
        match self.wallets.get(&who) {
            Some(b) => *b,
            None => 0,
        }
    }

    /// What vault `v` holds.
    pub fn vault_balance(&self, v: usize) -> (r: u64)
        requires
            v < self.vaults().len(),
        ensures
            r == self.vaults()[v as int],
    {
        self.vaults[v]
    }

    /// Number of vaults opened so far.
    pub fn vault_count(&self) -> (r: usize)
        ensures
            r == self.vaults().len(),
    {
        self.vaults.len()
    }

    fn set_wallet(&mut self, who: u64, amount: u64)
        ensures
            final(self).wallet(who) == amount,
            forall|w: u64| w != who ==> final(self).wallet(w) == old(self).wallet(w),
            final(self).vaults() == old(self).vaults(),
    {
        self.wallets.insert(who, amount);
    }

    /// Opens an empty vault and returns its number.
    pub fn open_vault(&mut self) -> (r: usize)
        requires
            old(self).vaults().len() < usize::MAX,
        ensures
            r == old(self).vaults().len(),
            final(self).vaults() == old(self).vaults().push(0),
            forall|w: u64| final(self).wallet(w) == old(self).wallet(w),
    {
        let r = self.vaults.len();
        self.vaults.push(0);
        r
    }

    /// Adds `amount` to the wallet of `who`, unless the balance would overflow.
    pub fn deposit(&mut self, who: u64, amount: u64) -> (r: Result<(), AuctionErr>)
        ensures
            r is Err <==> old(self).wallet(who) + amount > u64::MAX,
            r matches Err(e) ==> e == AuctionErr::BalanceOverflow && *final(self) == *old(self),
            r is Ok ==> final(self).wallet(who) == old(self).wallet(who) + amount,
            forall|w: u64| w != who ==> final(self).wallet(w) == old(self).wallet(w),
            final(self).vaults() == old(self).vaults(),
    {
        let b = self.balance_of(who);
        if b > u64::MAX - amount {
            return Err(AuctionErr::BalanceOverflow);
        }
        self.set_wallet(who, b + amount);
        Ok(())
    }

    /// Takes `amount` out of the wallet of `who`, unless it holds less.
    pub fn withdraw(&mut self, who: u64, amount: u64) -> (r: Result<(), AuctionErr>)
        ensures
            r is Err <==> old(self).wallet(who) < amount,
            r matches Err(e) ==> e == AuctionErr::InsufficientFunds && *final(self) == *old(self),
            r is Ok ==> final(self).wallet(who) == old(self).wallet(who) - amount,
            forall|w: u64| w != who ==> final(self).wallet(w) == old(self).wallet(w),
            final(self).vaults() == old(self).vaults(),
    {
        let b = self.balance_of(who);
        if b < amount {
            return Err(AuctionErr::InsufficientFunds);
        }
        self.set_wallet(who, b - amount);
        Ok(())
    }

    /// Moves `amount` from the wallet of `from` into vault `v`.
    pub fn move_to_vault(&mut self, from: u64, v: usize, amount: u64)
        requires
            v < old(self).vaults().len(),
            old(self).wallet(from) >= amount,
            old(self).vaults()[v as int] + amount <= u64::MAX,
        ensures
            final(self).wallet(from) == old(self).wallet(from) - amount,
            forall|w: u64| w != from ==> final(self).wallet(w) == old(self).wallet(w),
            final(self).vaults() == old(self).vaults().update(
                v as int,
                (old(self).vaults()[v as int] + amount) as u64,
            ),
    {
        let b = self.balance_of(from);
        self.set_wallet(from, b - amount);
        self.vaults.set(v, self.vaults[v] + amount);
    }

    /// Moves `amount` out of vault `v` into the wallet of `to`.
    pub fn release_vault(&mut self, v: usize, to: u64, amount: u64)
        requires
            v < old(self).vaults().len(),
            old(self).vaults()[v as int] >= amount,
            old(self).wallet(to) + amount <= u64::MAX,
        ensures
            final(self).wallet(to) == old(self).wallet(to) + amount,
            forall|w: u64| w != to ==> final(self).wallet(w) == old(self).wallet(w),
            final(self).vaults() == old(self).vaults().update(
                v as int,
                (old(self).vaults()[v as int] - amount) as u64,
            ),
    {
        let b = self.balance_of(to);
        self.set_wallet(to, b + amount);
        self.vaults.set(v, self.vaults[v] - amount);
    }
}

} // verus!
