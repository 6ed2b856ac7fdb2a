use vstd::prelude::*;

use crate::identity::Identity;
use crate::records::LedgerError;
use crate::table::{distinct_keys, entries_match, Entry, IdentityMap};

verus! {

/// Points held by `user`; a user with no record holds none.
pub open spec fn balance_of(m: Map<Seq<char>, i128>, user: Seq<char>) -> int {
    if m.contains_key(user) {
        m[user] as int
    } else {
        0
    }
}

/// No balance is negative.
pub open spec fn reward_wf(m: Map<Seq<char>, i128>) -> bool {
    forall|u: Seq<char>| #[trigger] m.contains_key(u) ==> m[u] >= 0
}

/// Balances and result of minting `amount` points for `user`.
pub open spec fn mint_outcome(m: Map<Seq<char>, i128>, user: Seq<char>, amount: i128) -> (
    Map<Seq<char>, i128>,
    Result<(), LedgerError>,
) {
    if amount <= 0 {
        (m, Err(LedgerError::InvalidAmount))
    } else {
        (m.insert(user, (balance_of(m, user) + amount) as i128), Ok(()))
    }
}

/// Balances and result of redeeming `amount` points of `user`.
pub open spec fn redeem_outcome(m: Map<Seq<char>, i128>, user: Seq<char>, amount: i128) -> (
    Map<Seq<char>, i128>,
    Result<(), LedgerError>,
) {
    if amount <= 0 {
        (m, Err(LedgerError::InvalidAmount))
    } else if !m.contains_key(user) {
        (m, Err(LedgerError::NotFound))
    } else if m[user] < amount {
        (m, Err(LedgerError::InsufficientBalance))
    } else {
        (m.insert(user, (m[user] - amount) as i128), Ok(()))
    }
}

/// Balances after the points of `user` are set to zero.
pub open spec fn reset_outcome(m: Map<Seq<char>, i128>, user: Seq<char>) -> Map<Seq<char>, i128> {
    m.insert(user, 0)
}

/// Point balances per user.
pub struct RewardLedger {
    balances: IdentityMap<i128>,
}

impl View for RewardLedger {
    type V = Map<Seq<char>, i128>;

    closed spec fn view(&self) -> Map<Seq<char>, i128> {
        self.balances@
    }
}

impl RewardLedger {
    pub closed spec fn inv(&self) -> bool {
        &&& self.balances.wf()
        &&& reward_wf(self@)
    }

    /// A ledger with no records.
    pub fn new() -> (r: RewardLedger)
        ensures
            r.inv(),
            r@ == Map::<Seq<char>, i128>::empty(),
    {
        RewardLedger { balances: IdentityMap::new() }
    }

    /// Adds `amount` points to `user`, creating the record if there is none.
    pub fn mint(&mut self, user: &Identity, amount: i128) -> (r: Result<(), LedgerError>)
        requires
            old(self).inv(),
            amount > 0 ==> balance_of(old(self)@, user@) + amount <= i128::MAX,
        ensures
            final(self).inv(),
            (final(self)@, r) == mint_outcome(old(self)@, user@, amount),
    {
        if amount <= 0 {
            return Err(LedgerError::InvalidAmount);
        }
        let points = match self.balances.get(user) {
            Some(p) => p,
            None => 0,
        };
        self.balances.insert(user, points + amount);
        Ok(())
    }

    /// Takes `amount` points from `user`, who must have a record holding at
    /// least that many.
    pub fn redeem(&mut self, user: &Identity, amount: i128) -> (r: Result<(), LedgerError>)
        requires
            old(self).inv(),
        ensures
            final(self).inv(),
            (final(self)@, r) == redeem_outcome(old(self)@, user@, amount),
    {
        if amount <= 0 {
            return Err(LedgerError::InvalidAmount);
        }
        let points = match self.balances.get(user) {
            Some(p) => p,
            None => {
                return Err(LedgerError::NotFound);
            },
        };
        if points < amount {
            return Err(LedgerError::InsufficientBalance);
        }
        self.balances.insert(user, points - amount);
        Ok(())
    }

    /// Points held by `user`; zero when there is no record.
    pub fn get_balance(&self, user: &Identity) -> (r: i128)
        requires
            self.inv(),
        ensures
            r == balance_of(self@, user@),
    {
        match self.balances.get(user) {
            Some(p) => p,
            None => 0,
        }
    }

    /// Sets the points of `user` to zero, creating the record if there is
    /// none.
    pub fn reset_balance(&mut self, user: &Identity)
        requires
            old(self).inv(),
        ensures
            final(self).inv(),
            final(self)@ == reset_outcome(old(self)@, user@),
    {
        self.balances.insert(user, 0);
    }
    /// A ledger holding the given balances, or `None` when two of them
    /// belong to one user or one is negative.
    pub fn from_entries(balances: Vec<Entry<i128>>) -> (r: Option<RewardLedger>)
        ensures
            r is Some <==> distinct_keys(balances@) && forall|i: int|
                0 <= i < balances@.len() ==> (#[trigger] balances@[i]).value >= 0,
            r matches Some(l) ==> l.inv() && entries_match(balances@, l@),
    {
        let k = balances.len();
        let mut i: usize = 0;
        while i < k
            invariant
                k == balances@.len(),
                i <= k,
                forall|j: int| 0 <= j < i ==> (#[trigger] balances@[j]).value >= 0,
            decreases k - i,
        {
            if balances[i].value < 0 {
                return None;
            }
            i = i + 1;
        }
        let ghost entries = balances@;
        match IdentityMap::from_entries(balances) {
            None => None,
            Some(table) => {
                let l = RewardLedger { balances: table };
                proof {
                    assert forall|u: Seq<char>| #[trigger] l@.contains_key(u) implies l@[u] >= 0 by {
                        let j = choose|j: int| 0 <= j < entries.len() && entries[j].key@ == u;
                        assert(entries[j].value >= 0);
                    }
                }
                Some(l)
            },
        }
    }

    /// The balances that this ledger holds, in the order users first got
    /// a record.
    pub fn to_entries(&self) -> (r: Vec<Entry<i128>>)
        requires
            self.inv(),
        ensures
            entries_match(r@, self@),
    {
        self.balances.to_entries()
    }
}

} // verus!
