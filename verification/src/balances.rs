//! Withdrawable balances: one record per user, found by the user's address.

use vstd::prelude::*;
use crate::address::Address;
use crate::token::Token;

verus! {

/// How much of each token a user may withdraw.
#[derive(Clone, Copy, Debug, PartialEq, Eq, Structural)]
pub struct UserBalance {
    pub pool_a_balance: u64,
    pub pool_b_balance: u64,
}

impl UserBalance {
    /// The balance held of `token`.
    pub open spec fn balance(self, token: Token) -> u64 {
        match token {
            Token::A => self.pool_a_balance,
            Token::B => self.pool_b_balance,
        }
    }

    /// This record with the balance of `token` replaced by `value`.
    pub open spec fn with_balance(self, token: Token, value: u64) -> UserBalance {
        match token {
            Token::A => UserBalance { pool_a_balance: value, ..self },
            Token::B => UserBalance { pool_b_balance: value, ..self },
        }
    }

    /// The record of a user who holds nothing.
    pub open spec fn spec_empty() -> UserBalance {
        UserBalance { pool_a_balance: 0, pool_b_balance: 0 }
    }

    /// The record of a user who holds nothing.
    pub fn empty() -> (r: UserBalance)
        ensures
            r == UserBalance::spec_empty(),
    {
        UserBalance { pool_a_balance: 0, pool_b_balance: 0 }
    }

    /// The balance held of `token`.
    pub fn get_balance_for(&self, token: Token) -> (r: u64)
        ensures
            r == self.balance(token),
    {
        if token == Token::A {
            self.pool_a_balance
        } else {
            self.pool_b_balance
        }
    }

    /// A write handle on the balance held of `token`. What is written through
    /// it becomes that balance; the other balance stays.
    pub fn get_mut_balance_for(&mut self, token: Token) -> (ret: &mut u64)
        ensures
            *ret == old(self).balance(token),
            *final(self) == old(self).with_balance(token, *final(ret)),
    {
        if token == Token::A {
            &mut self.pool_a_balance
        } else {
            &mut self.pool_b_balance
        }
    }
}

/// One user's record.
#[derive(Clone, Copy, Debug, PartialEq, Eq)]
pub struct BalanceEntry {
    pub user: Address,
    pub balance: UserBalance,
}

/// The records of all users. No user has two records; the order of the
/// records carries no meaning.
#[derive(Clone, Debug)]
pub struct UserBalances {
    entries: Vec<BalanceEntry>,
}

/// Position `i` of `entries` holds the record of `user`.
pub open spec fn holds_at(entries: Seq<BalanceEntry>, user: Address, i: int) -> bool {
    0 <= i < entries.len() && entries[i].user == user
}

/// No user occurs at two positions.
pub open spec fn distinct_users(entries: Seq<BalanceEntry>) -> bool {
    forall|i: int, j: int|
        0 <= i < entries.len() && 0 <= j < entries.len() && i != j ==> (#[trigger] entries[i]).user
            != (#[trigger] entries[j]).user
}

/// The map from each user with a record to that record.
pub open spec fn records_of(entries: Seq<BalanceEntry>) -> Map<Address, UserBalance> {
    Map::new(
        |user: Address| exists|i: int| holds_at(entries, user, i),
        |user: Address| entries[choose|i: int| holds_at(entries, user, i)].balance,
    )
}

/// Where users are distinct, the record at a position is the record of its user.
pub proof fn lemma_record_at(entries: Seq<BalanceEntry>, i: int)
    requires
        distinct_users(entries),
        0 <= i < entries.len(),
    ensures
        records_of(entries).dom().contains(entries[i].user),
        records_of(entries)[entries[i].user] == entries[i].balance,
{
    let user = entries[i].user;
    assert(holds_at(entries, user, i));
    let j = choose|j: int| holds_at(entries, user, j);
    assert(holds_at(entries, user, j));
    if j != i {
        assert(entries[i].user != entries[j].user);
    }
}

/// Replacing the record at the position of a user replaces that user's
/// record in the map, and nothing else.
pub proof fn lemma_records_after_update(before: Seq<BalanceEntry>, i: int, entry: BalanceEntry)
    requires
        distinct_users(before),
        holds_at(before, entry.user, i),
    ensures
        distinct_users(before.update(i, entry)),
        records_of(before.update(i, entry)) == records_of(before).insert(entry.user, entry.balance),
{
    let after = before.update(i, entry);
    let expected = records_of(before).insert(entry.user, entry.balance);
    assert forall|j: int| 0 <= j < after.len() implies (#[trigger] after[j]).user
        == before[j].user by {}
    assert(distinct_users(after));
    assert forall|u: Address|
        records_of(after).dom().contains(u) <==> #[trigger] expected.dom().contains(u) by {
        if records_of(after).dom().contains(u) {
            let j = choose|j: int| holds_at(after, u, j);
            assert(holds_at(before, u, j));
        }
        if records_of(before).dom().contains(u) {
            let j = choose|j: int| holds_at(before, u, j);
            assert(holds_at(after, u, j));
        }
        assert(holds_at(after, entry.user, i));
    }
    assert forall|u: Address| #[trigger] records_of(after).dom().contains(u) implies records_of(
        after,
    )[u] == expected[u] by {
        let j = choose|j: int| holds_at(after, u, j);
        lemma_record_at(after, j);
        if u != entry.user {
            assert(holds_at(before, u, j));
            lemma_record_at(before, j);
        } else {
            lemma_record_at(after, i);
        }
    }
    assert(records_of(after) =~= expected);
}

/// Appending the record of a user who had none adds that record to the
/// map, and nothing else.
pub proof fn lemma_records_after_push(before: Seq<BalanceEntry>, entry: BalanceEntry)
    requires
        distinct_users(before),
        forall|i: int| !holds_at(before, entry.user, i),
    ensures
        distinct_users(before.push(entry)),
        records_of(before.push(entry)) == records_of(before).insert(entry.user, entry.balance),
{
    let after = before.push(entry);
    let last = before.len() as int;
    let expected = records_of(before).insert(entry.user, entry.balance);
    assert forall|a: int, b: int|
        0 <= a < after.len() && 0 <= b < after.len() && a != b implies (#[trigger] after[a]).user
        != (#[trigger] after[b]).user by {
        if a == last {
            assert(!holds_at(before, entry.user, b));
        } else if b == last {
            assert(!holds_at(before, entry.user, a));
        } else {
            assert(before[a].user != before[b].user);
        }
    }
    assert(distinct_users(after));
    assert forall|u: Address|
        records_of(after).dom().contains(u) <==> #[trigger] expected.dom().contains(u) by {
        if records_of(after).dom().contains(u) {
            let j = choose|j: int| holds_at(after, u, j);
            if j != last {
                assert(holds_at(before, u, j));
            }
        }
        if records_of(before).dom().contains(u) {
            let j = choose|j: int| holds_at(before, u, j);
            assert(holds_at(after, u, j));
        }
        assert(holds_at(after, entry.user, last));
    }
    assert forall|u: Address| #[trigger] records_of(after).dom().contains(u) implies records_of(
        after,
    )[u] == expected[u] by {
        let j = choose|j: int| holds_at(after, u, j);
        lemma_record_at(after, j);
        if u != entry.user {
            assert(holds_at(before, u, j));
            lemma_record_at(before, j);
        } else {
            lemma_record_at(after, last);
        }
    }
    assert(records_of(after) =~= expected);
}

impl View for UserBalances {
    type V = Map<Address, UserBalance>;

    /// The map from each user with a record to that record.
    open spec fn view(&self) -> Map<Address, UserBalance> {
        records_of(self.entries())
    }
}

impl UserBalances {
    /// The records in storage order.
    pub closed spec fn entries(&self) -> Seq<BalanceEntry> {
        self.entries@
    }

    /// No user has two records, and the records are finitely many.
    pub open spec fn wf(&self) -> bool {
        distinct_users(self.entries()) && self@.dom().finite()
    }

    /// No records at all.
    pub fn new() -> (r: UserBalances)
        ensures
            r.wf(),
            r@ == Map::<Address, UserBalance>::empty(),
            r.entries().len() == 0,
    {
        let r = UserBalances { entries: Vec::new() };
        proof {
            assert(r@ =~= Map::<Address, UserBalance>::empty());
        }
        r
    }

    /// How many users have a record.
    pub fn len(&self) -> (r: usize)
        ensures
            r == self.entries().len(),
    {
        self.entries.len()
    }

    /// The record at position `i` of the storage order, if there are that
    /// many.
    pub fn entry_at(&self, i: usize) -> (r: Option<BalanceEntry>)
        ensures
            r == (if i < self.entries().len() {
                Some(self.entries()[i as int])
            } else {
                None
            }),
    {
        if i < self.entries.len() {
            Some(self.entries[i])
        } else {
            None
        }
    }

    /// The position of `user`'s record, if there is one.
    fn position(&self, user: &Address) -> (r: Option<usize>)
        ensures
            match r {
                Some(i) => holds_at(self.entries@, *user, i as int),
                None => forall|i: int| !holds_at(self.entries@, *user, i),
            },
    {
        let mut i: usize = 0;
        while i < self.entries.len()
            invariant
                i <= self.entries.len(),
                forall|j: int| 0 <= j < i ==> !holds_at(self.entries@, *user, j),
            decreases self.entries.len() - i,
        {
            if self.entries[i].user == *user {
                return Some(i);
            }
            i += 1;
        }
        None
    }

    /// The record of `user`, if there is one.
    pub fn get(&self, user: &Address) -> (r: Option<UserBalance>)
        requires
            self.wf(),
        ensures
            r == (if self@.dom().contains(*user) {
                Some(self@[*user])
            } else {
                None
            }),
    {
        match self.position(user) {
            Some(i) => {
                proof {
                    lemma_record_at(self.entries@, i as int);
                }
                Some(self.entries[i].balance)
            },
            None => None,
        }
    }

    /// Makes `balance` the record of `user`, in place of the one the user
    /// had, if any. The records of all other users stay.
    pub fn set(&mut self, user: Address, balance: UserBalance)
        requires
            old(self).wf(),
        ensures
            final(self).wf(),
            final(self)@ == old(self)@.insert(user, balance),
    {
        let entry = BalanceEntry { user, balance };
        match self.position(&user) {
            Some(i) => {
                proof {
                    lemma_records_after_update(self.entries@, i as int, entry);
                }
                self.entries[i] = entry;
            },
            None => {
                proof {
                    lemma_records_after_push(self.entries@, entry);
                }
                self.entries.push(entry);
            },
        }
    }
}

} // verus!
