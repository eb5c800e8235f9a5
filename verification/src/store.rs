use vstd::prelude::*;
use crate::account::AccountId;

verus! {

// ------------------------------------------------------------------
// Balances: a sparse owner-to-amount table, absent meaning zero.
// ------------------------------------------------------------------

/// One stored balance record.
#[derive(Clone, Copy, Debug)]
pub struct BalanceEntry {
    pub account: AccountId,
    pub amount: u128,
}

/// The balance `a` holds in `s`; an absent account holds zero.
pub open spec fn balance_in(s: Seq<BalanceEntry>, a: AccountId) -> u128
    decreases s.len(),
{
    if s.len() == 0 {
        0
    } else if s[0].account == a {
        s[0].amount
    } else {
        balance_in(s.subrange(1, s.len() as int), a)
    }
}

/// The sum of every stored amount.
pub open spec fn balance_sum(s: Seq<BalanceEntry>) -> int
    decreases s.len(),
{
    if s.len() == 0 {
        0
    } else {
        s[0].amount + balance_sum(s.subrange(1, s.len() as int))
    }
}

/// The sum of the non-zero stored amounts alone.
pub open spec fn nonzero_balance_sum(s: Seq<BalanceEntry>) -> int
    decreases s.len(),
{
    if s.len() == 0 {
        0
    } else {
        (if s[0].amount > 0 {
            s[0].amount as int
        } else {
            0
        }) + nonzero_balance_sum(s.subrange(1, s.len() as int))
    }
}

/// A zero amount adds nothing, so the sum of all stored amounts is the sum of
/// the non-zero balances alone.
pub proof fn lemma_sum_counts_nonzero_only(s: Seq<BalanceEntry>)
    ensures
        balance_sum(s) == nonzero_balance_sum(s),
    decreases s.len(),
{
    if s.len() > 0 {
        lemma_sum_counts_nonzero_only(s.subrange(1, s.len() as int));
    }
}

/// Each account appears in at most one record.
pub open spec fn distinct_accounts(s: Seq<BalanceEntry>) -> bool {
    forall|i: int, j: int| 0 <= i < j < s.len() ==> s[i].account != s[j].account
}

proof fn lemma_distinct_tail(s: Seq<BalanceEntry>)
    requires
        distinct_accounts(s),
        s.len() > 0,
    ensures
        distinct_accounts(s.subrange(1, s.len() as int)),
{
    let rest = s.subrange(1, s.len() as int);
    assert forall|i: int, j: int| 0 <= i < j < rest.len() implies rest[i].account != rest[j].account by {
        assert(rest[i] == s[i + 1]);
        assert(rest[j] == s[j + 1]);
    }
}

pub proof fn lemma_balance_sum_nonneg(s: Seq<BalanceEntry>)
    ensures
        balance_sum(s) >= 0,
    decreases s.len(),
{
    if s.len() > 0 {
        lemma_balance_sum_nonneg(s.subrange(1, s.len() as int));
    }
}

/// No single balance exceeds the sum of all stored amounts.
pub proof fn lemma_balance_le_sum(s: Seq<BalanceEntry>, a: AccountId)
    ensures
        balance_in(s, a) <= balance_sum(s),
    decreases s.len(),
{
    if s.len() > 0 {
        let rest = s.subrange(1, s.len() as int);
        lemma_balance_sum_nonneg(rest);
        if s[0].account == a {
        } else {
            lemma_balance_le_sum(rest, a);
        }
    }
}

/// Two distinct accounts together never hold more than the sum of all stored
/// amounts.
pub proof fn lemma_two_balances_le_sum(s: Seq<BalanceEntry>, a: AccountId, b: AccountId)
    requires
        distinct_accounts(s),
        a != b,
    ensures
        balance_in(s, a) + balance_in(s, b) <= balance_sum(s),
    decreases s.len(),
{
    if s.len() > 0 {
        let rest = s.subrange(1, s.len() as int);
        lemma_distinct_tail(s);
        if s[0].account == a {
            lemma_balance_le_sum(rest, b);
        } else if s[0].account == b {
            lemma_balance_le_sum(rest, a);
        } else {
            lemma_two_balances_le_sum(rest, a, b);
        }
    }
}

/// With distinct accounts, the record at `i` gives its account's balance.
proof fn lemma_balance_found(s: Seq<BalanceEntry>, i: int)
    requires
        distinct_accounts(s),
        0 <= i < s.len(),
    ensures
        balance_in(s, s[i].account) == s[i].amount,
    decreases s.len(),
{
    if i > 0 {
        let rest = s.subrange(1, s.len() as int);
        lemma_distinct_tail(s);
        assert(rest[i - 1] == s[i]);
        lemma_balance_found(rest, i - 1);
    }
}

/// An account that no record names holds zero.
proof fn lemma_balance_absent(s: Seq<BalanceEntry>, a: AccountId)
    requires
        forall|i: int| 0 <= i < s.len() ==> s[i].account != a,
    ensures
        balance_in(s, a) == 0,
    decreases s.len(),
{
    if s.len() > 0 {
        let rest = s.subrange(1, s.len() as int);
        assert(forall|i: int| 0 <= i < rest.len() ==> rest[i] == s[i + 1]);
        lemma_balance_absent(rest, a);
    }
}

/// Overwriting the record at `i` with the same account changes that account's
/// balance alone, and moves the sum by the difference.
proof fn lemma_balance_set_at(s: Seq<BalanceEntry>, i: int, e: BalanceEntry)
    requires
        distinct_accounts(s),
        0 <= i < s.len(),
        s[i].account == e.account,
    ensures
        distinct_accounts(s.update(i, e)),
        balance_in(s.update(i, e), e.account) == e.amount,
        forall|b: AccountId| b != e.account ==> balance_in(s.update(i, e), b) == balance_in(s, b),
        balance_sum(s.update(i, e)) == balance_sum(s) - s[i].amount + e.amount,
    decreases s.len(),
{
    let t = s.update(i, e);
    assert(forall|j: int| 0 <= j < s.len() ==> t[j].account == s[j].account);
    if i == 0 {
        assert(t.subrange(1, t.len() as int) =~= s.subrange(1, s.len() as int));
        assert forall|b: AccountId| b != e.account implies balance_in(t, b) == balance_in(s, b) by {
            assert(balance_in(t, b) == balance_in(t.subrange(1, t.len() as int), b));
            assert(balance_in(s, b) == balance_in(s.subrange(1, s.len() as int), b));
        }
    } else {
        let rest = s.subrange(1, s.len() as int);
        lemma_distinct_tail(s);
        assert(rest[i - 1] == s[i]);
        assert(t.subrange(1, t.len() as int) =~= rest.update(i - 1, e));
        lemma_balance_set_at(rest, i - 1, e);
        assert(s[0].account != e.account);
        assert(balance_in(t, e.account) == balance_in(rest.update(i - 1, e), e.account));
        assert(balance_sum(t) == s[0].amount + balance_sum(rest.update(i - 1, e)));
        assert(balance_sum(s) == s[0].amount + balance_sum(rest));
        assert forall|b: AccountId| b != e.account implies balance_in(t, b) == balance_in(s, b) by {
            if s[0].account == b {
            } else {
                assert(balance_in(t, b) == balance_in(rest.update(i - 1, e), b));
                assert(balance_in(s, b) == balance_in(rest, b));
            }
        }
    }
}

/// Appending a record for a fresh account sets that account's balance, leaves
/// every other balance as it was, and adds the new amount to the sum.
proof fn lemma_balance_push(s: Seq<BalanceEntry>, e: BalanceEntry)
    requires
        distinct_accounts(s),
        forall|i: int| 0 <= i < s.len() ==> s[i].account != e.account,
    ensures
        distinct_accounts(s.push(e)),
        balance_in(s.push(e), e.account) == e.amount,
        forall|b: AccountId| b != e.account ==> balance_in(s.push(e), b) == balance_in(s, b),
        balance_sum(s.push(e)) == balance_sum(s) + e.amount,
    decreases s.len(),
{
    let t = s.push(e);
    assert forall|i: int, j: int| 0 <= i < j < t.len() implies t[i].account != t[j].account by {
        if j < s.len() {
            assert(t[i] == s[i] && t[j] == s[j]);
        } else {
            assert(t[j] == e && t[i] == s[i]);
        }
    }
    if s.len() == 0 {
        assert(t.subrange(1, t.len() as int) =~= Seq::<BalanceEntry>::empty());
        assert forall|b: AccountId| b != e.account implies balance_in(t, b) == balance_in(s, b) by {
            assert(balance_in(t, b) == balance_in(t.subrange(1, t.len() as int), b));
        }
        assert(balance_sum(t) == e.amount + balance_sum(t.subrange(1, t.len() as int)));
    } else {
        let rest = s.subrange(1, s.len() as int);
        lemma_distinct_tail(s);
        assert(forall|i: int| 0 <= i < rest.len() ==> rest[i] == s[i + 1]);
        assert(t.subrange(1, t.len() as int) =~= rest.push(e));
        lemma_balance_push(rest, e);
        assert(t[0] == s[0]);
        assert(balance_in(t, e.account) == balance_in(rest.push(e), e.account));
        assert(balance_sum(t) == s[0].amount + balance_sum(rest.push(e)));
        assert(balance_sum(s) == s[0].amount + balance_sum(rest));
        assert forall|b: AccountId| b != e.account implies balance_in(t, b) == balance_in(s, b) by {
            if s[0].account == b {
            } else {
                assert(balance_in(t, b) == balance_in(rest.push(e), b));
                assert(balance_in(s, b) == balance_in(rest, b));
            }
        }
    }
}

/// The owner-to-balance table. Entries are kept one per account; an account
/// without an entry holds zero.
pub struct Balances {
    entries: Vec<BalanceEntry>,
}

impl View for Balances {
    type V = Seq<BalanceEntry>;

    closed spec fn view(&self) -> Seq<BalanceEntry> {
        self.entries@
    }
}

impl Balances {
    /// Well-formed: no account is recorded twice.
    pub open spec fn wf(self) -> bool {
        distinct_accounts(self@)
    }

    pub fn new() -> (r: Balances)
        ensures
            r.wf(),
            r@ =~= Seq::<BalanceEntry>::empty(),
    {
        Balances { entries: Vec::new() }
    }

    fn index_of(&self, a: AccountId) -> (r: Option<usize>)
        ensures
            (match r {
                Some(i) => 0 <= i < self@.len() && self@[i as int].account == a,
                None => forall|i: int| 0 <= i < self@.len() ==> self@[i].account != a,
            }),
    {
        let n = self.entries.len();
        let mut i: usize = 0;
        while i < n
            invariant
                n == self@.len(),
                0 <= i <= n,
                forall|j: int| 0 <= j < i ==> self@[j].account != a,
            decreases n - i,
        {
            if self.entries[i].account == a {
                return Some(i);
            }
            i = i + 1;
        }
        None
    }

    /// The balance of `a`, zero when no entry names it.
    pub fn get(&self, a: AccountId) -> (r: u128)
        requires
            self.wf(),
        ensures
            r == balance_in(self@, a),
    {
        match self.index_of(a) {
            Some(i) => {
                proof {
                    lemma_balance_found(self@, i as int);
                }
                self.entries[i].amount
            },
            None => {
                proof {
                    lemma_balance_absent(self@, a);
                }
                0
            },
        }
    }

    /// Records `v` as the balance of `a`, touching no other account.
    pub fn set(&mut self, a: AccountId, v: u128)
        requires
            old(self).wf(),
        ensures
            final(self).wf(),
            balance_in(final(self)@, a) == v,
            forall|b: AccountId| b != a ==> balance_in(final(self)@, b) == balance_in(old(self)@, b),
            balance_sum(final(self)@) == balance_sum(old(self)@) - balance_in(old(self)@, a) + v,
    {
        let e = BalanceEntry { account: a, amount: v };
        match self.index_of(a) {
            Some(i) => {
                proof {
                    lemma_balance_found(self@, i as int);
                    lemma_balance_set_at(self@, i as int, e);
                }
                self.entries[i] = e;
            },
            None => {
                proof {
                    lemma_balance_absent(self@, a);
                    lemma_balance_push(self@, e);
                }
                self.entries.push(e);
            },
        }
    }
}

// ------------------------------------------------------------------
// Allowances: a sparse (owner, spender)-to-amount table, absent meaning zero.
// ------------------------------------------------------------------

/// One stored allowance record: how much `spender` may withdraw from `owner`.
#[derive(Clone, Copy, Debug)]
pub struct AllowanceEntry {
    pub owner: AccountId,
    pub spender: AccountId,
    pub amount: u128,
}

/// The allowance granted by `o` to `p` in `s`; an absent pair holds zero.
pub open spec fn allowance_in(s: Seq<AllowanceEntry>, o: AccountId, p: AccountId) -> u128
    decreases s.len(),
{
    if s.len() == 0 {
        0
    } else if s[0].owner == o && s[0].spender == p {
        s[0].amount
    } else {
        allowance_in(s.subrange(1, s.len() as int), o, p)
    }
}

/// Each (owner, spender) pair appears in at most one record.
pub open spec fn distinct_pairs(s: Seq<AllowanceEntry>) -> bool {
    forall|i: int, j: int|
        0 <= i < j < s.len() ==> !(s[i].owner == s[j].owner && s[i].spender == s[j].spender)
}

proof fn lemma_pairs_distinct_tail(s: Seq<AllowanceEntry>)
    requires
        distinct_pairs(s),
        s.len() > 0,
    ensures
        distinct_pairs(s.subrange(1, s.len() as int)),
{
    let rest = s.subrange(1, s.len() as int);
    assert forall|i: int, j: int|
        0 <= i < j < rest.len() implies !(rest[i].owner == rest[j].owner && rest[i].spender
        == rest[j].spender) by {
        assert(rest[i] == s[i + 1]);
        assert(rest[j] == s[j + 1]);
    }
}

/// With distinct pairs, the record at `i` gives its pair's allowance.
proof fn lemma_allowance_found(s: Seq<AllowanceEntry>, i: int)
    requires
        distinct_pairs(s),
        0 <= i < s.len(),
    ensures
        allowance_in(s, s[i].owner, s[i].spender) == s[i].amount,
    decreases s.len(),
{
    if i > 0 {
        let rest = s.subrange(1, s.len() as int);
        lemma_pairs_distinct_tail(s);
        assert(rest[i - 1] == s[i]);
        lemma_allowance_found(rest, i - 1);
    }
}

/// A pair that no record names holds zero.
proof fn lemma_allowance_absent(s: Seq<AllowanceEntry>, o: AccountId, p: AccountId)
    requires
        forall|i: int| 0 <= i < s.len() ==> !(s[i].owner == o && s[i].spender == p),
    ensures
        allowance_in(s, o, p) == 0,
    decreases s.len(),
{
    if s.len() > 0 {
        let rest = s.subrange(1, s.len() as int);
        assert(forall|i: int| 0 <= i < rest.len() ==> rest[i] == s[i + 1]);
        lemma_allowance_absent(rest, o, p);
    }
}

/// Overwriting the record at `i` with the same pair changes that pair's
/// allowance alone.
proof fn lemma_allowance_set_at(s: Seq<AllowanceEntry>, i: int, e: AllowanceEntry)
    requires
        distinct_pairs(s),
        0 <= i < s.len(),
        s[i].owner == e.owner,
        s[i].spender == e.spender,
    ensures
        distinct_pairs(s.update(i, e)),
        allowance_in(s.update(i, e), e.owner, e.spender) == e.amount,
        forall|o: AccountId, p: AccountId|
            !(o == e.owner && p == e.spender) ==> allowance_in(s.update(i, e), o, p)
                == allowance_in(s, o, p),
    decreases s.len(),
{
    let t = s.update(i, e);
    assert(forall|j: int|
        0 <= j < s.len() ==> t[j].owner == s[j].owner && t[j].spender == s[j].spender);
    if i == 0 {
        assert(t.subrange(1, t.len() as int) =~= s.subrange(1, s.len() as int));
        assert forall|o: AccountId, p: AccountId|
            !(o == e.owner && p == e.spender) implies allowance_in(t, o, p) == allowance_in(
            s, o, p) by {
            assert(allowance_in(t, o, p) == allowance_in(t.subrange(1, t.len() as int), o, p));
            assert(allowance_in(s, o, p) == allowance_in(s.subrange(1, s.len() as int), o, p));
        }
    } else {
        let rest = s.subrange(1, s.len() as int);
        lemma_pairs_distinct_tail(s);
        assert(rest[i - 1] == s[i]);
        assert(t.subrange(1, t.len() as int) =~= rest.update(i - 1, e));
        lemma_allowance_set_at(rest, i - 1, e);
        assert(!(s[0].owner == e.owner && s[0].spender == e.spender));
        assert(allowance_in(t, e.owner, e.spender) == allowance_in(
            rest.update(i - 1, e), e.owner, e.spender));
        assert forall|o: AccountId, p: AccountId|
            !(o == e.owner && p == e.spender) implies allowance_in(t, o, p) == allowance_in(
            s, o, p) by {
            if s[0].owner == o && s[0].spender == p {
            } else {
                assert(allowance_in(t, o, p) == allowance_in(rest.update(i - 1, e), o, p));
                assert(allowance_in(s, o, p) == allowance_in(rest, o, p));
            }
        }
    }
}

/// Appending a record for a fresh pair sets that pair's allowance and leaves
/// every other allowance as it was.
proof fn lemma_allowance_push(s: Seq<AllowanceEntry>, e: AllowanceEntry)
    requires
        distinct_pairs(s),
        forall|i: int| 0 <= i < s.len() ==> !(s[i].owner == e.owner && s[i].spender == e.spender),
    ensures
        distinct_pairs(s.push(e)),
        allowance_in(s.push(e), e.owner, e.spender) == e.amount,
        forall|o: AccountId, p: AccountId|
            !(o == e.owner && p == e.spender) ==> allowance_in(s.push(e), o, p) == allowance_in(
                s, o, p),
    decreases s.len(),
{
    let t = s.push(e);
    assert forall|i: int, j: int|
        0 <= i < j < t.len() implies !(t[i].owner == t[j].owner && t[i].spender == t[j].spender) by {
        if j < s.len() {
            assert(t[i] == s[i] && t[j] == s[j]);
        } else {
            assert(t[j] == e && t[i] == s[i]);
        }
    }
    if s.len() == 0 {
        assert(t.subrange(1, t.len() as int) =~= Seq::<AllowanceEntry>::empty());
        assert forall|o: AccountId, p: AccountId|
            !(o == e.owner && p == e.spender) implies allowance_in(t, o, p) == allowance_in(
            s, o, p) by {
            assert(allowance_in(t, o, p) == allowance_in(t.subrange(1, t.len() as int), o, p));
        }
    } else {
        let rest = s.subrange(1, s.len() as int);
        lemma_pairs_distinct_tail(s);
        assert(forall|i: int| 0 <= i < rest.len() ==> rest[i] == s[i + 1]);
        assert(t.subrange(1, t.len() as int) =~= rest.push(e));
        lemma_allowance_push(rest, e);
        assert(t[0] == s[0]);
        assert(allowance_in(t, e.owner, e.spender) == allowance_in(
            rest.push(e), e.owner, e.spender));
        assert forall|o: AccountId, p: AccountId|
            !(o == e.owner && p == e.spender) implies allowance_in(t, o, p) == allowance_in(
            s, o, p) by {
            if s[0].owner == o && s[0].spender == p {
            } else {
                assert(allowance_in(t, o, p) == allowance_in(rest.push(e), o, p));
                assert(allowance_in(s, o, p) == allowance_in(rest, o, p));
            }
        }
    }
}

/// The (owner, spender)-to-allowance table. Entries are kept one per pair; a
/// pair without an entry holds zero.
pub struct Allowances {
    entries: Vec<AllowanceEntry>,
}

impl View for Allowances {
    type V = Seq<AllowanceEntry>;

    closed spec fn view(&self) -> Seq<AllowanceEntry> {
        self.entries@
    }
}

impl Allowances {
    /// Well-formed: no (owner, spender) pair is recorded twice.
    pub open spec fn wf(self) -> bool {
        distinct_pairs(self@)
    }

    pub fn new() -> (r: Allowances)
        ensures
            r.wf(),
            r@ =~= Seq::<AllowanceEntry>::empty(),
    {
        Allowances { entries: Vec::new() }
    }

    fn index_of(&self, o: AccountId, p: AccountId) -> (r: Option<usize>)
        ensures
            (match r {
                Some(i) => 0 <= i < self@.len() && self@[i as int].owner == o
                    && self@[i as int].spender == p,
                None => forall|i: int|
                    0 <= i < self@.len() ==> !(self@[i].owner == o && self@[i].spender == p),
            }),
    {
        let n = self.entries.len();
        let mut i: usize = 0;
        while i < n
            invariant
                n == self@.len(),
                0 <= i <= n,
                forall|j: int| 0 <= j < i ==> !(self@[j].owner == o && self@[j].spender == p),
            decreases n - i,
        {
            if self.entries[i].owner == o && self.entries[i].spender == p {
                return Some(i);
            }
            i = i + 1;
        }
        None
    }

    /// The allowance granted by `o` to `p`, zero when no entry names the pair.
    pub fn get(&self, o: AccountId, p: AccountId) -> (r: u128)
        requires
            self.wf(),
        ensures
            r == allowance_in(self@, o, p),
    {
        match self.index_of(o, p) {
            Some(i) => {
                proof {
                    lemma_allowance_found(self@, i as int);
                }
                self.entries[i].amount
            },
            None => {
                proof {
                    lemma_allowance_absent(self@, o, p);
                }
                0
            },
        }
    }

    /// Records `v` as the allowance granted by `o` to `p`, touching no other pair.
    pub fn set(&mut self, o: AccountId, p: AccountId, v: u128)
        requires
            old(self).wf(),
        ensures
            final(self).wf(),
            allowance_in(final(self)@, o, p) == v,
            forall|o2: AccountId, p2: AccountId|
                !(o2 == o && p2 == p) ==> allowance_in(final(self)@, o2, p2) == allowance_in(
                    old(self)@, o2, p2),
    {
        let e = AllowanceEntry { owner: o, spender: p, amount: v };
        match self.index_of(o, p) {
            Some(i) => {
                proof {
                    lemma_allowance_set_at(self@, i as int, e);
                }
                self.entries[i] = e;
            },
            None => {
                proof {
                    lemma_allowance_push(self@, e);
                }
                self.entries.push(e);
            },
        }
    }
}

} // verus!
