use vstd::prelude::*;

verus! {

/// Holds iff no key occurs twice in an association list.
pub open spec fn keys_unique<K, V>(s: Seq<(K, V)>) -> bool {
    forall|i: int, j: int| 0 <= i < j < s.len() ==> s[i].0 != s[j].0
}

/// The map an association list denotes. Later entries would shadow earlier
/// ones; the tables below keep their keys unique, so no entry is shadowed.
pub open spec fn assoc_map<K, V>(s: Seq<(K, V)>) -> Map<K, V>
    decreases s.len(),
{
    if s.len() == 0 {
        Map::empty()
    } else {
        assoc_map(s.drop_last()).insert(s.last().0, s.last().1)
    }
}

proof fn lemma_unique_drop_last<K, V>(s: Seq<(K, V)>)
    requires
        keys_unique(s),
        s.len() > 0,
    ensures
        keys_unique(s.drop_last()),
{
    assert forall|i: int, j: int|
        0 <= i < j < s.drop_last().len() implies s.drop_last()[i].0 != s.drop_last()[j].0 by {
        assert(s.drop_last()[i] == s[i]);
        assert(s.drop_last()[j] == s[j]);
    }
}

proof fn lemma_assoc_entry<K, V>(s: Seq<(K, V)>, i: int)
    requires
        keys_unique(s),
        0 <= i < s.len(),
    ensures
        assoc_map(s).contains_key(s[i].0),
        assoc_map(s)[s[i].0] == s[i].1,
    decreases s.len(),
{
    if i == s.len() - 1 {
    } else {
        lemma_unique_drop_last(s);
        lemma_assoc_entry(s.drop_last(), i);
        assert(s.drop_last()[i] == s[i]);
        assert(s[i].0 != s.last().0);
    }
}

proof fn lemma_assoc_absent<K, V>(s: Seq<(K, V)>, k: K)
    requires
        forall|j: int| 0 <= j < s.len() ==> s[j].0 != k,
    ensures
        !assoc_map(s).contains_key(k),
    decreases s.len(),
{
    if s.len() > 0 {
        assert forall|j: int| 0 <= j < s.drop_last().len() implies s.drop_last()[j].0 != k by {
            assert(s.drop_last()[j] == s[j]);
        }
        lemma_assoc_absent(s.drop_last(), k);
        assert(s.last() == s[s.len() - 1]);
    }
}

proof fn lemma_assoc_remove<K, V>(s: Seq<(K, V)>, i: int)
    requires
        keys_unique(s),
        0 <= i < s.len(),
    ensures
        keys_unique(s.remove(i)),
        assoc_map(s.remove(i)) == assoc_map(s).remove(s[i].0),
        forall|j: int| 0 <= j < s.remove(i).len() ==> s.remove(i)[j].0 != s[i].0,
    decreases s.len(),
{
    assert forall|p: int, q: int|
        0 <= p < q < s.remove(i).len() implies s.remove(i)[p].0 != s.remove(i)[q].0 by {
        let p0 = if p < i { p } else { p + 1 };
        let q0 = if q < i { q } else { q + 1 };
        assert(s.remove(i)[p] == s[p0]);
        assert(s.remove(i)[q] == s[q0]);
    }
    assert forall|j: int| 0 <= j < s.remove(i).len() implies s.remove(i)[j].0 != s[i].0 by {
        let j0 = if j < i { j } else { j + 1 };
        assert(s.remove(i)[j] == s[j0]);
    }
    if i == s.len() - 1 {
        assert(s.remove(i) =~= s.drop_last());
        assert forall|j: int| 0 <= j < s.drop_last().len() implies s.drop_last()[j].0 != s.last().0 by {
            assert(s.drop_last()[j] == s[j]);
        }
        lemma_assoc_absent(s.drop_last(), s.last().0);
        assert(assoc_map(s.remove(i)) =~= assoc_map(s).remove(s[i].0));
    } else {
        lemma_unique_drop_last(s);
        lemma_assoc_remove(s.drop_last(), i);
        assert(s.drop_last()[i] == s[i]);
        assert(s.remove(i).drop_last() =~= s.drop_last().remove(i));
        assert(s.remove(i).last() == s.last());
        assert(assoc_map(s.remove(i)) == assoc_map(s.drop_last().remove(i)).insert(
            s.last().0,
            s.last().1,
        ));
        assert(s[i].0 != s.last().0);
        assert(assoc_map(s.drop_last()).remove(s[i].0).insert(s.last().0, s.last().1)
            =~= assoc_map(s.drop_last()).insert(s.last().0, s.last().1).remove(s[i].0));
    }
}

proof fn lemma_assoc_push<K, V>(s: Seq<(K, V)>, k: K, v: V)
    requires
        forall|j: int| 0 <= j < s.len() ==> s[j].0 != k,
        keys_unique(s),
    ensures
        keys_unique(s.push((k, v))),
        assoc_map(s.push((k, v))) == assoc_map(s).insert(k, v),
{
    let t = s.push((k, v));
    assert forall|i: int, j: int| 0 <= i < j < t.len() implies t[i].0 != t[j].0 by {
        if j < s.len() {
            assert(t[i] == s[i]);
            assert(t[j] == s[j]);
        } else {
            assert(t[i] == s[i]);
            assert(t[j] == (k, v));
        }
    }
    assert(t.drop_last() =~= s);
    assert(t.last() == (k, v));
}

/// The sum of the values of an association list of balances.
pub open spec fn sum_vals(s: Seq<(u64, u128)>) -> int
    decreases s.len(),
{
    if s.len() == 0 {
        0
    } else {
        sum_vals(s.drop_last()) + s.last().1
    }
}

proof fn lemma_sum_nonneg(s: Seq<(u64, u128)>)
    ensures
        0 <= sum_vals(s),
    decreases s.len(),
{
    if s.len() > 0 {
        lemma_sum_nonneg(s.drop_last());
    }
}

proof fn lemma_sum_remove(s: Seq<(u64, u128)>, i: int)
    requires
        0 <= i < s.len(),
    ensures
        sum_vals(s.remove(i)) == sum_vals(s) - s[i].1,
    decreases s.len(),
{
    if i == s.len() - 1 {
        assert(s.remove(i) =~= s.drop_last());
    } else {
        lemma_sum_remove(s.drop_last(), i);
        assert(s.drop_last()[i] == s[i]);
        assert(s.remove(i).drop_last() =~= s.drop_last().remove(i));
        assert(s.remove(i).last() == s.last());
    }
}

proof fn lemma_sum_push(s: Seq<(u64, u128)>, k: u64, v: u128)
    ensures
        sum_vals(s.push((k, v))) == sum_vals(s) + v,
{
    assert(s.push((k, v)).drop_last() =~= s);
    assert(s.push((k, v)).last() == (k, v));
}

/// Per-account levels, stored as an association list with unique keys.
/// An account without an entry has level zero.
pub struct LevelTable {
    entries: Vec<(u64, u64)>,
}

impl View for LevelTable {
    type V = Map<u64, u64>;

    closed spec fn view(&self) -> Map<u64, u64> {
        assoc_map(self.entries@)
    }
}

impl LevelTable {
    /// Unique keys, so the list denotes its map unambiguously.
    pub closed spec fn wf(self) -> bool {
        keys_unique(self.entries@)
    }

    /// The level recorded for `account`; zero when no entry exists.
    pub open spec fn level_spec(self, account: u64) -> u64 {
        if self@.contains_key(account) {
            self@[account]
        } else {
            0
        }
    }

    pub fn new() -> (t: Self)
        ensures
            t.wf(),
            t@ == Map::<u64, u64>::empty(),
    {
        LevelTable { entries: Vec::new() }
    }

    fn find(&self, account: u64) -> (r: Option<usize>)
        ensures
            match r {
                Some(i) => i < self.entries@.len() && self.entries@[i as int].0 == account,
                None => forall|j: int| 0 <= j < self.entries@.len() ==> self.entries@[j].0 != account,
            },
    {
        let mut i: usize = 0;
        while i < self.entries.len()
            invariant
                i <= self.entries@.len(),
                forall|j: int| 0 <= j < i ==> self.entries@[j].0 != account,
            decreases self.entries@.len() - i,
        {
            if self.entries[i].0 == account {
                return Some(i);
            }
            i = i + 1;
        }
        None
    }

    pub fn get(&self, account: u64) -> (r: u64)
        requires
            self.wf(),
        ensures
            r == self.level_spec(account),
    {
        match self.find(account) {
            Some(i) => {
                proof {
                    lemma_assoc_entry(self.entries@, i as int);
                }
                self.entries[i].1
            },
            None => {
                proof {
                    lemma_assoc_absent(self.entries@, account);
                }
                0u64
            },
        }
    }

    pub fn set(&mut self, account: u64, value: u64)
        requires
            old(self).wf(),
        ensures
            final(self).wf(),
            final(self)@ == old(self)@.insert(account, value),
    {
        match self.find(account) {
            Some(i) => {
                proof {
                    lemma_assoc_remove(old(self).entries@, i as int);
                }
                self.entries.remove(i);
                proof {
                    lemma_assoc_push(self.entries@, account, value);
                }
                self.entries.push((account, value));
                proof {
                    assert(self@ =~= old(self)@.insert(account, value));
                }
            },
            None => {
                proof {
                    lemma_assoc_push(self.entries@, account, value);
                }
                self.entries.push((account, value));
            },
        }
    }
}

/// Per-account token balances, stored as an association list with unique
/// keys. An account without an entry holds zero tokens. The sum of all
/// values is tracked so the total supply can be tied to the balances.
pub struct BalanceTable {
    entries: Vec<(u64, u128)>,
}

impl View for BalanceTable {
    type V = Map<u64, u128>;

    closed spec fn view(&self) -> Map<u64, u128> {
        assoc_map(self.entries@)
    }
}

impl BalanceTable {
    /// Unique keys, so the list denotes its map unambiguously.
    pub closed spec fn wf(self) -> bool {
        keys_unique(self.entries@)
    }

    /// The balance recorded for `account`; zero when no entry exists.
    pub open spec fn bal_spec(self, account: u64) -> u128 {
        if self@.contains_key(account) {
            self@[account]
        } else {
            0
        }
    }

    /// The sum of all recorded balances.
    pub closed spec fn total(self) -> int {
        sum_vals(self.entries@)
    }

    /// No single balance exceeds the sum of all balances.
    pub proof fn lemma_bal_le_total(&self, account: u64)
        requires
            self.wf(),
        ensures
            0 <= self.bal_spec(account) <= self.total(),
    {
        lemma_sum_nonneg(self.entries@);
        if self@.contains_key(account) {
            let s = self.entries@;
            lemma_assoc_contains(s, account);
            let i = choose|i: int| 0 <= i < s.len() && s[i].0 == account;
            lemma_assoc_entry(s, i);
            lemma_sum_remove(s, i);
            lemma_sum_nonneg(s.remove(i));
        }
    }

    pub fn new() -> (t: Self)
        ensures
            t.wf(),
            t@ == Map::<u64, u128>::empty(),
            t.total() == 0,
    {
        BalanceTable { entries: Vec::new() }
    }

    fn find(&self, account: u64) -> (r: Option<usize>)
        ensures
            match r {
                Some(i) => i < self.entries@.len() && self.entries@[i as int].0 == account,
                None => forall|j: int| 0 <= j < self.entries@.len() ==> self.entries@[j].0 != account,
            },
    {
        let mut i: usize = 0;
        while i < self.entries.len()
            invariant
                i <= self.entries@.len(),
                forall|j: int| 0 <= j < i ==> self.entries@[j].0 != account,
            decreases self.entries@.len() - i,
        {
            if self.entries[i].0 == account {
                return Some(i);
            }
            i = i + 1;
        }
        None
    }

    pub fn get(&self, account: u64) -> (r: u128)
        requires
            self.wf(),
        ensures
            r == self.bal_spec(account),
    {
        match self.find(account) {
            Some(i) => {
                proof {
                    lemma_assoc_entry(self.entries@, i as int);
                }
                self.entries[i].1
            },
            None => {
                proof {
                    lemma_assoc_absent(self.entries@, account);
                }
                0u128
            },
        }
    }

    pub fn set(&mut self, account: u64, value: u128)
        requires
            old(self).wf(),
        ensures
            final(self).wf(),
            final(self)@ == old(self)@.insert(account, value),
            final(self).total() == old(self).total() - old(self).bal_spec(account) + value,
    {
        match self.find(account) {
            Some(i) => {
                proof {
                    lemma_assoc_entry(old(self).entries@, i as int);
                    lemma_assoc_remove(old(self).entries@, i as int);
                    lemma_sum_remove(old(self).entries@, i as int);
                }
                self.entries.remove(i);
                proof {
                    lemma_assoc_push(self.entries@, account, value);
                    lemma_sum_push(self.entries@, account, value);
                }
                self.entries.push((account, value));
                proof {
                    assert(self@ =~= old(self)@.insert(account, value));
                }
            },
            None => {
                proof {
                    lemma_assoc_absent(old(self).entries@, account);
                    lemma_assoc_push(self.entries@, account, value);
                    lemma_sum_push(self.entries@, account, value);
                }
                self.entries.push((account, value));
            },
        }
    }
}

proof fn lemma_assoc_contains<K, V>(s: Seq<(K, V)>, k: K)
    requires
        assoc_map(s).contains_key(k),
    ensures
        exists|i: int| 0 <= i < s.len() && s[i].0 == k,
    decreases s.len(),
{
    if s.len() > 0 {
        if s.last().0 == k {
            assert(s[s.len() - 1].0 == k);
        } else {
            lemma_assoc_contains(s.drop_last(), k);
            let i = choose|i: int| 0 <= i < s.drop_last().len() && s.drop_last()[i].0 == k;
            assert(s[i].0 == k);
        }
    }
}

/// Per-pair allowances: how much `spender` may move out of `owner`'s
/// balance, stored as an association list keyed by the (owner, spender)
/// pair, with unique keys. A pair without an entry has allowance zero.
pub struct AllowanceTable {
    entries: Vec<((u64, u64), u128)>,
}

impl View for AllowanceTable {
    type V = Map<(u64, u64), u128>;

    closed spec fn view(&self) -> Map<(u64, u64), u128> {
        assoc_map(self.entries@)
    }
}

impl AllowanceTable {
    /// Unique keys, so the list denotes its map unambiguously.
    pub closed spec fn wf(self) -> bool {
        keys_unique(self.entries@)
    }

    /// The allowance recorded for the pair; zero when no entry exists.
    pub open spec fn allowance_spec(self, owner: u64, spender: u64) -> u128 {
        if self@.contains_key((owner, spender)) {
            self@[(owner, spender)]
        } else {
            0
        }
    }

    pub fn new() -> (t: Self)
        ensures
            t.wf(),
            t@ == Map::<(u64, u64), u128>::empty(),
    {
        AllowanceTable { entries: Vec::new() }
    }

    fn find(&self, owner: u64, spender: u64) -> (r: Option<usize>)
        ensures
            match r {
                Some(i) => i < self.entries@.len() && self.entries@[i as int].0 == (owner, spender),
                None => forall|j: int|
                    0 <= j < self.entries@.len() ==> self.entries@[j].0 != (owner, spender),
            },
    {
        let mut i: usize = 0;
        while i < self.entries.len()
            invariant
                i <= self.entries@.len(),
                forall|j: int| 0 <= j < i ==> self.entries@[j].0 != (owner, spender),
            decreases self.entries@.len() - i,
        {
            let e = self.entries[i];
            if e.0.0 == owner && e.0.1 == spender {
                return Some(i);
            }
            i = i + 1;
        }
        None
    }

    pub fn get(&self, owner: u64, spender: u64) -> (r: u128)
        requires
            self.wf(),
        ensures
            r == self.allowance_spec(owner, spender),
    {
        match self.find(owner, spender) {
            Some(i) => {
                proof {
                    lemma_assoc_entry(self.entries@, i as int);
                }
                self.entries[i].1
            },
            None => {
                proof {
                    lemma_assoc_absent(self.entries@, (owner, spender));
                }
                0u128
            },
        }
    }

    pub fn set(&mut self, owner: u64, spender: u64, value: u128)
        requires
            old(self).wf(),
        ensures
            final(self).wf(),
            final(self)@ == old(self)@.insert((owner, spender), value),
    {
        match self.find(owner, spender) {
            Some(i) => {
                proof {
                    lemma_assoc_remove(old(self).entries@, i as int);
                }
                self.entries.remove(i);
                proof {
                    lemma_assoc_push(self.entries@, (owner, spender), value);
                }
                self.entries.push(((owner, spender), value));
                proof {
                    assert(self@ =~= old(self)@.insert((owner, spender), value));
                }
            },
            None => {
                proof {
                    lemma_assoc_push(self.entries@, (owner, spender), value);
                }
                self.entries.push(((owner, spender), value));
            },
        }
    }
}

} // verus!
