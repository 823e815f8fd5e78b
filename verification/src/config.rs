//! The configured accounts: names in the order they were added, each with the identity it
//! was registered as. Tokens are kept elsewhere, in the keystore.
use vstd::prelude::*;

use crate::text::{
    eq_ignore_ascii_case, eq_ignore_case, lemma_seq_less_asymmetric, lemma_seq_less_transitive,
    seq_less, str_eq, str_less,
};

verus! {

/// What is recorded about an account besides its token.
#[derive(Clone, Debug)]
pub struct AccountConfig {
    pub user: String,
    pub name: String,
    pub email: String,
    pub added_at: String,
}

impl AccountConfig {
    /// A copy of this record.
    pub fn duplicate(&self) -> (r: AccountConfig)
        ensures
            r == *self,
    {
        AccountConfig {
            user: self.user.clone(),
            name: self.name.clone(),
            email: self.email.clone(),
            added_at: self.added_at.clone(),
        }
    }
}

/// No two accounts have the same name.
pub open spec fn names_unique(s: Seq<(String, AccountConfig)>) -> bool {
    forall|i: int, j: int| 0 <= i < j < s.len() ==> s[i].0@ != s[j].0@
}

/// The first account whose name equals `name` in any ASCII case.
pub open spec fn first_match(s: Seq<(String, AccountConfig)>, name: Seq<char>) -> Option<int>
    decreases s.len(),
{
    if s.len() == 0 {
        None
    } else if eq_ignore_case(s[0].0@, name) {
        Some(0)
    } else {
        match first_match(s.drop_first(), name) {
            Some(i) => Some(i + 1),
            None => None,
        }
    }
}

/// Setting the account `k` in an insertion-ordered map: an existing entry keeps its place.
pub open spec fn spec_insert(s: Seq<(String, AccountConfig)>, k: String, v: AccountConfig) -> Seq<
    (String, AccountConfig),
> {
    if exists|i: int| 0 <= i < s.len() && s[i].0@ == k@ {
        let i = choose|i: int| 0 <= i < s.len() && s[i].0@ == k@;
        s.update(i, (k, v))
    } else {
        s.push((k, v))
    }
}

/// Removing the account named exactly `k`, the others keeping their order.
pub open spec fn spec_remove(s: Seq<(String, AccountConfig)>, k: Seq<char>) -> Seq<
    (String, AccountConfig),
> {
    s.filter(other_than(k))
}

/// Whether an entry is not named exactly `k`.
pub open spec fn other_than(k: Seq<char>) -> spec_fn((String, AccountConfig)) -> bool {
    |e: (String, AccountConfig)| e.0@ != k
}

/// `e` put into the name-sorted `r`, before the first entry whose name is greater.
pub open spec fn insert_sorted(r: Seq<(String, AccountConfig)>, e: (String, AccountConfig)) -> Seq<
    (String, AccountConfig),
>
    decreases r.len(),
{
    if r.len() == 0 {
        seq![e]
    } else if seq_less(e.0@, r[0].0@) {
        seq![e] + r
    } else {
        seq![r[0]] + insert_sorted(r.drop_first(), e)
    }
}

/// The accounts ordered by name.
pub open spec fn sort_by_name(s: Seq<(String, AccountConfig)>) -> Seq<(String, AccountConfig)>
    decreases s.len(),
{
    if s.len() == 0 {
        s
    } else {
        insert_sorted(sort_by_name(s.drop_last()), s.last())
    }
}

/// The configured accounts.
pub struct Config {
    accounts: Vec<(String, AccountConfig)>,
}

impl View for Config {
    type V = Seq<(String, AccountConfig)>;

    closed spec fn view(&self) -> Seq<(String, AccountConfig)> {
        self.accounts@
    }
}

proof fn lemma_insert_sorted_at(r: Seq<(String, AccountConfig)>, e: (String, AccountConfig), p: int)
    requires
        0 <= p <= r.len(),
        forall|k: int| 0 <= k < p ==> !seq_less(e.0@, #[trigger] r[k].0@),
        p < r.len() ==> seq_less(e.0@, r[p].0@),
    ensures
        insert_sorted(r, e) == r.take(p) + seq![e] + r.skip(p),
    decreases r.len(),
{
    if r.len() == 0 {
        assert(r.take(p) + seq![e] + r.skip(p) =~= seq![e]);
    } else if p == 0 {
        assert(r.take(0) + seq![e] + r.skip(0) =~= seq![e] + r);
    } else {
        let t = r.drop_first();
        assert forall|k: int| 0 <= k < p - 1 implies !seq_less(e.0@, #[trigger] t[k].0@) by {
            assert(t[k] == r[k + 1]);
        }
        lemma_insert_sorted_at(t, e, p - 1);
        assert(!seq_less(e.0@, r[0].0@));
        assert(r.take(p) + seq![e] + r.skip(p) =~= seq![r[0]] + (t.take(p - 1) + seq![e] + t.skip(
            p - 1,
        )));
    }
}

impl Config {
    #[verifier::type_invariant]
    spec fn inv(self) -> bool {
        names_unique(self.accounts@)
    }

    /// No accounts.
    pub fn new() -> (r: Config)
        ensures
            r@ == Seq::<(String, AccountConfig)>::empty(),
    {
        Config { accounts: Vec::new() }
    }

    /// The accounts of a configuration file, in file order; a repeated name keeps its first
    /// place and its last record.
    pub fn from_entries(entries: Vec<(String, AccountConfig)>) -> (r: Config)
        ensures
            r@ == entries@.fold_left(
                Seq::<(String, AccountConfig)>::empty(),
                |acc: Seq<(String, AccountConfig)>, e: (String, AccountConfig)|
                    spec_insert(acc, e.0, e.1),
            ),
    {
        let mut c = Config::new();
        let mut entries = entries;
        let ghost all = entries@;
        let mut i: usize = 0;
        while i < entries.len()
            invariant
                i <= entries.len(),
                entries@ == all,
                c@ == all.take(i as int).fold_left(
                    Seq::<(String, AccountConfig)>::empty(),
                    |acc: Seq<(String, AccountConfig)>, e: (String, AccountConfig)|
                        spec_insert(acc, e.0, e.1),
                ),
            decreases entries.len() - i,
        {
            let name = entries[i].0.clone();
            let acct = entries[i].1.duplicate();
            assert(all.take(i + 1).drop_last() == all.take(i as int));
            c.insert(name, acct);
            i = i + 1;
        }
        assert(all.take(all.len() as int) == all);
        c
    }

    /// Whether no account is configured.
    pub fn is_empty(&self) -> (r: bool)
        ensures
            r == (self@.len() == 0),
    {
        self.accounts.len() == 0
    }

    /// The number of accounts.
    pub fn len(&self) -> (r: usize)
        ensures
            r == self@.len(),
    {
        self.accounts.len()
    }

    /// The accounts in the order they were added.
    pub fn entries(&self) -> (r: &Vec<(String, AccountConfig)>)
        ensures
            r@ == self@,
            names_unique(r@),
    {
        proof {
            use_type_invariant(self);
        }
        &self.accounts
    }

    /// The account whose name equals `name` in any ASCII case, the first one if several do.
    #[verifier::loop_isolation(false)]
    pub fn find(&self, name: &str) -> (r: Option<(&String, &AccountConfig)>)
        ensures
            match first_match(self@, name@) {
                Some(i) => (r matches Some((n, a)) && *n == self@[i].0 && *a == self@[i].1),
                None => r is None,
            },
    {
        let mut i: usize = 0;
        assert(self.accounts@.skip(0) == self.accounts@);
        while i < self.accounts.len()
            invariant
                i <= self.accounts.len(),
                forall|k: int| 0 <= k < i ==> !eq_ignore_case(self.accounts@[k].0@, name@),
                match first_match(self.accounts@, name@) {
                    Some(j) => match first_match(self.accounts@.skip(i as int), name@) {
                        Some(m) => j == m + i,
                        None => false,
                    },
                    None => first_match(self.accounts@.skip(i as int), name@) is None,
                },
            decreases self.accounts.len() - i,
        {
            let ghost rest = self.accounts@.skip(i as int);
            assert(rest[0] == self.accounts@[i as int]);
            assert(rest.drop_first() == self.accounts@.skip(i + 1));
            if eq_ignore_ascii_case(self.accounts[i].0.as_str(), name) {
                return Some((&self.accounts[i].0, &self.accounts[i].1));
            }
            i = i + 1;
        }
        None
    }

    /// Sets the account `name`; an existing account of exactly that name keeps its place.
    #[verifier::loop_isolation(false)]
    pub fn insert(&mut self, name: String, acct: AccountConfig)
        ensures
            final(self)@ == spec_insert(old(self)@, name, acct),
    {
        proof {
            use_type_invariant(&*self);
        }
        let ghost before = self.accounts@;
        let mut i: usize = 0;
        while i < self.accounts.len()
            invariant
                i <= self.accounts.len(),
                *self == *old(self),
                before == self.accounts@,
                names_unique(before),
                forall|k: int| 0 <= k < i ==> self.accounts@[k].0@ != name@,
            decreases self.accounts.len() - i,
        {
            if str_eq(self.accounts[i].0.as_str(), name.as_str()) {
                proof {
                    let j = choose|j: int| 0 <= j < before.len() && before[j].0@ == name@;
                    assert(j == i) by {
                        if j != i {
                            assert(before[j].0@ != before[i as int].0@);
                        }
                    }
                }
                let mut accounts: Vec<(String, AccountConfig)> = Vec::new();
                std::mem::swap(&mut accounts, &mut self.accounts);
                accounts.set(i, (name, acct));
                assert(names_unique(accounts@)) by {
                    assert forall|a: int, b: int| 0 <= a < b < accounts@.len() implies accounts@[a].0@
                        != accounts@[b].0@ by {
                        assert(before[a].0@ != before[b].0@);
                    }
                }
                self.accounts = accounts;
                return;
            }
            i = i + 1;
        }
        let mut accounts: Vec<(String, AccountConfig)> = Vec::new();
        std::mem::swap(&mut accounts, &mut self.accounts);
        accounts.push((name, acct));
        assert(names_unique(accounts@)) by {
            assert forall|a: int, b: int| 0 <= a < b < accounts@.len() implies accounts@[a].0@
                != accounts@[b].0@ by {
                if b < before.len() {
                    assert(before[a].0@ != before[b].0@);
                }
            }
        }
        self.accounts = accounts;
    }

    /// Removes the account named exactly `name`, keeping the others in order.
    pub fn shift_remove(&mut self, name: &str)
        ensures
            final(self)@ == spec_remove(old(self)@, name@),
    {
        proof {
            use_type_invariant(&*self);
        }
        let ghost before = self.accounts@;
        let mut kept: Vec<(String, AccountConfig)> = Vec::new();
        let mut i: usize = 0;
        while i < self.accounts.len()
            invariant
                i <= self.accounts.len(),
                before == self.accounts@,
                names_unique(before),
                kept@ == spec_remove(before.take(i as int), name@),
            decreases self.accounts.len() - i,
        {
            proof {
                reveal(Seq::filter);
                assert(before.take(i + 1).drop_last() == before.take(i as int));
            }
            if !str_eq(self.accounts[i].0.as_str(), name) {
                kept.push((self.accounts[i].0.clone(), self.accounts[i].1.duplicate()));
            }
            i = i + 1;
        }
        assert(before.take(before.len() as int) == before);
        assert(names_unique(kept@)) by {
            lemma_filter_unique(before, name@);
        }
        self.accounts = kept;
    }

    /// The accounts ordered by name.
    pub fn sorted(&self) -> (r: Vec<(String, AccountConfig)>)
        ensures
            r@ == sort_by_name(self@),
    {
        let mut r: Vec<(String, AccountConfig)> = Vec::new();
        let mut i: usize = 0;
        while i < self.accounts.len()
            invariant
                i <= self.accounts.len(),
                r@ == sort_by_name(self.accounts@.take(i as int)),
            decreases self.accounts.len() - i,
        {
            let e = (self.accounts[i].0.clone(), self.accounts[i].1.duplicate());
            assert(self.accounts@.take(i + 1).drop_last() == self.accounts@.take(i as int));
            assert(self.accounts@.take(i + 1).last() == e);
            let mut p: usize = 0;
            while p < r.len() && !str_less(e.0.as_str(), r[p].0.as_str())
                invariant
                    p <= r.len(),
                    forall|k: int| 0 <= k < p ==> !seq_less(e.0@, #[trigger] r@[k].0@),
                decreases r.len() - p,
            {
                p = p + 1;
            }
            proof {
                lemma_insert_sorted_at(r@, e, p as int);
            }
            let ghost old_r = r@;
            r.insert(p, e);
            assert(r@ =~= old_r.take(p as int) + seq![e] + old_r.skip(p as int));
            i = i + 1;
        }
        assert(self.accounts@.take(self.accounts.len() as int) == self.accounts@);
        r
    }
}

proof fn lemma_filter_unique(s: Seq<(String, AccountConfig)>, k: Seq<char>)
    requires
        names_unique(s),
    ensures
        names_unique(spec_remove(s, k)),
    decreases s.len(),
{
    reveal(Seq::filter);
    if s.len() > 0 {
        let init = s.drop_last();
        assert(names_unique(init));
        lemma_filter_unique(init, k);
        let f = spec_remove(init, k);
        if s.last().0@ != k {
            assert(spec_remove(s, k) == f.push(s.last()));
            assert forall|j: int| 0 <= j < f.len() implies f[j].0@ != s.last().0@ by {
                assert(f.contains(f[j]));
                init.lemma_filter_contains_rev(other_than(k), f[j]);
                let m = choose|m: int| 0 <= m < init.len() && init[m] == f[j];
                assert(s[m].0@ != s[s.len() - 1].0@);
            }
        } else {
            assert(spec_remove(s, k) == f);
        }
    }
}


/// No entry's name is less than that of an entry before it.
pub open spec fn sorted_by_name(s: Seq<(String, AccountConfig)>) -> bool {
    forall|i: int, j: int| 0 <= i < j < s.len() ==> !seq_less(#[trigger] s[j].0@, #[trigger] s[i].0@)
}

proof fn lemma_insert_sorted(r: Seq<(String, AccountConfig)>, e: (String, AccountConfig))
    requires
        sorted_by_name(r),
    ensures
        sorted_by_name(insert_sorted(r, e)),
        insert_sorted(r, e).to_multiset() =~= r.to_multiset().insert(e),
    decreases r.len(),
{
    broadcast use vstd::seq_lib::group_to_multiset_ensures;
    broadcast use vstd::multiset::group_multiset_axioms;

    let out = insert_sorted(r, e);
    if r.len() == 0 {
        assert(out =~= Seq::<(String, AccountConfig)>::empty().push(e));
    } else if seq_less(e.0@, r[0].0@) {
        assert(out =~= r.insert(0, e));
        assert forall|i: int, j: int| 0 <= i < j < out.len() implies !seq_less(
            #[trigger] out[j].0@,
            #[trigger] out[i].0@,
        ) by {
            if i == 0 {
                lemma_seq_less_asymmetric(e.0@, r[0].0@);
                if j > 1 && seq_less(r[j - 1].0@, e.0@) {
                    lemma_seq_less_transitive(r[j - 1].0@, e.0@, r[0].0@);
                }
            } else {
                assert(out[i] == r[i - 1] && out[j] == r[j - 1]);
            }
        }
    } else {
        let rest = r.drop_first();
        let t = insert_sorted(rest, e);
        assert(sorted_by_name(rest)) by {
            assert forall|i: int, j: int| 0 <= i < j < rest.len() implies !seq_less(
                #[trigger] rest[j].0@,
                #[trigger] rest[i].0@,
            ) by {
                assert(rest[i] == r[i + 1] && rest[j] == r[j + 1]);
            }
        }
        lemma_insert_sorted(rest, e);
        assert(out =~= t.insert(0, r[0]));
        assert(r =~= rest.insert(0, r[0]));
        assert forall|i: int, j: int| 0 <= i < j < out.len() implies !seq_less(
            #[trigger] out[j].0@,
            #[trigger] out[i].0@,
        ) by {
            if i == 0 {
                let x = t[j - 1];
                assert(out[j] == x);
                assert(t.contains(x));
                assert(t.to_multiset().count(x) > 0);
                if x != e {
                    assert(rest.to_multiset().count(x) > 0);
                    assert(rest.contains(x));
                    let m = choose|m: int| 0 <= m < rest.len() && rest[m] == x;
                    assert(r[m + 1] == x);
                }
            } else {
                assert(out[i] == t[i - 1] && out[j] == t[j - 1]);
            }
        }
    }
}

/// Listing the accounts by name lists every account exactly once, in order of name.
pub proof fn law_listing_is_sorted(s: Seq<(String, AccountConfig)>)
    ensures
        sorted_by_name(sort_by_name(s)),
        sort_by_name(s).to_multiset() == s.to_multiset(),
        sort_by_name(s).len() == s.len(),
    decreases s.len(),
{
    broadcast use vstd::seq_lib::group_to_multiset_ensures;

    if s.len() > 0 {
        law_listing_is_sorted(s.drop_last());
        lemma_insert_sorted(sort_by_name(s.drop_last()), s.last());
        assert(s =~= s.drop_last().push(s.last()));
    }
    sort_by_name(s).to_multiset_ensures();
    s.to_multiset_ensures();
}

} // verus!
