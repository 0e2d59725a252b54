use vstd::prelude::*;

use crate::text::text_eq;

verus! {

/// Number of occurrences of `v` in `s`.
pub open spec fn occ(s: Seq<Seq<char>>, v: Seq<char>) -> nat
    decreases s.len(),
{
    if s.len() == 0 {
        0
    } else {
        occ(s.drop_last(), v) + if s.last() == v { 1nat } else { 0nat }
    }
}

pub proof fn lemma_occ_push(s: Seq<Seq<char>>, x: Seq<char>, v: Seq<char>)
    ensures
        occ(s.push(x), v) == occ(s, v) + if x == v { 1nat } else { 0nat },
{
    assert(s.push(x).drop_last() =~= s);
}

pub proof fn lemma_occ_bound(s: Seq<Seq<char>>, v: Seq<char>)
    ensures
        occ(s, v) <= s.len(),
        occ(s, v) > 0 ==> s.contains(v),
        !s.contains(v) ==> occ(s, v) == 0,
    decreases s.len(),
{
    if s.len() > 0 {
        lemma_occ_bound(s.drop_last(), v);
        if occ(s, v) > 0 {
            if s.last() == v {
                assert(s[s.len() - 1] == v);
            } else {
                let k = choose|k: int| 0 <= k < s.len() - 1 && s.drop_last()[k] == v;
                assert(s[k] == v);
            }
        }
        if !s.contains(v) {
            if s.drop_last().contains(v) {
                let k = choose|k: int| 0 <= k < s.len() - 1 && s.drop_last()[k] == v;
                assert(s[k] == v);
            }
            if s.last() == v {
                assert(s[s.len() - 1] == v);
            }
        }
    }
}

pub proof fn lemma_push_contains(s: Seq<Seq<char>>, l: Seq<char>, x: Seq<char>)
    ensures
        s.push(l).contains(x) == (s.contains(x) || l == x),
{
    if s.push(l).contains(x) {
        let k = choose|k: int| 0 <= k < s.len() + 1 && s.push(l)[k] == x;
        if k < s.len() {
            assert(s[k] == x);
        }
    }
    if s.contains(x) {
        let k = choose|k: int| 0 <= k < s.len() && s[k] == x;
        assert(s.push(l)[k] == x);
    }
    if l == x {
        assert(s.push(l)[s.len() as int] == x);
    }
}

/// The texts of a list of strings.
pub open spec fn texts(v: Seq<String>) -> Seq<Seq<char>> {
    v.map_values(|s: String| s@)
}

/// Keys of the entries, in order.
pub open spec fn keys_of(e: Seq<(String, usize)>) -> Seq<Seq<char>> {
    e.map_values(|p: (String, usize)| p.0@)
}

/// Each key once.
pub open spec fn keys_unique(e: Seq<(String, usize)>) -> bool {
    forall|i: int, j: int| 0 <= i < j < e.len() ==> e[i].0@ != e[j].0@
}

/// The entries count exactly the values in `vals`: one entry per distinct
/// value, holding its number of occurrences.
pub open spec fn counts_exactly(e: Seq<(String, usize)>, vals: Seq<Seq<char>>) -> bool {
    &&& keys_unique(e)
    &&& forall|i: int| 0 <= i < e.len() ==> e[i].1 == occ(vals, #[trigger] e[i].0@)
    &&& forall|v: Seq<char>| vals.contains(v) ==> keys_of(e).contains(v)
    &&& forall|i: int| 0 <= i < e.len() ==> vals.contains(#[trigger] e[i].0@)
}

/// A value-to-count table, each value once, in order of first insertion.
#[derive(Debug, Clone)]
pub struct CountMap {
    entries: Vec<(String, usize)>,
}

impl View for CountMap {
    type V = Seq<(String, usize)>;

    closed spec fn view(&self) -> Seq<(String, usize)> {
        self.entries@
    }
}

/// The count held for `k`, if any.
pub open spec fn count_of(e: Seq<(String, usize)>, k: Seq<char>) -> Option<usize> {
    if exists|i: int| 0 <= i < e.len() && #[trigger] e[i].0@ == k {
        let i = choose|i: int| 0 <= i < e.len() && #[trigger] e[i].0@ == k;
        Some(e[i].1)
    } else {
        None
    }
}

impl CountMap {
    pub fn new() -> (r: CountMap)
        ensures
            r@.len() == 0,
    {
        CountMap { entries: Vec::new() }
    }

    /// A table with these entries, whose keys are distinct.
    pub fn from_entries(entries: Vec<(String, usize)>) -> (r: CountMap)
        requires
            keys_unique(entries@),
        ensures
            r@ == entries@,
    {
        CountMap { entries }
    }

    pub fn len(&self) -> (r: usize)
        ensures
            r == self@.len(),
    {
        self.entries.len()
    }

    pub fn is_empty(&self) -> (r: bool)
        ensures
            r == (self@.len() == 0),
    {
        self.entries.len() == 0
    }

    /// The entries, in order of first insertion.
    pub fn entries(&self) -> (r: &[(String, usize)])
        ensures
            r@ == self@,
    {
        self.entries.as_slice()
    }

    /// Index of the entry for `key`, if there is one.
    fn find(&self, key: &str) -> (r: Option<usize>)
        ensures
            match r {
                Some(i) => i < self@.len() && self@[i as int].0@ == key@,
                None => !keys_of(self@).contains(key@),
            },
            r is None ==> forall|i: int| 0 <= i < self@.len() ==> self@[i].0@ != key@,
    {
        let mut i: usize = 0;
        while i < self.entries.len()
            invariant
                i <= self@.len(),
                forall|j: int| 0 <= j < i ==> self@[j].0@ != key@,
            decreases self@.len() - i,
        {
            if text_eq(self.entries[i].0.as_str(), key) {
                return Some(i);
            }
            i += 1;
        }
        proof {
            if keys_of(self@).contains(key@) {
                let k = choose|k: int| 0 <= k < self@.len() && keys_of(self@)[k] == key@;
                assert(self@[k].0@ == key@);
            }
        }
        None
    }

    /// The count held for `key`.
    pub fn get(&self, key: &str) -> (r: Option<usize>)
        requires
            keys_unique(self@),
        ensures
            r == count_of(self@, key@),
    {
        match self.find(key) {
            Some(i) => {
                proof {
                    let j = choose|j: int| 0 <= j < self@.len() && #[trigger] self@[j].0@ == key@;
                    assert(j == i);
                }
                Some(self.entries[i].1)
            },
            None => None,
        }
    }

    /// Counts one more occurrence of `key`, adding it with count 1 if new.
    pub fn increment(&mut self, key: &str, vals: Ghost<Seq<Seq<char>>>)
        requires
            counts_exactly(old(self)@, vals@),
            vals@.len() < usize::MAX,
        ensures
            counts_exactly(final(self)@, vals@.push(key@)),
    {
        proof {
            lemma_occ_bound(vals@, key@);
        }
        let ghost mut idx: int = 0;
        match self.find(key) {
            Some(i) => {
                proof {
                    idx = i as int;
                }
                let c = self.entries[i].1;
                let k = self.entries[i].0.clone();
                proof {
                    lemma_occ_bound(vals@, key@);
                }
                self.entries.set(i, (k, c + 1));
            },
            None => {
                proof {
                    if vals@.contains(key@) {
                        assert(keys_of(old(self)@).contains(key@));
                    }
                }
                proof {
                    idx = old(self)@.len() as int;
                }
                let k = owned(key);
                self.entries.push((k, 1));
            },
        }
        proof {
            let e = self@;
            let v2 = vals@.push(key@);
            assert(0 <= idx < e.len() && e[idx].0@ == key@);
            assert forall|i: int| 0 <= i < e.len() && i != idx implies e[i].0@ == old(self)@[i].0@ by {}
            assert(keys_unique(e));
            assert forall|i: int| 0 <= i < e.len() implies e[i].1 == occ(v2, #[trigger] e[i].0@) by {
                lemma_occ_push(vals@, key@, e[i].0@);
                lemma_occ_bound(vals@, e[i].0@);
            }
            assert forall|v: Seq<char>| v2.contains(v) implies keys_of(e).contains(v) by {
                lemma_push_contains(vals@, key@, v);
                if vals@.contains(v) {
                    let k = choose|k: int| 0 <= k < old(self)@.len() && keys_of(old(self)@)[k] == v;
                    assert(keys_of(e)[k] == v);
                } else {
                    assert(keys_of(e)[idx] == v);
                }
            }
            assert forall|i: int| 0 <= i < e.len() implies v2.contains(#[trigger] e[i].0@) by {
                lemma_push_contains(vals@, key@, e[i].0@);
            }
        }
    }
}

pub fn owned(s: &str) -> (r: String)
    ensures
        r@ == s@,
{
    <String as vstd::string::StringExecFns>::from_str(s)
}

} // verus!

verus! {

/// The values a batch contributes to one dimension, record by record: `sel`
/// gives the values of one record.
pub open spec fn field_vals(adrs: Seq<crate::record::Adr>, sel: spec_fn(crate::record::Adr) -> Seq<Seq<char>>) -> Seq<Seq<char>>
    decreases adrs.len(),
{
    if adrs.len() == 0 {
        Seq::empty()
    } else {
        field_vals(adrs.drop_last(), sel) + sel(adrs.last())
    }
}

pub proof fn lemma_field_vals_step(adrs: Seq<crate::record::Adr>, sel: spec_fn(crate::record::Adr) -> Seq<Seq<char>>, i: int)
    requires
        0 <= i < adrs.len(),
    ensures
        field_vals(adrs.subrange(0, i + 1), sel) == field_vals(adrs.subrange(0, i), sel) + sel(adrs[i]),
{
    assert(adrs.subrange(0, i + 1).drop_last() =~= adrs.subrange(0, i));
}

/// A text as a value of a single-valued dimension: empty contributes nothing.
pub open spec fn nonempty(t: Seq<char>) -> Seq<Seq<char>> {
    if t.len() > 0 {
        seq![t]
    } else {
        Seq::empty()
    }
}

pub proof fn lemma_single_valued_len(adrs: Seq<crate::record::Adr>, sel: spec_fn(crate::record::Adr) -> Seq<Seq<char>>)
    requires
        forall|a: crate::record::Adr| #[trigger] sel(a).len() <= 1,
    ensures
        field_vals(adrs, sel).len() <= adrs.len(),
    decreases adrs.len(),
{
    if adrs.len() > 0 {
        lemma_single_valued_len(adrs.drop_last(), sel);
        assert(sel(adrs.last()).len() <= 1);
    }
}

/// Counts each of `items`.
pub fn add_all(counts: &mut CountMap, items: &[String], prior: Ghost<Seq<Seq<char>>>)
    requires
        counts_exactly(old(counts)@, prior@),
        prior@.len() + items@.len() <= usize::MAX,
    ensures
        counts_exactly(final(counts)@, prior@ + texts(items@)),
{
    let mut j: usize = 0;
    while j < items.len()
        invariant
            j <= items@.len(),
            prior@.len() + items@.len() <= usize::MAX,
            counts_exactly(counts@, prior@ + texts(items@).subrange(0, j as int)),
        decreases items@.len() - j,
    {
        proof {
            assert(prior@ + texts(items@).subrange(0, 0) =~= prior@);
        }
        let ghost cur = prior@ + texts(items@).subrange(0, j as int);
        counts.increment(items[j].as_str(), Ghost(cur));
        assert(cur.push(items@[j as int]@) =~= prior@ + texts(items@).subrange(0, j + 1));
        j += 1;
    }
    assert(texts(items@).subrange(0, items@.len() as int) =~= texts(items@));
}

/// Counts `item` unless it is empty.
pub fn add_nonempty(counts: &mut CountMap, item: &str, prior: Ghost<Seq<Seq<char>>>)
    requires
        counts_exactly(old(counts)@, prior@),
        prior@.len() < usize::MAX,
    ensures
        counts_exactly(final(counts)@, prior@ + nonempty(item@)),
{
    if crate::text::text_is_empty(item) {
        assert(prior@ + nonempty(item@) =~= prior@);
    } else {
        counts.increment(item, prior);
        assert(prior@.push(item@) =~= prior@ + nonempty(item@));
    }
}

} // verus!
