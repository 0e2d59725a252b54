use std::collections::HashMap;

use vstd::prelude::*;

use crate::counts::{counts_exactly, field_vals, CountMap};
use crate::facets::entry_pairs;
use crate::date::{date_before, Date};
use crate::facets::{
    author_sel, batch_fits, category_sel, field_counts, project_sel, status_counts, status_table_exact, tag_sel,
    technology_sel,
};
use crate::record::Adr;

verus! {

/// Number of occurrences of `y` in `s`.
pub open spec fn occ_year(s: Seq<int>, y: int) -> nat
    decreases s.len(),
{
    if s.len() == 0 {
        0
    } else {
        occ_year(s.drop_last(), y) + if s.last() == y { 1nat } else { 0nat }
    }
}

/// The `created` dates of the batch, in order, skipping records without one.
pub open spec fn created_dates(adrs: Seq<Adr>) -> Seq<(int, int, int)>
    decreases adrs.len(),
{
    if adrs.len() == 0 {
        Seq::empty()
    } else {
        let prev = created_dates(adrs.drop_last());
        match adrs.last().frontmatter.created {
            Some(d) => prev.push(d@),
            None => prev,
        }
    }
}

/// The years of the `created` dates, in order.
pub open spec fn created_years(adrs: Seq<Adr>) -> Seq<int> {
    created_dates(adrs).map_values(|d: (int, int, int)| d.0)
}

/// The earliest date of the list: a later date replaces the current one only
/// when strictly before it.
pub open spec fn earliest_of(s: Seq<(int, int, int)>) -> Option<(int, int, int)>
    decreases s.len(),
{
    if s.len() == 0 {
        None
    } else {
        match earliest_of(s.drop_last()) {
            None => Some(s.last()),
            Some(e) => if date_before(s.last(), e) { Some(s.last()) } else { Some(e) },
        }
    }
}

/// The latest date of the list: a later date replaces the current one only
/// when strictly after it.
pub open spec fn latest_of(s: Seq<(int, int, int)>) -> Option<(int, int, int)>
    decreases s.len(),
{
    if s.len() == 0 {
        None
    } else {
        match latest_of(s.drop_last()) {
            None => Some(s.last()),
            Some(l) => if date_before(l, s.last()) { Some(s.last()) } else { Some(l) },
        }
    }
}

/// The year table counts exactly the years in `vals`: a year is a key when it
/// occurs, and then maps to its number of occurrences.
pub open spec fn years_exactly(m: Map<i32, usize>, vals: Seq<int>) -> bool {
    forall|y: i32| #[trigger] m.contains_key(y) == vals.contains(y as int)
        && (m.contains_key(y) ==> m[y] == occ_year(vals, y as int))
}

proof fn lemma_occ_year_push(s: Seq<int>, x: int, y: int)
    ensures
        occ_year(s.push(x), y) == occ_year(s, y) + if x == y { 1nat } else { 0nat },
        s.push(x).contains(y) == (s.contains(y) || x == y),
{
    assert(s.push(x).drop_last() =~= s);
    if s.push(x).contains(y) {
        let k = choose|k: int| 0 <= k < s.len() + 1 && s.push(x)[k] == y;
        if k < s.len() {
            assert(s[k] == y);
        }
    }
    if s.contains(y) {
        let k = choose|k: int| 0 <= k < s.len() && s[k] == y;
        assert(s.push(x)[k] == y);
    }
    if x == y {
        assert(s.push(x)[s.len() as int] == y);
    }
}

proof fn lemma_occ_year_bound(s: Seq<int>, y: int)
    ensures
        occ_year(s, y) <= s.len(),
        !s.contains(y) ==> occ_year(s, y) == 0,
    decreases s.len(),
{
    if s.len() > 0 {
        lemma_occ_year_bound(s.drop_last(), y);
        lemma_occ_year_push(s.drop_last(), s.last(), y);
        assert(s.drop_last().push(s.last()) =~= s);
    }
}

/// Aggregate counts over a batch of records.
#[derive(Debug, Clone)]
pub struct AdrStatistics {
    pub total_count: usize,
    pub by_status: CountMap,
    pub by_category: CountMap,
    pub by_author: CountMap,
    pub by_tag: CountMap,
    pub by_technology: CountMap,
    pub by_project: CountMap,
    pub by_year: HashMap<i32, usize>,
    pub earliest_date: Option<Date>,
    pub latest_date: Option<Date>,
}

pub open spec fn date_opt(o: Option<Date>) -> Option<(int, int, int)> {
    match o {
        Some(d) => Some(d@),
        None => None,
    }
}

proof fn lemma_created_step(adrs: Seq<Adr>, i: int)
    requires
        0 <= i < adrs.len(),
    ensures
        created_dates(adrs.subrange(0, i + 1)) == match adrs[i].frontmatter.created {
            Some(d) => created_dates(adrs.subrange(0, i)).push(d@),
            None => created_dates(adrs.subrange(0, i)),
        },
{
    assert(adrs.subrange(0, i + 1).drop_last() =~= adrs.subrange(0, i));
}

proof fn lemma_created_len(adrs: Seq<Adr>)
    ensures
        created_dates(adrs).len() <= adrs.len(),
    decreases adrs.len(),
{
    if adrs.len() > 0 {
        lemma_created_len(adrs.drop_last());
    }
}

impl AdrStatistics {
    /// Totals and per-dimension counts of a batch: the status table lists all
    /// four statuses (zero counts included) in declaration order; the other
    /// tables count each value that occurs; years count the `created` dates;
    /// the earliest and latest `created` dates are both present or both absent.
    pub fn from_adrs(adrs: &[Adr]) -> (r: AdrStatistics)
        requires
            batch_fits(adrs@),
        ensures
            r.total_count == adrs@.len(),
            status_table_exact(r.by_status@, adrs@),
            crate::counts::keys_unique(r.by_status@),
            counts_exactly(r.by_category@, field_vals(adrs@, category_sel())),
            counts_exactly(r.by_author@, field_vals(adrs@, author_sel())),
            counts_exactly(r.by_project@, field_vals(adrs@, project_sel())),
            counts_exactly(r.by_tag@, field_vals(adrs@, tag_sel())),
            counts_exactly(r.by_technology@, field_vals(adrs@, technology_sel())),
            years_exactly(r.by_year@, created_years(adrs@)),
            date_opt(r.earliest_date) == earliest_of(created_dates(adrs@)),
            date_opt(r.latest_date) == latest_of(created_dates(adrs@)),
    {
        broadcast use vstd::std_specs::hash::group_hash_axioms;

        let by_status = status_counts(adrs);
        let (by_category, by_author, by_project, by_tag, by_technology) = field_counts(adrs);
        let mut by_year: HashMap<i32, usize> = HashMap::new();
        let mut earliest: Option<Date> = None;
        let mut latest: Option<Date> = None;
        let mut i: usize = 0;
        proof {
            assert(adrs@.subrange(0, 0) =~= Seq::<Adr>::empty());
            assert(created_years(Seq::<Adr>::empty()) =~= Seq::<int>::empty());
        }
        while i < adrs.len()
            invariant
                i <= adrs@.len(),
                years_exactly(by_year@, created_years(adrs@.subrange(0, i as int))),
                date_opt(earliest) == earliest_of(created_dates(adrs@.subrange(0, i as int))),
                date_opt(latest) == latest_of(created_dates(adrs@.subrange(0, i as int))),
            decreases adrs@.len() - i,
        {
            let ghost prev = created_dates(adrs@.subrange(0, i as int));
            proof {
                lemma_created_step(adrs@, i as int);
                lemma_created_len(adrs@.subrange(0, i as int));
            }
            match adrs[i].frontmatter.created {
                Some(created) => {
                    proof {
                        assert(prev.push(created@).drop_last() =~= prev);
                        assert(created_years(adrs@.subrange(0, i + 1)) =~= created_years(adrs@.subrange(0, i as int)).push(created@.0));
                    }
                    let y = created.year();
                    let ghost vals = created_years(adrs@.subrange(0, i as int));
                    proof {
                        lemma_occ_year_bound(vals, y as int);
                        assert(vals.len() == prev.len());
                    }
                    let c: usize = match by_year.get(&y) {
                        Some(c) => *c,
                        None => 0,
                    };
                    assert(c == occ_year(vals, y as int));
                    by_year.insert(y, c + 1);
                    proof {
                        assert forall|z: i32| #[trigger] by_year@.contains_key(z) == vals.push(y as int).contains(z as int)
                            && (by_year@.contains_key(z) ==> by_year@[z] == occ_year(vals.push(y as int), z as int)) by {
                            lemma_occ_year_push(vals, y as int, z as int);
                        }
                    }
                    match earliest {
                        None => {
                            earliest = Some(created);
                        },
                        Some(e) => {
                            if created.is_before(&e) {
                                earliest = Some(created);
                            }
                        },
                    }
                    match latest {
                        None => {
                            latest = Some(created);
                        },
                        Some(l) => {
                            if l.is_before(&created) {
                                latest = Some(created);
                            }
                        },
                    }
                },
                None => {},
            }
            i += 1;
        }
        assert(adrs@.subrange(0, adrs@.len() as int) =~= adrs@);
        AdrStatistics {
            total_count: adrs.len(),
            by_status,
            by_category,
            by_author,
            by_tag,
            by_technology,
            by_project,
            by_year,
            earliest_date: earliest,
            latest_date: latest,
        }
    }
}

/// Counts never increase along the list.
pub open spec fn counts_descending(l: Seq<(Seq<char>, usize)>) -> bool {
    forall|i: int, j: int| 0 <= i < j < l.len() ==> l[i].1 >= l[j].1
}

pub open spec fn pair_views(v: Seq<(String, usize)>) -> Seq<(Seq<char>, usize)> {
    v.map_values(|p: (String, usize)| (p.0@, p.1))
}

/// The entries of a table sorted by count, highest first; entries with equal
/// counts keep their table order.
fn sort_by_count(counts: &CountMap) -> (r: Vec<(String, usize)>)
    ensures
        counts_descending(pair_views(r@)),
        pair_views(r@).to_multiset() == entry_pairs(counts@).to_multiset(),
{
    broadcast use vstd::seq_lib::group_to_multiset_ensures;

    let entries = counts.entries();
    let ghost src = entry_pairs(counts@);
    let mut out: Vec<(String, usize)> = Vec::new();
    let mut i: usize = 0;
    proof {
        assert(pair_views(out@) =~= Seq::<(Seq<char>, usize)>::empty());
        assert(src.subrange(0, 0) =~= Seq::<(Seq<char>, usize)>::empty());
    }
    while i < entries.len()
        invariant
            i <= entries@.len(),
            entries@ == counts@,
            src == entry_pairs(counts@),
            counts_descending(pair_views(out@)),
            pair_views(out@).to_multiset() == src.subrange(0, i as int).to_multiset(),
        decreases entries@.len() - i,
    {
        let x = (entries[i].0.clone(), entries[i].1);
        let mut p: usize = 0;
        while p < out.len() && out[p].1 >= x.1
            invariant
                p <= out@.len(),
                forall|k: int| 0 <= k < p ==> (#[trigger] out@[k]).1 >= x.1,
            decreases out@.len() - p,
        {
            p += 1;
        }
        let ghost before = out@;
        out.insert(p, x);
        proof {
            assert(out@ =~= before.insert(p as int, x));
            assert(pair_views(out@) =~= pair_views(before).insert(p as int, (x.0@, x.1)));
            assert forall|a: int, b: int| 0 <= a < b < out@.len() implies out@[a].1 >= out@[b].1 by {
                if b < p {
                    assert(out@[a] == before[a] && out@[b] == before[b]);
                    assert(pair_views(before)[a].1 >= pair_views(before)[b].1);
                } else if b == p {
                    assert(out@[a] == before[a]);
                } else if a == p {
                    assert(out@[b] == before[b - 1]);
                    if p < before.len() {
                        assert(before[p as int].1 < x.1);
                        if b - 1 > p {
                            assert(pair_views(before)[p as int].1 >= pair_views(before)[b - 1].1);
                        }
                    }
                } else if a < p {
                    assert(out@[a] == before[a] && out@[b] == before[b - 1]);
                    assert(pair_views(before)[a].1 >= pair_views(before)[b - 1].1);
                } else {
                    assert(out@[a] == before[a - 1] && out@[b] == before[b - 1]);
                    assert(pair_views(before)[a - 1].1 >= pair_views(before)[b - 1].1);
                }
            }
            assert(entries@[i as int].0@ == x.0@);
            assert(src[i as int] == (x.0@, x.1));
            vstd::seq_lib::to_multiset_insert(pair_views(before), p as int, (x.0@, x.1));
            vstd::seq_lib::to_multiset_build(src.subrange(0, i as int), src[i as int]);
            assert(src.subrange(0, i + 1) =~= src.subrange(0, i as int).push(src[i as int]));
        }
        i += 1;
    }
    assert(src.subrange(0, entries@.len() as int) =~= src);
    out
}

impl AdrStatistics {
    /// The `n` entries of a table with the highest counts, highest first.
    /// Among entries with equal counts, which come first is not specified.
    pub fn top_n(counts: &CountMap, n: usize) -> (r: Vec<(String, usize)>)
        ensures
            r@.len() == if n < counts@.len() { n as int } else { counts@.len() as int },
            exists|l: Seq<(Seq<char>, usize)>| #[trigger] counts_descending(l)
                && l.to_multiset() == entry_pairs(counts@).to_multiset()
                && pair_views(r@) == l.take(r@.len() as int),
    {
        broadcast use vstd::seq_lib::group_to_multiset_ensures;

        let mut items = sort_by_count(counts);
        proof {
            vstd::seq_lib::to_multiset_len(pair_views(items@));
            vstd::seq_lib::to_multiset_len(entry_pairs(counts@));
        }
        let ghost l = pair_views(items@);
        items.truncate(n);
        assert(pair_views(items@) =~= l.take(items@.len() as int));
        items
    }
}

} // verus!
