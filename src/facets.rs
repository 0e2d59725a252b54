use vstd::prelude::*;

use crate::counts::{
    add_all, add_nonempty, counts_exactly, field_vals, keys_of, keys_unique, occ, owned, texts, CountMap,
};
use crate::record::Adr;
use crate::status::{status_name, Status};
use crate::text::chars_of;

verus! {

/// Lexicographic order on texts, by character.
#[verifier::opaque]
pub open spec fn lex_le(a: Seq<char>, b: Seq<char>) -> bool
    decreases a.len(),
{
    if a.len() == 0 {
        true
    } else if b.len() == 0 {
        false
    } else if a[0] != b[0] {
        a[0] < b[0]
    } else {
        lex_le(a.drop_first(), b.drop_first())
    }
}

/// Any two texts are ordered one way or the other.
pub proof fn lemma_lex_total(a: Seq<char>, b: Seq<char>)
    ensures
        lex_le(a, b) || lex_le(b, a),
    decreases a.len(),
{
    reveal_with_fuel(lex_le, 2);
    if a.len() > 0 && b.len() > 0 && a[0] == b[0] {
        lemma_lex_total(a.drop_first(), b.drop_first());
    }
}

/// Whether text `a` sorts before or with text `b`.
pub fn text_le(a: &str, b: &str) -> (r: bool)
    ensures
        r == lex_le(a@, b@),
{
    let x = chars_of(a);
    let y = chars_of(b);
    let mut i: usize = 0;
    assert(x@.subrange(0, x@.len() as int) =~= x@);
    assert(y@.subrange(0, y@.len() as int) =~= y@);
    while i < x.len() && i < y.len() && x[i] == y[i]
        invariant
            i <= x@.len(),
            i <= y@.len(),
            x@ == a@,
            y@ == b@,
            lex_le(a@, b@) == lex_le(x@.subrange(i as int, x@.len() as int), y@.subrange(i as int, y@.len() as int)),
        decreases x@.len() - i,
    {
        proof {
            reveal_with_fuel(lex_le, 2);
            let p = x@.subrange(i as int, x@.len() as int);
            let q = y@.subrange(i as int, y@.len() as int);
            assert(p.drop_first() =~= x@.subrange(i + 1, x@.len() as int));
            assert(q.drop_first() =~= y@.subrange(i + 1, y@.len() as int));
        }
        i += 1;
    }
    proof {
        reveal_with_fuel(lex_le, 2);
    }
    if i == x.len() {
        true
    } else if i == y.len() {
        false
    } else {
        x[i] < y[i]
    }
}

/// One value of a facet and how many records carry it.
#[derive(Debug, Clone)]
pub struct FacetValue {
    pub value: String,
    pub count: usize,
}

impl FacetValue {
    pub fn new(value: &str, count: usize) -> (r: FacetValue)
        ensures
            r.value@ == value@,
            r.count == count,
    {
        FacetValue { value: owned(value), count }
    }
}

/// Facet order: higher count first, then value ascending.
pub open spec fn facet_before(a: FacetValue, b: FacetValue) -> bool {
    a.count > b.count || (a.count == b.count && lex_le(a.value@, b.value@))
}

/// Each value sorts before or with the next one.
pub open spec fn facet_sorted(s: Seq<FacetValue>) -> bool {
    forall|i: int| 0 <= i < s.len() - 1 ==> facet_before(#[trigger] s[i], s[i + 1])
}

/// The (value, count) pairs of a facet list.
pub open spec fn facet_pairs(s: Seq<FacetValue>) -> Seq<(Seq<char>, usize)> {
    s.map_values(|f: FacetValue| (f.value@, f.count))
}

fn before(a: &FacetValue, b: &FacetValue) -> (r: bool)
    ensures
        r == facet_before(*a, *b),
{
    a.count > b.count || (a.count == b.count && text_le(a.value.as_str(), b.value.as_str()))
}

/// Sorts facet values by count descending, then value ascending. The result
/// holds the same (value, count) pairs as the input.
pub fn sort_facet_values(values: Vec<FacetValue>) -> (r: Vec<FacetValue>)
    ensures
        facet_sorted(r@),
        facet_pairs(r@).to_multiset() == facet_pairs(values@).to_multiset(),
{
    let mut out: Vec<FacetValue> = Vec::new();
    let mut i: usize = 0;
    let ghost src = facet_pairs(values@);
    proof {
        assert(facet_pairs(out@) =~= Seq::<(Seq<char>, usize)>::empty());
        assert(src.subrange(0, 0) =~= Seq::<(Seq<char>, usize)>::empty());
        broadcast use vstd::seq_lib::group_to_multiset_ensures;
    }
    while i < values.len()
        invariant
            i <= values@.len(),
            src == facet_pairs(values@),
            facet_sorted(out@),
            facet_pairs(out@).to_multiset() == src.subrange(0, i as int).to_multiset(),
        decreases values@.len() - i,
    {
        let x = FacetValue { value: values[i].value.clone(), count: values[i].count };
        let mut p: usize = 0;
        while p < out.len() && before(&out[p], &x)
            invariant
                p <= out@.len(),
                p > 0 ==> facet_before(out@[p - 1], x),
            decreases out@.len() - p,
        {
            p += 1;
        }
        proof {
            if p < out@.len() {
                lemma_lex_total(out@[p as int].value@, x.value@);
            }
        }
        let ghost before_ins = out@;
        out.insert(p, x);
        proof {
            assert(out@ =~= before_ins.insert(p as int, x));
            assert forall|k: int| 0 <= k < out@.len() - 1 implies facet_before(#[trigger] out@[k], out@[k + 1]) by {
                if k < p as int - 1 {
                    assert(out@[k] == before_ins[k] && out@[k + 1] == before_ins[k + 1]);
                } else if k == p as int - 1 {
                } else if k == p as int {
                } else {
                    assert(out@[k] == before_ins[k - 1] && out@[k + 1] == before_ins[k]);
                }
            }
            assert(facet_pairs(out@) =~= facet_pairs(before_ins).insert(p as int, (x.value@, x.count)));
            vstd::seq_lib::to_multiset_insert(facet_pairs(before_ins), p as int, (x.value@, x.count));
            vstd::seq_lib::to_multiset_build(src.subrange(0, i as int), src[i as int]);
            assert(src.subrange(0, i + 1) =~= src.subrange(0, i as int).push(src[i as int]));
        }
        i += 1;
    }
    assert(src.subrange(0, values@.len() as int) =~= src);
    out
}

} // verus!

verus! {

/// The (value, count) pairs of a table.
pub open spec fn entry_pairs(e: Seq<(String, usize)>) -> Seq<(Seq<char>, usize)> {
    e.map_values(|p: (String, usize)| (p.0@, p.1))
}

/// A sorted facet list for the values `vals`: each distinct value once, with
/// its number of occurrences.
pub open spec fn facet_exact(out: Seq<FacetValue>, vals: Seq<Seq<char>>) -> bool {
    &&& facet_sorted(out)
    &&& forall|i: int, j: int| 0 <= i < j < out.len() ==> out[i].value@ != out[j].value@
    &&& forall|i: int| 0 <= i < out.len() ==> (#[trigger] out[i]).count == occ(vals, out[i].value@)
        && vals.contains(out[i].value@)
    &&& forall|v: Seq<char>| vals.contains(v) ==> exists|i: int| 0 <= i < out.len() && (#[trigger] out[i]).value@ == v
}

/// Whether the table has an entry (`v`, `c`).
pub open spec fn has_entry(e: Seq<(String, usize)>, v: Seq<char>, c: usize) -> bool {
    exists|j: int| 0 <= j < e.len() && (#[trigger] e[j]).0@ == v && e[j].1 == c
}

/// Whether the facet list holds value `v` with count `c`.
pub open spec fn has_value(out: Seq<FacetValue>, v: Seq<char>, c: usize) -> bool {
    exists|i: int| 0 <= i < out.len() && (#[trigger] out[i]).value@ == v && out[i].count == c
}

proof fn lemma_same_pairs(out: Seq<FacetValue>, e: Seq<(String, usize)>)
    requires
        keys_unique(e),
        facet_pairs(out).to_multiset() == entry_pairs(e).to_multiset(),
    ensures
        forall|i: int, j: int| 0 <= i < j < out.len() ==> out[i].value@ != out[j].value@,
        forall|i: int| 0 <= i < out.len() ==> has_entry(e, (#[trigger] out[i]).value@, out[i].count),
        forall|j: int| 0 <= j < e.len() ==> has_value(out, (#[trigger] e[j]).0@, e[j].1),
{
    broadcast use vstd::seq_lib::group_to_multiset_ensures;

    let po = facet_pairs(out);
    let pe = entry_pairs(e);
    assert(pe.no_duplicates()) by {
        assert forall|i: int, j: int| 0 <= i < pe.len() && 0 <= j < pe.len() && i != j implies pe[i] != pe[j] by {
            if i < j {
                assert(e[i].0@ != e[j].0@);
            } else {
                assert(e[j].0@ != e[i].0@);
            }
        }
    }
    pe.lemma_multiset_has_no_duplicates();
    po.lemma_multiset_has_no_duplicates_conv();
    assert forall|i: int, j: int| 0 <= i < j < out.len() implies out[i].value@ != out[j].value@ by {
        if out[i].value@ == out[j].value@ {
            assert(po[i] == (out[i].value@, out[i].count));
            assert(pe.contains(po[i]) && pe.contains(po[j])) by {
                vstd::seq_lib::to_multiset_contains(po, po[i]);
                vstd::seq_lib::to_multiset_contains(pe, po[i]);
                vstd::seq_lib::to_multiset_contains(po, po[j]);
                vstd::seq_lib::to_multiset_contains(pe, po[j]);
            }
            let a = choose|a: int| 0 <= a < pe.len() && pe[a] == po[i];
            let b = choose|b: int| 0 <= b < pe.len() && pe[b] == po[j];
            if a != b {
                if a < b {
                    assert(e[a].0@ != e[b].0@);
                } else {
                    assert(e[b].0@ != e[a].0@);
                }
            }
            assert(po[i] == po[j]);
        }
    }
    assert forall|i: int| 0 <= i < out.len() implies has_entry(e, (#[trigger] out[i]).value@, out[i].count) by {
        assert(po[i] == (out[i].value@, out[i].count));
        vstd::seq_lib::to_multiset_contains(po, po[i]);
        vstd::seq_lib::to_multiset_contains(pe, po[i]);
        let a = choose|a: int| 0 <= a < pe.len() && pe[a] == po[i];
        assert(e[a].0@ == out[i].value@ && e[a].1 == out[i].count);
        assert(has_entry(e, out[i].value@, out[i].count));
    }
    assert forall|j: int| 0 <= j < e.len() implies has_value(out, (#[trigger] e[j]).0@, e[j].1) by {
        assert(pe[j] == (e[j].0@, e[j].1));
        vstd::seq_lib::to_multiset_contains(po, pe[j]);
        vstd::seq_lib::to_multiset_contains(pe, pe[j]);
        let a = choose|a: int| 0 <= a < po.len() && po[a] == pe[j];
        assert(e[j].0@ == out[a].value@ && e[j].1 == out[a].count);
        assert(has_value(out, e[j].0@, e[j].1));
    }
}

/// The table's entries as facet values, sorted by count descending, then value.
pub fn sorted_facet_values(counts: &CountMap) -> (r: Vec<FacetValue>)
    requires
        keys_unique(counts@),
    ensures
        facet_sorted(r@),
        forall|vals: Seq<Seq<char>>| counts_exactly(counts@, vals) ==> #[trigger] facet_exact(r@, vals),
        facet_pairs(r@).to_multiset() == entry_pairs(counts@).to_multiset(),
{
    let entries = counts.entries();
    let mut values: Vec<FacetValue> = Vec::new();
    let mut i: usize = 0;
    while i < entries.len()
        invariant
            i <= entries@.len(),
            entries@ == counts@,
            facet_pairs(values@) == entry_pairs(entries@).subrange(0, i as int),
        decreases entries@.len() - i,
    {
        let fv = FacetValue { value: entries[i].0.clone(), count: entries[i].1 };
        let ghost before = values@;
        values.push(fv);
        assert(values@ =~= before.push(fv));
        assert(facet_pairs(values@) =~= facet_pairs(before).push((entries@[i as int].0@, entries@[i as int].1)));
        assert(facet_pairs(values@) =~= entry_pairs(entries@).subrange(0, i + 1));
        i += 1;
    }
    assert(entry_pairs(entries@).subrange(0, entries@.len() as int) =~= entry_pairs(entries@));
    let r = sort_facet_values(values);
    proof {
        lemma_same_pairs(r@, counts@);
        assert forall|vals: Seq<Seq<char>>| counts_exactly(counts@, vals) implies #[trigger] facet_exact(r@, vals) by {
            let e = counts@;
            assert forall|i: int| 0 <= i < r@.len() implies (#[trigger] r@[i]).count == occ(vals, r@[i].value@)
                && vals.contains(r@[i].value@) by {
                assert(has_entry(e, r@[i].value@, r@[i].count));
                let j = choose|j: int| 0 <= j < e.len() && (#[trigger] e[j]).0@ == r@[i].value@ && e[j].1 == r@[i].count;
                assert(e[j].1 == occ(vals, e[j].0@));
                assert(vals.contains(e[j].0@));
            }
            assert forall|v: Seq<char>| vals.contains(v) implies exists|i: int| 0 <= i < r@.len() && (#[trigger] r@[i]).value@ == v by {
                assert(keys_of(e).contains(v));
                let j = choose|j: int| 0 <= j < e.len() && keys_of(e)[j] == v;
                assert(e[j].0@ == v);
                assert(has_value(r@, e[j].0@, e[j].1));
                let i = choose|i: int| 0 <= i < r@.len() && (#[trigger] r@[i]).value@ == e[j].0@ && r@[i].count == e[j].1;
                assert(r@[i].value@ == v);
            }
        }
    }
    r
}

/// A named dimension with its values, sorted.
#[derive(Debug, Clone)]
pub struct Facet {
    pub name: String,
    pub values: Vec<FacetValue>,
}

impl Facet {
    /// A facet with these values, sorted by count descending, then value.
    pub fn new(name: &str, values: Vec<FacetValue>) -> (r: Facet)
        ensures
            r.name@ == name@,
            facet_sorted(r.values@),
            facet_pairs(r.values@).to_multiset() == facet_pairs(values@).to_multiset(),
    {
        Facet { name: owned(name), values: sort_facet_values(values) }
    }

    /// A facet from a count table.
    pub fn from_counts(name: &str, counts: &CountMap) -> (r: Facet)
        requires
            keys_unique(counts@),
        ensures
            r.name@ == name@,
            facet_sorted(r.values@),
            facet_pairs(r.values@).to_multiset() == entry_pairs(counts@).to_multiset(),
    {
        Facet { name: owned(name), values: sorted_facet_values(counts) }
    }
}

} // verus!

verus! {

pub open spec fn status_sel() -> spec_fn(Adr) -> Seq<Seq<char>> {
    |a: Adr| seq![status_name(a.frontmatter.status)]
}

pub open spec fn category_sel() -> spec_fn(Adr) -> Seq<Seq<char>> {
    |a: Adr| crate::counts::nonempty(a.frontmatter.category@)
}

pub open spec fn author_sel() -> spec_fn(Adr) -> Seq<Seq<char>> {
    |a: Adr| crate::counts::nonempty(a.frontmatter.author@)
}

pub open spec fn project_sel() -> spec_fn(Adr) -> Seq<Seq<char>> {
    |a: Adr| crate::counts::nonempty(a.frontmatter.project@)
}

pub open spec fn tag_sel() -> spec_fn(Adr) -> Seq<Seq<char>> {
    |a: Adr| texts(a.frontmatter.tags@)
}

pub open spec fn technology_sel() -> spec_fn(Adr) -> Seq<Seq<char>> {
    |a: Adr| texts(a.frontmatter.technologies@)
}

/// The four statuses, in declaration order.
pub open spec fn all_statuses() -> Seq<Status> {
    seq![Status::Proposed, Status::Accepted, Status::Deprecated, Status::Superseded]
}

/// The status table of a batch: every status name, in declaration order, with
/// the number of records that have it (zero included).
pub open spec fn status_table_exact(e: Seq<(String, usize)>, adrs: Seq<Adr>) -> bool {
    &&& e.len() == 4
    &&& forall|k: int| 0 <= k < 4 ==> (#[trigger] e[k]).0@ == status_name(all_statuses()[k])
        && e[k].1 == occ(field_vals(adrs, status_sel()), status_name(all_statuses()[k]))
}

proof fn lemma_status_names_distinct()
    ensures
        forall|i: int, j: int| 0 <= i < j < 4 ==> status_name(all_statuses()[i]) != status_name(all_statuses()[j]),
{
    reveal_strlit("proposed");
    reveal_strlit("accepted");
    reveal_strlit("deprecated");
    reveal_strlit("superseded");
    assert("proposed"@[0] != "accepted"@[0]);
    assert("proposed"@[0] != "deprecated"@[0]);
    assert("proposed"@[0] != "superseded"@[0]);
    assert("accepted"@[0] != "deprecated"@[0]);
    assert("accepted"@[0] != "superseded"@[0]);
    assert("deprecated"@[0] != "superseded"@[0]);
}

/// Counts the status of every record; returns the table in declaration order.
pub fn status_counts(adrs: &[Adr]) -> (r: CountMap)
    ensures
        status_table_exact(r@, adrs@),
        keys_unique(r@),
{
    let mut c: [usize; 4] = [0, 0, 0, 0];
    let mut i: usize = 0;
    while i < adrs.len()
        invariant
            i <= adrs@.len(),
            forall|k: int| 0 <= k < 4 ==> c[k] == occ(field_vals(adrs@.subrange(0, i as int), status_sel()), status_name(#[trigger] all_statuses()[k])),
        decreases adrs@.len() - i,
    {
        let ghost prev = field_vals(adrs@.subrange(0, i as int), status_sel());
        proof {
            crate::counts::lemma_field_vals_step(adrs@, status_sel(), i as int);
            assert(field_vals(adrs@.subrange(0, i + 1), status_sel()) =~= prev.push(status_name(adrs@[i as int].frontmatter.status)));
            assert forall|k: int| 0 <= k < 4 implies occ(prev.push(status_name(adrs@[i as int].frontmatter.status)), status_name(#[trigger] all_statuses()[k]))
                == c[k] + if status_name(adrs@[i as int].frontmatter.status) == status_name(all_statuses()[k]) { 1nat } else { 0nat } by {
                crate::counts::lemma_occ_push(prev, status_name(adrs@[i as int].frontmatter.status), status_name(all_statuses()[k]));
            }
            crate::counts::lemma_occ_bound(prev, status_name(adrs@[i as int].frontmatter.status));
            lemma_status_names_distinct();
        }
        let k: usize = match adrs[i].frontmatter.status {
            Status::Proposed => 0,
            Status::Accepted => 1,
            Status::Deprecated => 2,
            Status::Superseded => 3,
        };
        assert(all_statuses()[k as int] == adrs@[i as int].frontmatter.status);
        proof {
            crate::counts::lemma_occ_bound(prev, status_name(all_statuses()[k as int]));
            assert forall|a: Adr| #[trigger] status_sel()(a).len() <= 1 by {}
            crate::counts::lemma_single_valued_len(adrs@.subrange(0, i as int), status_sel());
        }
        assert(c[k as int] <= i);
        c[k] = c[k] + 1;
        i += 1;
    }
    assert(adrs@.subrange(0, adrs@.len() as int) =~= adrs@);
    let entries = vec![
        (owned(Status::Proposed.as_str()), c[0]),
        (owned(Status::Accepted.as_str()), c[1]),
        (owned(Status::Deprecated.as_str()), c[2]),
        (owned(Status::Superseded.as_str()), c[3]),
    ];
    proof {
        lemma_status_names_distinct();
        assert forall|k: int| 0 <= k < 4 implies (#[trigger] entries@[k]).0@ == status_name(all_statuses()[k]) by {}
    }
    CountMap::from_entries(entries)
}

} // verus!

verus! {

/// No dimension of the batch has more values than a `usize` counts.
pub open spec fn batch_fits(adrs: Seq<Adr>) -> bool {
    &&& field_vals(adrs, tag_sel()).len() < usize::MAX
    &&& field_vals(adrs, technology_sel()).len() < usize::MAX
}

proof fn lemma_prefix_vals_len(adrs: Seq<Adr>, sel: spec_fn(Adr) -> Seq<Seq<char>>, i: int)
    requires
        0 <= i <= adrs.len(),
    ensures
        field_vals(adrs.subrange(0, i), sel).len() <= field_vals(adrs, sel).len(),
    decreases adrs.len() - i,
{
    if i < adrs.len() {
        lemma_prefix_vals_len(adrs, sel, i + 1);
        crate::counts::lemma_field_vals_step(adrs, sel, i);
    } else {
        assert(adrs.subrange(0, i) =~= adrs);
    }
}

/// Value tables of the five free-text dimensions, in one pass over the batch:
/// (category, author, project, tag, technology).
pub fn field_counts(adrs: &[Adr]) -> (r: (CountMap, CountMap, CountMap, CountMap, CountMap))
    requires
        batch_fits(adrs@),
    ensures
        counts_exactly(r.0@, field_vals(adrs@, category_sel())),
        counts_exactly(r.1@, field_vals(adrs@, author_sel())),
        counts_exactly(r.2@, field_vals(adrs@, project_sel())),
        counts_exactly(r.3@, field_vals(adrs@, tag_sel())),
        counts_exactly(r.4@, field_vals(adrs@, technology_sel())),
{
    let mut categories = CountMap::new();
    let mut authors = CountMap::new();
    let mut projects = CountMap::new();
    let mut tags = CountMap::new();
    let mut technologies = CountMap::new();
    let mut i: usize = 0;
    proof {
        assert(adrs@.subrange(0, 0) =~= Seq::<Adr>::empty());
    }
    while i < adrs.len()
        invariant
            i <= adrs@.len(),
            batch_fits(adrs@),
            counts_exactly(categories@, field_vals(adrs@.subrange(0, i as int), category_sel())),
            counts_exactly(authors@, field_vals(adrs@.subrange(0, i as int), author_sel())),
            counts_exactly(projects@, field_vals(adrs@.subrange(0, i as int), project_sel())),
            counts_exactly(tags@, field_vals(adrs@.subrange(0, i as int), tag_sel())),
            counts_exactly(technologies@, field_vals(adrs@.subrange(0, i as int), technology_sel())),
        decreases adrs@.len() - i,
    {
        let adr = &adrs[i];
        proof {
            crate::counts::lemma_field_vals_step(adrs@, category_sel(), i as int);
            crate::counts::lemma_field_vals_step(adrs@, author_sel(), i as int);
            crate::counts::lemma_field_vals_step(adrs@, project_sel(), i as int);
            crate::counts::lemma_field_vals_step(adrs@, tag_sel(), i as int);
            crate::counts::lemma_field_vals_step(adrs@, technology_sel(), i as int);
            lemma_prefix_vals_len(adrs@, tag_sel(), i + 1);
            lemma_prefix_vals_len(adrs@, technology_sel(), i + 1);
            assert forall|a: Adr| #[trigger] category_sel()(a).len() <= 1 by {}
            assert forall|a: Adr| #[trigger] author_sel()(a).len() <= 1 by {}
            assert forall|a: Adr| #[trigger] project_sel()(a).len() <= 1 by {}
            crate::counts::lemma_single_valued_len(adrs@.subrange(0, i as int), category_sel());
            crate::counts::lemma_single_valued_len(adrs@.subrange(0, i as int), author_sel());
            crate::counts::lemma_single_valued_len(adrs@.subrange(0, i as int), project_sel());
        }
        add_nonempty(&mut categories, adr.frontmatter.category.as_str(), Ghost(field_vals(adrs@.subrange(0, i as int), category_sel())));
        add_nonempty(&mut authors, adr.frontmatter.author.as_str(), Ghost(field_vals(adrs@.subrange(0, i as int), author_sel())));
        add_nonempty(&mut projects, adr.frontmatter.project.as_str(), Ghost(field_vals(adrs@.subrange(0, i as int), project_sel())));
        add_all(&mut tags, adr.frontmatter.tags.as_slice(), Ghost(field_vals(adrs@.subrange(0, i as int), tag_sel())));
        add_all(&mut technologies, adr.frontmatter.technologies.as_slice(), Ghost(field_vals(adrs@.subrange(0, i as int), technology_sel())));
        i += 1;
    }
    assert(adrs@.subrange(0, adrs@.len() as int) =~= adrs@);
    (categories, authors, projects, tags, technologies)
}

/// The six facet dimensions of a batch, each sorted by count descending, then value.
#[derive(Debug, Clone)]
pub struct Facets {
    pub statuses: Vec<FacetValue>,
    pub categories: Vec<FacetValue>,
    pub tags: Vec<FacetValue>,
    pub authors: Vec<FacetValue>,
    pub projects: Vec<FacetValue>,
    pub technologies: Vec<FacetValue>,
}

impl Facets {
    /// Counts every dimension over the batch. Statuses list all four, zero
    /// counts included; the other dimensions list each value that occurs, with
    /// empty texts contributing nothing and list fields one count per element.
    pub fn from_adrs(adrs: &[Adr]) -> (r: Facets)
        requires
            batch_fits(adrs@),
        ensures
            facet_sorted(r.statuses@),
            r.statuses@.len() == 4,
            forall|k: int| 0 <= k < 4 ==> has_value(r.statuses@, status_name(#[trigger] all_statuses()[k]),
                occ(field_vals(adrs@, status_sel()), status_name(all_statuses()[k])) as usize),
            facet_exact(r.categories@, field_vals(adrs@, category_sel())),
            facet_exact(r.tags@, field_vals(adrs@, tag_sel())),
            facet_exact(r.authors@, field_vals(adrs@, author_sel())),
            facet_exact(r.projects@, field_vals(adrs@, project_sel())),
            facet_exact(r.technologies@, field_vals(adrs@, technology_sel())),
    {
        let statuses = status_counts(adrs);
        let (categories, authors, projects, tags, technologies) = field_counts(adrs);
        let s = sorted_facet_values(&statuses);
        proof {
            lemma_same_pairs(s@, statuses@);
            vstd::seq_lib::to_multiset_len(facet_pairs(s@));
            vstd::seq_lib::to_multiset_len(entry_pairs(statuses@));
            assert forall|k: int| 0 <= k < 4 implies has_value(s@, status_name(#[trigger] all_statuses()[k]),
                occ(field_vals(adrs@, status_sel()), status_name(all_statuses()[k])) as usize) by {
                assert(has_value(s@, statuses@[k].0@, statuses@[k].1));
            }
        }
        let c = sorted_facet_values(&categories);
        let t = sorted_facet_values(&tags);
        let a = sorted_facet_values(&authors);
        let p = sorted_facet_values(&projects);
        let te = sorted_facet_values(&technologies);
        Facets { statuses: s, categories: c, tags: t, authors: a, projects: p, technologies: te }
    }
}

/// A value repeated `M` times across a batch's values is reported with count
/// `M` both by its facet list and by its count table, which hold the same
/// values.
pub proof fn lemma_counts_agree(out: Seq<FacetValue>, e: Seq<(String, usize)>, vals: Seq<Seq<char>>, v: Seq<char>)
    requires
        facet_exact(out, vals),
        counts_exactly(e, vals),
        vals.contains(v),
    ensures
        has_value(out, v, occ(vals, v) as usize),
        crate::counts::count_of(e, v) == Some(occ(vals, v) as usize),
{
    let i = choose|i: int| 0 <= i < out.len() && (#[trigger] out[i]).value@ == v;
    assert(out[i].count == occ(vals, out[i].value@));
    assert(keys_of(e).contains(v));
    let j = choose|j: int| 0 <= j < e.len() && keys_of(e)[j] == v;
    assert(e[j].0@ == v);
    assert(e[j].1 == occ(vals, e[j].0@));
    let k = choose|k: int| 0 <= k < e.len() && #[trigger] e[k].0@ == v;
    if k != j {
        if k < j {
            assert(e[k].0@ != e[j].0@);
        } else {
            assert(e[j].0@ != e[k].0@);
        }
    }
}

} // verus!
