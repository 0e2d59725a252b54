use vstd::prelude::*;

use crate::counts::lemma_push_contains;
use crate::record::Adr;
use crate::status::{status_name, Status};
use crate::text::{chars_of, string_of, sub_chars, text_eq};

verus! {

/// A graph node: a record, or a placeholder for a reference to no record.
#[derive(Debug, Clone)]
pub struct Node {
    pub id: String,
    pub status: String,
    pub title: Option<String>,
}

/// Kind of a relationship between two records.
#[derive(Debug, Clone, Copy, PartialEq, Eq, Structural)]
pub enum EdgeType {
    Related,
    Supersedes,
}

/// A directed relationship from `source` to `target`.
#[derive(Debug, Clone)]
pub struct Edge {
    pub source: String,
    pub target: String,
    pub edge_type: EdgeType,
}

/// Nodes and edges built from a batch of records.
#[derive(Debug, Clone)]
pub struct Graph {
    pub nodes: Vec<Node>,
    pub edges: Vec<Edge>,
}

impl EdgeType {
    pub fn as_str(&self) -> (r: &'static str)
        ensures
            *self == EdgeType::Related ==> r@ == "related"@,
            *self == EdgeType::Supersedes ==> r@ == "supersedes"@,
    {
        match self {
            EdgeType::Related => "related",
            EdgeType::Supersedes => "supersedes",
        }
    }
}

fn text_of(s: &str) -> (r: String)
    ensures
        r@ == s@,
{
    <String as vstd::string::StringExecFns>::from_str(s)
}

impl Node {
    /// The node of a record: its identifier, status name and title.
    pub fn from_adr(adr: &Adr) -> (r: Node)
        ensures
            r.id@ == adr.id@,
            r.status@ == status_name(adr.frontmatter.status),
            r.title matches Some(t) && t@ == adr.frontmatter.title@,
    {
        Node {
            id: adr.id.to_string(),
            status: text_of(adr.frontmatter.status.as_str()),
            title: Some(adr.frontmatter.title.clone()),
        }
    }

    /// The node standing for a referenced identifier that no record has.
    pub fn placeholder(id: &str) -> (r: Node)
        ensures
            r.id@ == id@,
            r.status@ == status_name(Status::Proposed),
            r.title is None,
    {
        Node { id: text_of(id), status: text_of(Status::Proposed.as_str()), title: None }
    }
}

impl Edge {
    pub fn new(source: &str, target: &str, edge_type: EdgeType) -> (r: Edge)
        ensures
            r.source@ == source@,
            r.target@ == target@,
            r.edge_type == edge_type,
    {
        Edge { source: text_of(source), target: text_of(target), edge_type }
    }

    pub fn related(source: &str, target: &str) -> (r: Edge)
        ensures
            r.source@ == source@,
            r.target@ == target@,
            r.edge_type == EdgeType::Related,
    {
        Edge::new(source, target, EdgeType::Related)
    }

    pub fn supersedes(source: &str, target: &str) -> (r: Edge)
        ensures
            r.source@ == source@,
            r.target@ == target@,
            r.edge_type == EdgeType::Supersedes,
    {
        Edge::new(source, target, EdgeType::Supersedes)
    }
}

/// The identifier a reference names: the reference without a trailing `.md`.
pub open spec fn ref_target(r: Seq<char>) -> Seq<char> {
    if r.len() >= 3 && r.subrange(r.len() - 3, r.len() as int) == seq!['.', 'm', 'd'] {
        r.subrange(0, r.len() - 3)
    } else {
        r
    }
}

/// The identifier named by a reference: `.md` is stripped when it ends the reference.
pub fn extract_id_from_ref(reference: &str) -> (r: String)
    ensures
        r@ == ref_target(reference@),
{
    let v = chars_of(reference);
    let n = v.len();
    if n >= 3 && v[n - 3] == '.' && v[n - 2] == 'm' && v[n - 1] == 'd' {
        assert(v@.subrange(n - 3, n as int) =~= seq!['.', 'm', 'd']);
        string_of(sub_chars(v.as_slice(), 0, n - 3).as_slice())
    } else {
        proof {
            if n >= 3 {
                let w = v@.subrange(n - 3, n as int);
                if w == seq!['.', 'm', 'd'] {
                    assert(w[0] == v@[n - 3] && w[1] == v@[n - 2] && w[2] == v@[n - 1]);
                }
            }
        }
        string_of(v.as_slice())
    }
}

/// Identifiers of the records, in batch order.
pub open spec fn ids_of(adrs: Seq<Adr>) -> Seq<Seq<char>> {
    adrs.map_values(|a: Adr| a.id@)
}

/// The targets one record references, in order.
pub open spec fn targets_one(a: Adr) -> Seq<Seq<char>> {
    a.frontmatter.related@.map_values(|r: String| ref_target(r@))
}

/// Every referenced target, record by record, duplicates kept.
pub open spec fn targets_of(adrs: Seq<Adr>) -> Seq<Seq<char>>
    decreases adrs.len(),
{
    if adrs.len() == 0 {
        Seq::empty()
    } else {
        targets_of(adrs.drop_last()) + targets_one(adrs.last())
    }
}

/// The (source, target) pairs one record's references give.
pub open spec fn edges_one(a: Adr) -> Seq<(Seq<char>, Seq<char>)> {
    a.frontmatter.related@.map_values(|r: String| (a.id@, ref_target(r@)))
}

/// Every reference edge of the batch as (source, target), record by record.
pub open spec fn edges_of(adrs: Seq<Adr>) -> Seq<(Seq<char>, Seq<char>)>
    decreases adrs.len(),
{
    if adrs.len() == 0 {
        Seq::empty()
    } else {
        edges_of(adrs.drop_last()) + edges_one(adrs.last())
    }
}

/// Total number of references across the batch.
pub open spec fn related_total(adrs: Seq<Adr>) -> int
    decreases adrs.len(),
{
    if adrs.len() == 0 {
        0
    } else {
        related_total(adrs.drop_last()) + adrs.last().frontmatter.related@.len()
    }
}

/// `s` with every element after its first occurrence removed.
pub open spec fn dedup(s: Seq<Seq<char>>) -> Seq<Seq<char>>
    decreases s.len(),
{
    if s.len() == 0 {
        s
    } else {
        let p = dedup(s.drop_last());
        if p.contains(s.last()) {
            p
        } else {
            p.push(s.last())
        }
    }
}

/// The identifiers of the graph's nodes, in order: record identifiers, then
/// referenced targets, each kept at its first occurrence.
pub open spec fn node_ids(adrs: Seq<Adr>) -> Seq<Seq<char>> {
    dedup(ids_of(adrs) + targets_of(adrs))
}

/// Index of the first record with identifier `x`, searching from `i`.
pub open spec fn first_with_id(adrs: Seq<Adr>, x: Seq<char>, i: int) -> Option<int>
    decreases adrs.len() - i,
{
    if i < 0 || i >= adrs.len() {
        None
    } else if adrs[i].id@ == x {
        Some(i)
    } else {
        first_with_id(adrs, x, i + 1)
    }
}

/// A node is the node of the first record with its identifier, or a
/// placeholder when no record has it.
pub open spec fn node_fits(n: Node, adrs: Seq<Adr>) -> bool {
    match first_with_id(adrs, n.id@, 0) {
        Some(i) => n.status@ == status_name(adrs[i].frontmatter.status)
            && (n.title matches Some(t) && t@ == adrs[i].frontmatter.title@),
        None => n.status@ == status_name(Status::Proposed) && n.title is None,
    }
}

/// The identifiers of records in the batch that reference outside it, as a set.
pub open spec fn outside_targets(adrs: Seq<Adr>) -> Set<Seq<char>> {
    targets_of(adrs).to_set().filter(|t: Seq<char>| !ids_of(adrs).contains(t))
}

proof fn lemma_first_with_id_at(adrs: Seq<Adr>, x: Seq<char>, i: int, k: int)
    requires
        0 <= i <= k < adrs.len(),
        adrs[k].id@ == x,
        forall|j: int| i <= j < k ==> adrs[j].id@ != x,
    ensures
        first_with_id(adrs, x, i) == Some(k),
    decreases k - i,
{
    if i < k {
        lemma_first_with_id_at(adrs, x, i + 1, k);
    }
}

proof fn lemma_first_with_id_none(adrs: Seq<Adr>, x: Seq<char>, i: int)
    requires
        0 <= i,
        forall|j: int| i <= j < adrs.len() ==> adrs[j].id@ != x,
    ensures
        first_with_id(adrs, x, i) is None,
    decreases adrs.len() - i,
{
    if i < adrs.len() {
        lemma_first_with_id_none(adrs, x, i + 1);
    }
}

proof fn lemma_dedup_contains(s: Seq<Seq<char>>, x: Seq<char>)
    ensures
        dedup(s).contains(x) == s.contains(x),
    decreases s.len(),
{
    if s.len() > 0 {
        let t = s.drop_last();
        let l = s.last();
        assert(t.push(l) =~= s);
        lemma_dedup_contains(t, x);
        lemma_dedup_contains(t, l);
        lemma_push_contains(t, l, x);
        lemma_push_contains(dedup(t), l, x);
    }
}

proof fn lemma_dedup_no_dup(s: Seq<Seq<char>>)
    ensures
        dedup(s).no_duplicates(),
    decreases s.len(),
{
    if s.len() > 0 {
        lemma_dedup_no_dup(s.drop_last());
    }
}

proof fn lemma_dedup_push(s: Seq<Seq<char>>, x: Seq<char>)
    ensures
        dedup(s.push(x)) == if dedup(s).contains(x) { dedup(s) } else { dedup(s).push(x) },
{
    assert(s.push(x).drop_last() =~= s);
}

fn position_of(nodes: &Vec<Node>, x: &str) -> (r: bool)
    ensures
        r == nodes@.map_values(|n: Node| n.id@).contains(x@),
{
    let mut i: usize = 0;
    while i < nodes.len()
        invariant
            i <= nodes@.len(),
            forall|j: int| 0 <= j < i ==> nodes@[j].id@ != x@,
        decreases nodes@.len() - i,
    {
        if text_eq(nodes[i].id.as_str(), x) {
            assert(nodes@.map_values(|n: Node| n.id@)[i as int] == x@);
            return true;
        }
        i += 1;
    }
    proof {
        let ns = nodes@.map_values(|n: Node| n.id@);
        if ns.contains(x@) {
            let k = choose|k: int| 0 <= k < ns.len() && ns[k] == x@;
            assert(nodes@[k].id@ == x@);
        }
    }
    false
}

pub open spec fn id_seq(nodes: Seq<Node>) -> Seq<Seq<char>> {
    nodes.map_values(|n: Node| n.id@)
}

pub open spec fn pair_seq(edges: Seq<Edge>) -> Seq<(Seq<char>, Seq<char>)> {
    edges.map_values(|e: Edge| (e.source@, e.target@))
}

proof fn lemma_prefix_step(adrs: Seq<Adr>, i: int)
    requires
        0 <= i < adrs.len(),
    ensures
        targets_of(adrs.subrange(0, i + 1)) == targets_of(adrs.subrange(0, i)) + targets_one(adrs[i]),
        edges_of(adrs.subrange(0, i + 1)) == edges_of(adrs.subrange(0, i)) + edges_one(adrs[i]),
        related_total(adrs.subrange(0, i + 1)) == related_total(adrs.subrange(0, i)) + adrs[i].frontmatter.related@.len(),
{
    assert(adrs.subrange(0, i + 1).drop_last() =~= adrs.subrange(0, i));
}

proof fn lemma_edges_len(adrs: Seq<Adr>)
    ensures
        edges_of(adrs).len() == related_total(adrs),
    decreases adrs.len(),
{
    if adrs.len() > 0 {
        lemma_edges_len(adrs.drop_last());
    }
}

/// With distinct record identifiers, the graph has one node per record plus
/// one per distinct identifier referenced from outside the batch, and one edge
/// per reference, duplicates included.
pub proof fn lemma_graph_counts(adrs: Seq<Adr>)
    requires
        ids_of(adrs).no_duplicates(),
    ensures
        node_ids(adrs).len() == adrs.len() + outside_targets(adrs).len(),
        edges_of(adrs).len() == related_total(adrs),
{
    broadcast use vstd::set::group_set_axioms, vstd::seq_lib::seq_to_set_is_finite;

    lemma_edges_len(adrs);
    let ids = ids_of(adrs);
    let all = ids + targets_of(adrs);
    let d = dedup(all);
    lemma_dedup_no_dup(all);
    d.unique_seq_to_set();
    ids.unique_seq_to_set();
    let a = ids.to_set();
    let b = outside_targets(adrs);
    assert forall|x: Seq<char>| d.to_set().contains(x) == (a + b).contains(x) by {
        lemma_dedup_contains(all, x);
        if all.contains(x) {
            let k = choose|k: int| 0 <= k < all.len() && all[k] == x;
            if k < ids.len() {
                assert(ids[k] == x);
            } else {
                assert(targets_of(adrs)[k - ids.len()] == x);
            }
        }
        if ids.contains(x) {
            let k = choose|k: int| 0 <= k < ids.len() && ids[k] == x;
            assert(all[k] == x);
        }
        if targets_of(adrs).contains(x) {
            let k = choose|k: int| 0 <= k < targets_of(adrs).len() && targets_of(adrs)[k] == x;
            assert(all[ids.len() + k] == x);
        }
    }
    assert(d.to_set() =~= a + b);
    assert(b.finite()) by {
        targets_of(adrs).to_set().lemma_len_filter(|t: Seq<char>| !ids.contains(t));
    }
    assert(a.disjoint(b));
    vstd::set_lib::lemma_set_disjoint_lens(a, b);
}

impl Graph {
    /// Builds the relationship graph of a batch: one node per record identifier
    /// (the first record with it wins), one `Related` edge per reference, and a
    /// placeholder node for each referenced identifier that no record has,
    /// once, in order of first reference.
    pub fn from_adrs(adrs: &[Adr]) -> (r: Graph)
        ensures
            id_seq(r.nodes@) == node_ids(adrs@),
            forall|k: int| 0 <= k < r.nodes@.len() ==> node_fits(#[trigger] r.nodes@[k], adrs@),
            pair_seq(r.edges@) == edges_of(adrs@),
            forall|k: int| 0 <= k < r.edges@.len() ==> (#[trigger] r.edges@[k]).edge_type == EdgeType::Related,
    {
        let ghost all = adrs@;
        let ghost ids = ids_of(adrs@);
        let mut nodes: Vec<Node> = Vec::new();
        let mut i: usize = 0;
        while i < adrs.len()
            invariant
                i <= adrs@.len(),
                all == adrs@,
                ids == ids_of(all),
                id_seq(nodes@) == dedup(ids.subrange(0, i as int)),
                forall|k: int| 0 <= k < nodes@.len() ==> node_fits(#[trigger] nodes@[k], all),
            decreases adrs@.len() - i,
        {
            let adr = &adrs[i];
            proof {
                assert(ids.subrange(0, i + 1) =~= ids.subrange(0, i as int).push(ids[i as int]));
                lemma_dedup_push(ids.subrange(0, i as int), ids[i as int]);
            }
            if !position_of(&nodes, adr.id.as_str()) {
                proof {
                    lemma_dedup_contains(ids.subrange(0, i as int), adr.id@);
                    assert forall|j: int| 0 <= j < i implies all[j].id@ != adr.id@ by {
                        assert(ids.subrange(0, i as int)[j] == all[j].id@);
                    }
                    lemma_first_with_id_at(all, adr.id@, 0, i as int);
                }
                let n = Node::from_adr(adr);
                let ghost before = nodes@;
                nodes.push(n);
                assert(id_seq(nodes@) =~= id_seq(before).push(adr.id@));
            }
            i += 1;
        }
        assert(ids.subrange(0, adrs@.len() as int) =~= ids);
        let mut edges: Vec<Edge> = Vec::new();
        let mut i: usize = 0;
        assert(all.subrange(0, 0) =~= Seq::<Adr>::empty());
        assert(ids + targets_of(all.subrange(0, 0)) =~= ids);
        while i < adrs.len()
            invariant
                i <= adrs@.len(),
                all == adrs@,
                ids == ids_of(all),
                id_seq(nodes@) == dedup(ids + targets_of(all.subrange(0, i as int))),
                forall|k: int| 0 <= k < nodes@.len() ==> node_fits(#[trigger] nodes@[k], all),
                pair_seq(edges@) == edges_of(all.subrange(0, i as int)),
                forall|k: int| 0 <= k < edges@.len() ==> (#[trigger] edges@[k]).edge_type == EdgeType::Related,
            decreases adrs@.len() - i,
        {
            let adr = &adrs[i];
            let refs = adr.frontmatter.related.as_slice();
            let ghost base = ids + targets_of(all.subrange(0, i as int));
            let ghost ebase = edges_of(all.subrange(0, i as int));
            let mut j: usize = 0;
            assert(targets_one(*adr).subrange(0, 0) =~= Seq::<Seq<char>>::empty());
            assert(base + targets_one(*adr).subrange(0, 0) =~= base);
            assert(ebase + edges_one(*adr).subrange(0, 0) =~= ebase);
            while j < refs.len()
                invariant
                    i < adrs@.len(),
                    all == adrs@,
                    ids == ids_of(all),
                    *adr == all[i as int],
                    refs@ == adr.frontmatter.related@,
                    j <= refs@.len(),
                    base == ids + targets_of(all.subrange(0, i as int)),
                    ebase == edges_of(all.subrange(0, i as int)),
                    id_seq(nodes@) == dedup(base + targets_one(*adr).subrange(0, j as int)),
                    forall|k: int| 0 <= k < nodes@.len() ==> node_fits(#[trigger] nodes@[k], all),
                    pair_seq(edges@) == ebase + edges_one(*adr).subrange(0, j as int),
                    forall|k: int| 0 <= k < edges@.len() ==> (#[trigger] edges@[k]).edge_type == EdgeType::Related,
                decreases refs@.len() - j,
            {
                let target = extract_id_from_ref(refs[j].as_str());
                let ghost cur = base + targets_one(*adr).subrange(0, j as int);
                proof {
                    assert(base + targets_one(*adr).subrange(0, j + 1) =~= cur.push(target@));
                    lemma_dedup_push(cur, target@);
                    assert(ebase + edges_one(*adr).subrange(0, j + 1) =~= (ebase + edges_one(*adr).subrange(0, j as int)).push((adr.id@, target@)));
                }
                let e = Edge::related(adr.id.as_str(), target.as_str());
                let ghost ebefore = edges@;
                edges.push(e);
                assert(pair_seq(edges@) =~= pair_seq(ebefore).push((adr.id@, target@)));
                if !position_of(&nodes, target.as_str()) {
                    proof {
                        lemma_dedup_contains(cur, target@);
                        assert forall|m: int| 0 <= m < all.len() implies all[m].id@ != target@ by {
                            assert(ids[m] == all[m].id@);
                            assert(cur[m] == ids[m]);
                        }
                        lemma_first_with_id_none(all, target@, 0);
                    }
                    let n = Node::placeholder(target.as_str());
                    let ghost before = nodes@;
                    nodes.push(n);
                    assert(id_seq(nodes@) =~= id_seq(before).push(target@));
                }
                j += 1;
            }
            proof {
                lemma_prefix_step(all, i as int);
                assert(targets_one(*adr).subrange(0, refs@.len() as int) =~= targets_one(*adr));
                assert(edges_one(*adr).subrange(0, refs@.len() as int) =~= edges_one(*adr));
                assert(base + targets_one(*adr) =~= ids + targets_of(all.subrange(0, i + 1)));
            }
            i += 1;
        }
        assert(all.subrange(0, all.len() as int) =~= all);
        Graph { nodes, edges }
    }

    pub fn new() -> (r: Graph)
        ensures
            r.nodes@.len() == 0,
            r.edges@.len() == 0,
    {
        Graph { nodes: Vec::new(), edges: Vec::new() }
    }

    pub fn node_count(&self) -> (r: usize)
        ensures
            r == self.nodes@.len(),
    {
        self.nodes.len()
    }

    pub fn edge_count(&self) -> (r: usize)
        ensures
            r == self.edges@.len(),
    {
        self.edges.len()
    }

    pub fn is_empty(&self) -> (r: bool)
        ensures
            r == (self.nodes@.len() == 0),
    {
        self.nodes.len() == 0
    }
}

impl Default for Graph {
    fn default() -> (r: Graph)
        ensures
            r.nodes@.len() == 0,
            r.edges@.len() == 0,
    {
        Graph::new()
    }
}

} // verus!
