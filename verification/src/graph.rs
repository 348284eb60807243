//! The rate graph: for every asset, the ordered list of conversions out of it.
//!
//! The graph is built once, vertex by vertex and edge by edge, and afterwards
//! only the rate and the quantity of existing edges change.

use vstd::prelude::*;
use crate::decimal::{Dec, DecView};

verus! {

/// A conversion into the asset `to`: `rate` units of `to` are obtained per
/// unit of the source asset, fees included, and at most `quantity` units of
/// `to` can be obtained at that rate.
#[derive(Debug)]
pub struct Edge {
    pub to: String,
    pub rate: Dec,
    pub quantity: Dec,
}

/// The mathematical content of an [`Edge`].
pub struct EdgeView {
    pub to: Seq<char>,
    pub rate: DecView,
    pub quantity: DecView,
}

impl View for Edge {
    type V = EdgeView;

    open spec fn view(&self) -> EdgeView {
        EdgeView { to: self.to@, rate: self.rate@, quantity: self.quantity@ }
    }
}

/// The views of a list of edges, in the same order.
pub open spec fn edge_views(edges: Seq<Edge>) -> Seq<EdgeView> {
    edges.map_values(|e: Edge| e@)
}

/// The index of the first edge at or after `k` that leads to `to`, or the
/// length of the list where there is none.
pub open spec fn first_edge_from(edges: Seq<EdgeView>, to: Seq<char>, k: int) -> int
    decreases edges.len() - k,
{
    if k < 0 || k >= edges.len() {
        edges.len() as int
    } else if edges[k].to == to {
        k
    } else {
        first_edge_from(edges, to, k + 1)
    }
}

/// The index of the first edge that leads to `to`, or the length of the list
/// where there is none.
pub open spec fn first_edge_to(edges: Seq<EdgeView>, to: Seq<char>) -> int {
    first_edge_from(edges, to, 0)
}

/// `first_edge_from` finds an edge to `to` and skips none.
pub proof fn lemma_first_edge_from(edges: Seq<EdgeView>, to: Seq<char>, k: int)
    requires
        0 <= k <= edges.len(),
    ensures
        k <= first_edge_from(edges, to, k) <= edges.len(),
        first_edge_from(edges, to, k) < edges.len() ==> edges[first_edge_from(edges, to, k)].to == to,
        forall|j: int| k <= j < first_edge_from(edges, to, k) ==> (#[trigger] edges[j]).to != to,
    decreases edges.len() - k,
{
    if k < edges.len() && edges[k].to != to {
        lemma_first_edge_from(edges, to, k + 1);
    }
}

/// The edges of a list with their quotes forgotten: each leads where it led,
/// at a rate and a quantity of zero.
pub open spec fn unquoted(edges: Seq<EdgeView>) -> Seq<EdgeView> {
    edges.map_values(
        |e: EdgeView| EdgeView { to: e.to, rate: DecView::zero(), quantity: DecView::zero() },
    )
}

/// The assets that the edges of a list lead to, in the same order.
pub open spec fn targets(edges: Seq<EdgeView>) -> Seq<Seq<char>> {
    edges.map_values(|e: EdgeView| e.to)
}

/// What a [`Graph`] holds: the declared vertices in the order of their
/// declaration, and for each asset that has edges the list of them in the
/// order in which they were added.
pub struct GraphView {
    pub vertices: Seq<Seq<char>>,
    pub edges: Map<Seq<char>, Seq<EdgeView>>,
}

impl GraphView {
    /// The graph without vertices or edges.
    pub open spec fn empty() -> GraphView {
        GraphView { vertices: Seq::empty(), edges: Map::empty() }
    }

    /// The edges out of `asset`, none for an asset that was given none.
    pub open spec fn out_edges(self, asset: Seq<char>) -> Seq<EdgeView> {
        if self.edges.dom().contains(asset) {
            self.edges[asset]
        } else {
            Seq::empty()
        }
    }

    /// Whether there is an edge from `from` to `to`.
    pub open spec fn has_edge(self, from: Seq<char>, to: Seq<char>) -> bool {
        first_edge_to(self.out_edges(from), to) < self.out_edges(from).len()
    }

    /// The graph with one more vertex.
    pub open spec fn with_vertex(self, vertex: Seq<char>) -> GraphView {
        GraphView { vertices: self.vertices.push(vertex), edges: self.edges }
    }

    /// The graph with one more edge, added behind the edges that `from`
    /// already has.
    pub open spec fn with_edge(self, from: Seq<char>, edge: EdgeView) -> GraphView {
        GraphView {
            vertices: self.vertices,
            edges: self.edges.insert(from, self.out_edges(from).push(edge)),
        }
    }

    /// The shape of the graph: its vertices, and for each asset that has
    /// edges the assets they lead to, in order. Quotes are no part of it.
    pub open spec fn structure(self) -> (Seq<Seq<char>>, Map<Seq<char>, Seq<Seq<char>>>) {
        (self.vertices, self.edges.map_values(|edges: Seq<EdgeView>| targets(edges)))
    }

    /// The graph with the quotes of all its edges forgotten.
    pub open spec fn without_quotes(self) -> GraphView {
        GraphView {
            vertices: self.vertices,
            edges: self.edges.map_values(|edges: Seq<EdgeView>| unquoted(edges)),
        }
    }

    /// The graph in which the first edge from `from` to `to` carries the given
    /// rate and quantity; the graph itself where there is no such edge.
    pub open spec fn with_quote(
        self,
        from: Seq<char>,
        to: Seq<char>,
        rate: DecView,
        quantity: DecView,
    ) -> GraphView {
        let edges = self.out_edges(from);
        let i = first_edge_to(edges, to);
        if i < edges.len() {
            GraphView {
                vertices: self.vertices,
                edges: self.edges.insert(
                    from,
                    edges.update(i, EdgeView { to: edges[i].to, rate, quantity }),
                ),
            }
        } else {
            self
        }
    }
}

/// The edges out of one asset.
struct Adjacency {
    from: String,
    edges: Vec<Edge>,
}

/// A directed graph of conversions between assets.
pub struct Graph {
    vertices: Vec<String>,
    adjacency: Vec<Adjacency>,
}

/// The asset whose edges the list at index `i` holds.
spec fn key(lists: Seq<Adjacency>, i: int) -> Seq<char> {
    lists[i].from@
}

spec fn has_slot(lists: Seq<Adjacency>, a: Seq<char>) -> bool {
    exists|i: int| 0 <= i < lists.len() && #[trigger] key(lists, i) == a
}

spec fn slot(lists: Seq<Adjacency>, a: Seq<char>) -> int {
    choose|i: int| 0 <= i < lists.len() && #[trigger] key(lists, i) == a
}

/// No asset has two lists of edges.
spec fn distinct_keys(lists: Seq<Adjacency>) -> bool {
    forall|i: int, j: int|
        0 <= i < j < lists.len() ==> #[trigger] key(lists, i) != #[trigger] key(lists, j)
}

/// The map from each asset that has a list to the edges in it.
spec fn edge_map(lists: Seq<Adjacency>) -> Map<Seq<char>, Seq<EdgeView>> {
    Map::new(
        |a: Seq<char>| has_slot(lists, a),
        |a: Seq<char>| edge_views(lists[slot(lists, a)].edges@),
    )
}

/// The edges that `edge_map` gives for `a`, none where `a` has no list.
spec fn edges_of(lists: Seq<Adjacency>, a: Seq<char>) -> Seq<EdgeView> {
    if edge_map(lists).dom().contains(a) {
        edge_map(lists)[a]
    } else {
        Seq::empty()
    }
}

/// The list at index `i` is the one that the map gives for its asset.
proof fn lemma_slot(lists: Seq<Adjacency>, i: int)
    requires
        distinct_keys(lists),
        0 <= i < lists.len(),
    ensures
        edge_map(lists).dom().contains(key(lists, i)),
        edges_of(lists, key(lists, i)) == edge_views(lists[i].edges@),
{
    assert(has_slot(lists, key(lists, i)));
    assert(slot(lists, key(lists, i)) == i);
}

/// An asset without a list has no edges in the map.
proof fn lemma_no_slot(lists: Seq<Adjacency>, a: Seq<char>)
    requires
        forall|i: int| 0 <= i < lists.len() ==> #[trigger] key(lists, i) != a,
    ensures
        !edge_map(lists).dom().contains(a),
        edges_of(lists, a) == Seq::<EdgeView>::empty(),
{
}

/// The map of `after`, where `after` is `before` with the list of `from`
/// replaced by `list`, or with that list added behind the others.
proof fn lemma_after(
    after: Seq<Adjacency>,
    before: Seq<Adjacency>,
    from: Seq<char>,
    list: Seq<EdgeView>,
    s: int,
)
    requires
        distinct_keys(before),
        before.len() <= after.len() <= before.len() + 1,
        0 <= s < after.len(),
        after.len() > before.len() ==> s == before.len(),
        key(after, s) == from,
        edge_views(after[s].edges@) == list,
        forall|i: int| 0 <= i < before.len() ==> key(after, i) == #[trigger] key(before, i),
        forall|i: int| 0 <= i < before.len() ==> #[trigger] key(before, i) != from || i == s,
        forall|i: int|
            0 <= i < before.len() && i != s ==> edge_views(after[i].edges@) == edge_views(
                (#[trigger] before[i]).edges@,
            ),
    ensures
        distinct_keys(after),
        edge_map(after) == edge_map(before).insert(from, list),
{
    assert forall|i: int, j: int| 0 <= i < j < after.len() implies key(after, i) != key(
        after,
        j,
    ) by {
        if j < before.len() {
            assert(key(before, i) != key(before, j));
        } else {
            assert(key(before, i) != from);
        }
    }
    let expected = edge_map(before).insert(from, list);
    assert forall|a: Seq<char>| edge_map(after).dom().contains(a) == expected.dom().contains(
        a,
    ) by {
        if has_slot(after, a) && a != from {
            let i = slot(after, a);
            assert(key(before, i) == a);
        }
        if has_slot(before, a) {
            let i = slot(before, a);
            assert(key(after, i) == a);
        }
        if a == from {
            assert(key(after, s) == a);
        }
    }
    assert forall|a: Seq<char>| edge_map(after).dom().contains(a) implies edge_map(after)[a]
        == expected[a] by {
        let i = slot(after, a);
        lemma_slot(after, i);
        if a == from {
            assert(i == s);
        } else {
            assert(key(before, i) == a);
            lemma_slot(before, i);
        }
    }
    assert(edge_map(after) =~= expected);
}

/// The index in `edges` of the first edge to `to`, or the length of the list.
fn position(edges: &Vec<Edge>, to: &String) -> (r: usize)
    ensures
        r == first_edge_to(edge_views(edges@), to@),
        r <= edges.len(),
{
    let ghost views = edge_views(edges@);
    let mut k: usize = 0;
    while k < edges.len()
        invariant
            k <= edges.len(),
            views == edge_views(edges@),
            first_edge_from(views, to@, k as int) == first_edge_to(views, to@),
        decreases edges.len() - k,
    {
        if edges[k].to == *to {
            return k;
        }
        k += 1;
    }
    k
}

/// The index of the list of `asset`, if it has one.
fn slot_of(lists: &Vec<Adjacency>, asset: &String) -> (r: Option<usize>)
    ensures
        match r {
            Some(i) => i < lists@.len() && key(lists@, i as int) == asset@,
            None => forall|i: int| 0 <= i < lists@.len() ==> #[trigger] key(lists@, i) != asset@,
        },
{
    let mut i: usize = 0;
    while i < lists.len()
        invariant
            i <= lists@.len(),
            forall|j: int| 0 <= j < i ==> #[trigger] key(lists@, j) != asset@,
        decreases lists@.len() - i,
    {
        if lists[i].from == *asset {
            return Some(i);
        }
        i += 1;
    }
    None
}

/// Sets the rate and the quantity of every edge of a list to zero.
fn forget_quotes(edges: &mut Vec<Edge>)
    ensures
        edge_views(final(edges)@) == unquoted(edge_views(old(edges)@)),
{
    let ghost before = edge_views(edges@);
    let mut i: usize = 0;
    while i < edges.len()
        invariant
            i <= edges@.len(),
            edges@.len() == before.len(),
            forall|j: int| 0 <= j < i ==> (#[trigger] edges@[j])@ == unquoted(before)[j],
            forall|j: int| i <= j < edges@.len() ==> (#[trigger] edges@[j])@ == before[j],
        decreases edges@.len() - i,
    {
        edges[i].rate = Dec::zero();
        edges[i].quantity = Dec::zero();
        i += 1;
    }
    assert(edge_views(edges@) =~= unquoted(before));
}

/// The map of `after`, where `after` is `before` with the quotes of every
/// list forgotten.
proof fn lemma_forgotten(after: Seq<Adjacency>, before: Seq<Adjacency>)
    requires
        distinct_keys(before),
        after.len() == before.len(),
        forall|i: int| 0 <= i < before.len() ==> key(after, i) == #[trigger] key(before, i),
        forall|i: int|
            0 <= i < before.len() ==> edge_views(after[i].edges@) == unquoted(
                edge_views((#[trigger] before[i]).edges@),
            ),
    ensures
        distinct_keys(after),
        edge_map(after) == edge_map(before).map_values(|edges: Seq<EdgeView>| unquoted(edges)),
{
    assert forall|i: int, j: int| 0 <= i < j < after.len() implies key(after, i) != key(
        after,
        j,
    ) by {
        assert(key(before, i) != key(before, j));
    }
    let expected = edge_map(before).map_values(|edges: Seq<EdgeView>| unquoted(edges));
    assert forall|a: Seq<char>| edge_map(after).dom().contains(a) == expected.dom().contains(
        a,
    ) by {
        if has_slot(after, a) {
            assert(key(before, slot(after, a)) == a);
        }
        if has_slot(before, a) {
            assert(key(after, slot(before, a)) == a);
        }
    }
    assert forall|a: Seq<char>| edge_map(after).dom().contains(a) implies edge_map(after)[a]
        == expected[a] by {
        let i = slot(after, a);
        assert(key(before, i) == a);
        lemma_slot(after, i);
        lemma_slot(before, i);
    }
    assert(edge_map(after) =~= expected);
}

impl View for Graph {
    type V = GraphView;

    closed spec fn view(&self) -> GraphView {
        GraphView {
            vertices: self.vertices@.map_values(|v: String| v@),
            edges: edge_map(self.adjacency@),
        }
    }
}

impl Graph {
    #[verifier::type_invariant]
    spec fn well_formed(self) -> bool {
        distinct_keys(self.adjacency@)
    }

    /// A graph without vertices or edges.
    pub fn new() -> (g: Graph)
        ensures
            g@ == GraphView::empty(),
    {
        let g = Graph { vertices: Vec::new(), adjacency: Vec::new() };
        assert(g@.vertices =~= Seq::<Seq<char>>::empty());
        assert(g@.edges =~= Map::<Seq<char>, Seq<EdgeView>>::empty());
        g
    }

    /// Declares a vertex. Nothing keeps a vertex from being declared twice.
    pub fn add_vertex(&mut self, vertex: String)
        ensures
            final(self)@ == old(self)@.with_vertex(vertex@),
    {
        proof {
            use_type_invariant(&*self);
        }
        let mut vertices: Vec<String> = Vec::new();
        std::mem::swap(&mut vertices, &mut self.vertices);
        let ghost before = vertices@;
        vertices.push(vertex);
        assert(vertices@.map_values(|v: String| v@) =~= before.map_values(|v: String| v@).push(
            vertex@,
        ));
        self.vertices = vertices;
    }

    /// Adds an edge from `from` to `to` behind the edges that `from` already
    /// has. Neither asset needs to be a declared vertex.
    pub fn add_edge(&mut self, from: String, to: String, price: Dec, quantity: Dec)
        ensures
            final(self)@ == old(self)@.with_edge(
                from@,
                EdgeView { to: to@, rate: price@, quantity: quantity@ },
            ),
    {
        proof {
            use_type_invariant(&*self);
        }
        let ghost added = EdgeView { to: to@, rate: price@, quantity: quantity@ };
        let edge = Edge { to, rate: price, quantity };
        let mut lists: Vec<Adjacency> = Vec::new();
        std::mem::swap(&mut lists, &mut self.adjacency);
        let ghost before = lists@;
        match slot_of(&lists, &from) {
            Some(s) => {
                lists[s].edges.push(edge);
                proof {
                    lemma_slot(before, s as int);
                    let list = edges_of(before, from@).push(added);
                    assert(edge_views(lists@[s as int].edges@) =~= list);
                    lemma_after(lists@, before, from@, list, s as int);
                }
            },
            None => {
                let ghost fr = from@;
                let mut edges: Vec<Edge> = Vec::new();
                edges.push(edge);
                lists.push(Adjacency { from, edges });
                proof {
                    lemma_no_slot(before, fr);
                    let list = edges_of(before, fr).push(added);
                    let n = before.len() as int;
                    assert(edge_views(lists@[n].edges@) =~= list);
                    assert forall|i: int| 0 <= i < n implies key(lists@, i) == key(before, i) by {}
                    lemma_after(lists@, before, fr, list, n);
                }
            },
        }
        self.adjacency = lists;
    }

    /// Overwrites the rate and the quantity of the first edge from `from` to
    /// `to`. Where the graph has no such edge, nothing changes.
    pub fn update_price_quantity(&mut self, from: String, to: String, price: Dec, quantity: Dec)
        ensures
            final(self)@ == old(self)@.with_quote(from@, to@, price@, quantity@),
    {
        proof {
            use_type_invariant(&*self);
        }
        let mut lists: Vec<Adjacency> = Vec::new();
        std::mem::swap(&mut lists, &mut self.adjacency);
        let ghost before = lists@;
        match slot_of(&lists, &from) {
            Some(s) => {
                proof {
                    lemma_slot(before, s as int);
                }
                let i = position(&lists[s].edges, &to);
                if i < lists[s].edges.len() {
                    lists[s].edges[i].rate = price;
                    lists[s].edges[i].quantity = quantity;
                    proof {
                        let old_list = edges_of(before, from@);
                        let new_list = old_list.update(
                            i as int,
                            EdgeView { to: old_list[i as int].to, rate: price@, quantity: quantity@ },
                        );
                        assert(edge_views(lists@[s as int].edges@) =~= new_list);
                        lemma_after(lists@, before, from@, new_list, s as int);
                    }
                }
            },
            None => {
                proof {
                    lemma_no_slot(before, from@);
                }
            },
        }
        self.adjacency = lists;
    }

    /// Forgets every quote: all edges stay, each at a rate and a quantity of
    /// zero, as before the first update.
    pub fn reset_quotes(&mut self)
        ensures
            final(self)@ == old(self)@.without_quotes(),
    {
        proof {
            use_type_invariant(&*self);
        }
        let mut lists: Vec<Adjacency> = Vec::new();
        std::mem::swap(&mut lists, &mut self.adjacency);
        let ghost before = lists@;
        let mut s: usize = 0;
        while s < lists.len()
            invariant
                s <= lists@.len(),
                lists@.len() == before.len(),
                forall|i: int| 0 <= i < before.len() ==> key(lists@, i) == #[trigger] key(before, i),
                forall|i: int|
                    0 <= i < s ==> edge_views(lists@[i].edges@) == unquoted(
                        edge_views((#[trigger] before[i]).edges@),
                    ),
                forall|i: int| s <= i < before.len() ==> lists@[i] == #[trigger] before[i],
            decreases lists@.len() - s,
        {
            forget_quotes(&mut lists[s].edges);
            s += 1;
        }
        proof {
            lemma_forgotten(lists@, before);
        }
        self.adjacency = lists;
    }

    /// The declared vertices, in the order of their declaration.
    pub fn vertices(&self) -> (r: &Vec<String>)
        ensures
            r@.map_values(|v: String| v@) == self@.vertices,
    {
        &self.vertices
    }

    /// The edges out of `asset`, in the order in which they were added; `None`
    /// for an asset that was given no edge.
    pub fn edges_from(&self, asset: &String) -> (r: Option<&Vec<Edge>>)
        ensures
            r.is_some() == self@.edges.dom().contains(asset@),
            r matches Some(edges) ==> edge_views(edges@) == self@.out_edges(asset@),
    {
        proof {
            use_type_invariant(self);
        }
        match slot_of(&self.adjacency, asset) {
            Some(s) => {
                proof {
                    lemma_slot(self.adjacency@, s as int);
                }
                Some(&self.adjacency[s].edges)
            },
            None => {
                proof {
                    lemma_no_slot(self.adjacency@, asset@);
                }
                None
            },
        }
    }

    /// Whether the graph has an edge from `from` to `to`.
    pub fn has_edge(&self, from: &String, to: &String) -> (r: bool)
        ensures
            r == self@.has_edge(from@, to@),
    {
        match self.edges_from(from) {
            Some(edges) => position(edges, to) < edges.len(),
            None => {
                assert(first_edge_to(Seq::<EdgeView>::empty(), to@) == 0);
                false
            },
        }
    }
}

/// An update changes nothing but the rate and the quantity of the one edge it
/// is aimed at: the vertices, the assets that have edges, the edges of every
/// other asset, and every other edge of the same asset stay as they are, and
/// the edge itself still leads to the same asset.
pub proof fn lemma_update_changes_only_target(
    g: GraphView,
    from: Seq<char>,
    to: Seq<char>,
    rate: DecView,
    quantity: DecView,
)
    ensures
        g.with_quote(from, to, rate, quantity).vertices == g.vertices,
        g.with_quote(from, to, rate, quantity).edges.dom() == g.edges.dom(),
        forall|a: Seq<char>|
            a != from ==> #[trigger] g.with_quote(from, to, rate, quantity).out_edges(a)
                == g.out_edges(a),
        g.with_quote(from, to, rate, quantity).out_edges(from).len() == g.out_edges(from).len(),
        forall|j: int|
            0 <= j < g.out_edges(from).len() && j != first_edge_to(g.out_edges(from), to)
                ==> #[trigger] g.with_quote(from, to, rate, quantity).out_edges(from)[j]
                == g.out_edges(from)[j],
        forall|j: int|
            0 <= j < g.out_edges(from).len() ==> (#[trigger] g.with_quote(
                from,
                to,
                rate,
                quantity,
            ).out_edges(from)[j]).to == g.out_edges(from)[j].to,
        g.has_edge(from, to) ==> g.with_quote(from, to, rate, quantity).out_edges(
            from,
        )[first_edge_to(g.out_edges(from), to)] == (EdgeView { to, rate, quantity }),
        !g.has_edge(from, to) ==> g.with_quote(from, to, rate, quantity) == g,
{
    let edges = g.out_edges(from);
    lemma_first_edge_from(edges, to, 0);
    let i = first_edge_to(edges, to);
    if i < edges.len() {
        assert(g.edges.dom().contains(from));
        assert(g.with_quote(from, to, rate, quantity).edges.dom() =~= g.edges.dom());
    }
}

/// An update leaves the shape of the graph as it is: no vertex and no edge
/// comes or goes, and every edge leads where it led.
pub proof fn lemma_update_keeps_structure(
    g: GraphView,
    from: Seq<char>,
    to: Seq<char>,
    rate: DecView,
    quantity: DecView,
)
    ensures
        g.with_quote(from, to, rate, quantity).structure() == g.structure(),
{
    let edges = g.out_edges(from);
    lemma_first_edge_from(edges, to, 0);
    let i = first_edge_to(edges, to);
    if i < edges.len() {
        assert(g.edges.dom().contains(from));
        let updated = edges.update(i, EdgeView { to: edges[i].to, rate, quantity });
        assert(targets(updated) =~= targets(edges));
        assert(g.with_quote(from, to, rate, quantity).structure().1 =~= g.structure().1);
    }
}

/// Forgetting the quotes leaves the shape of the graph as it is, and every
/// edge at a rate and a quantity of zero.
pub proof fn lemma_reset_keeps_structure(g: GraphView)
    ensures
        g.without_quotes().structure() == g.structure(),
        forall|a: Seq<char>, k: int|
            0 <= k < g.out_edges(a).len() ==> #[trigger] g.without_quotes().out_edges(a)[k] == (
            EdgeView { to: g.out_edges(a)[k].to, rate: DecView::zero(), quantity: DecView::zero() }),
{
    assert forall|a: Seq<char>| g.edges.dom().contains(a) implies targets(
        #[trigger] unquoted(g.edges[a]),
    ) == targets(g.edges[a]) by {
        assert(targets(unquoted(g.edges[a])) =~= targets(g.edges[a]));
    }
    assert(g.without_quotes().structure().1 =~= g.structure().1);
}

} // verus!
