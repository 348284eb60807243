//! The bounded search for a profitable cycle.
//!
//! From a start asset the search walks the graph depth first, edge by edge in
//! the order in which the edges were added, to a depth of [`MAX_HOPS`]. The
//! first walk that comes back to the start with rates that multiply to more
//! than one ends the search; what can be traded along it is bounded by the
//! quantities on its edges.

use vstd::prelude::*;
use crate::decimal::{decimal_product, decimal_quotient, view_of, Dec, DecView};
use crate::graph::{edge_views, Edge, EdgeView, Graph, GraphView};

verus! {

/// The largest number of conversions in a cycle that the search looks at.
pub const MAX_HOPS: usize = 3;

/// Why a search came to no result.
#[derive(Clone, Copy, Debug, PartialEq, Eq)]
pub enum SearchError {
    /// The rates of a walk that closes a cycle have no product.
    RateProduct,
    /// The quantities along the profitable cycle have no common bound.
    Bottleneck,
    /// The bound of the profitable cycle cannot be divided back through its
    /// rates.
    BackPropagation,
}

/// What a search found.
#[derive(Debug)]
pub struct ArbitrageResult {
    /// Whether a profitable cycle was found.
    pub profitable: bool,
    /// For each hop of the cycle the asset it leads to and the largest amount
    /// that can be put through it; empty where no cycle was found.
    pub amounts: Vec<(String, Dec)>,
    /// The hops of the cycle, each from one asset to the next; empty where no
    /// cycle was found.
    pub path: Vec<(String, String)>,
}

/// The mathematical content of an [`ArbitrageResult`].
pub struct ArbitrageView {
    pub profitable: bool,
    pub amounts: Seq<(Seq<char>, DecView)>,
    pub path: Seq<(Seq<char>, Seq<char>)>,
}

impl ArbitrageView {
    /// The result of a search that found no cycle.
    pub open spec fn none() -> ArbitrageView {
        ArbitrageView { profitable: false, amounts: Seq::empty(), path: Seq::empty() }
    }
}

/// The views of a list of amounts.
pub open spec fn amount_views(amounts: Seq<(String, Dec)>) -> Seq<(Seq<char>, DecView)> {
    amounts.map_values(|a: (String, Dec)| (a.0@, a.1@))
}

/// The views of a list of hops.
pub open spec fn hop_views(path: Seq<(String, String)>) -> Seq<(Seq<char>, Seq<char>)> {
    path.map_values(|h: (String, String)| (h.0@, h.1@))
}

impl View for ArbitrageResult {
    type V = ArbitrageView;

    open spec fn view(&self) -> ArbitrageView {
        ArbitrageView {
            profitable: self.profitable,
            amounts: amount_views(self.amounts@),
            path: hop_views(self.path@),
        }
    }
}

/// The view of the outcome of a search.
pub open spec fn outcome_view(r: Result<ArbitrageResult, SearchError>) -> Result<
    ArbitrageView,
    SearchError,
> {
    match r {
        Ok(found) => Ok(found@),
        Err(e) => Err(e),
    }
}

/// The views of the edges of a walk.
pub open spec fn walk_view(walk: Seq<&Edge>) -> Seq<EdgeView> {
    walk.map_values(|e: &Edge| e@)
}

/// Whether `walk` is a walk in `g` that sets out from `start`: its first edge
/// is an edge of `start`, and every later edge is an edge of the asset that
/// the edge before it leads to.
pub open spec fn is_walk(g: GraphView, start: Seq<char>, walk: Seq<EdgeView>) -> bool {
    forall|k: int|
        0 <= k < walk.len() ==> g.out_edges(source(start, walk, k)).contains(#[trigger] walk[k])
}

/// The asset at which the hop `k` of a walk from `start` sets out.
pub open spec fn source(start: Seq<char>, walk: Seq<EdgeView>, k: int) -> Seq<char> {
    if k <= 0 {
        start
    } else {
        walk[k - 1].to
    }
}

/// The product of the rates of the hops `k`, `k + 1`, ... of a walk,
/// multiplied up from the last hop backwards: for three hops with the rates
/// `a`, `b` and `c` it is `(c * b) * a`. `None` where a product overflows, and
/// for a walk without a hop `k`.
pub open spec fn rate_product_from(walk: Seq<EdgeView>, k: int) -> Option<DecView>
    decreases walk.len() - k,
{
    if k < 0 || k >= walk.len() {
        None
    } else if k == walk.len() - 1 {
        Some(walk[k].rate)
    } else {
        match rate_product_from(walk, k + 1) {
            Some(p) => decimal_product(p, walk[k].rate),
            None => None,
        }
    }
}

/// The product of the rates of a walk.
pub open spec fn rate_product(walk: Seq<EdgeView>) -> Option<DecView> {
    rate_product_from(walk, 0)
}

/// What can arrive at the end of hop `k` of a walk, in units of the asset that
/// the hop leads to: the quantity of the first hop; for a later hop the
/// smaller of its own quantity and of what arrives through the hop before it,
/// converted at its rate. `None` where a product overflows, and for a walk
/// without a hop `k`.
pub open spec fn bottleneck_upto(walk: Seq<EdgeView>, k: int) -> Option<DecView>
    decreases k,
{
    if k < 0 || k >= walk.len() {
        None
    } else if k == 0 {
        Some(walk[0].quantity)
    } else {
        match bottleneck_upto(walk, k - 1) {
            Some(before) => match decimal_product(before, walk[k].rate) {
                Some(converted) => Some(walk[k].quantity.min(converted)),
                None => None,
            },
            None => None,
        }
    }
}

/// What can arrive at the end of a walk.
pub open spec fn bottleneck(walk: Seq<EdgeView>) -> Option<DecView> {
    bottleneck_upto(walk, walk.len() - 1)
}

/// `amount` divided by the rate of hop `k`, the quotient by the rate of hop
/// `k + 1`, and so on to the last hop of the walk. `None` where a rate is zero
/// or a quotient overflows.
pub open spec fn divide_through(walk: Seq<EdgeView>, amount: DecView, k: int) -> Option<DecView>
    decreases walk.len() - k,
{
    if k < 0 || k >= walk.len() {
        Some(amount)
    } else {
        match decimal_quotient(amount, walk[k].rate) {
            Some(q) => divide_through(walk, q, k + 1),
            None => None,
        }
    }
}

/// The amount reported for hop `k` of a walk at whose end `bound` arrives: for
/// the last hop the bound itself, for an earlier hop the bound divided back
/// through the rates from that hop to the end.
pub open spec fn hop_amount(walk: Seq<EdgeView>, bound: DecView, k: int) -> Option<DecView> {
    if k == walk.len() - 1 {
        Some(bound)
    } else {
        divide_through(walk, bound, k)
    }
}

/// The amounts reported for all hops of a walk, each with the asset that the
/// hop leads to; `None` where one of them cannot be computed.
pub open spec fn amounts_of(walk: Seq<EdgeView>, bound: DecView) -> Option<
    Seq<(Seq<char>, DecView)>,
> {
    if forall|k: int| 0 <= k < walk.len() ==> (#[trigger] hop_amount(walk, bound, k)).is_some() {
        Some(Seq::new(walk.len(), |k: int| (walk[k].to, hop_amount(walk, bound, k).unwrap())))
    } else {
        None
    }
}

/// The hops of a walk from `start`, each as the pair of the asset it leaves
/// and the asset it leads to.
pub open spec fn path_of(start: Seq<char>, walk: Seq<EdgeView>) -> Seq<(Seq<char>, Seq<char>)> {
    Seq::new(walk.len(), |k: int| (source(start, walk, k), walk[k].to))
}

/// The result for a profitable cycle: its path and the amounts of its hops.
pub open spec fn settle(start: Seq<char>, walk: Seq<EdgeView>) -> Result<
    ArbitrageView,
    SearchError,
> {
    match bottleneck(walk) {
        None => Err(SearchError::Bottleneck),
        Some(bound) => match amounts_of(walk, bound) {
            None => Err(SearchError::BackPropagation),
            Some(amounts) => Ok(
                ArbitrageView { profitable: true, amounts, path: path_of(start, walk) },
            ),
        },
    }
}

/// How a part of the search ended.
pub enum Scan {
    /// No walk closed a cycle with a rate product over one.
    Nothing,
    /// This walk is the first that closed a cycle with a rate product over one.
    Profitable(Seq<EdgeView>),
    /// A walk closed a cycle, and its rates have no product.
    Failed,
}

/// The judgement on a walk that has just been extended by one hop.
pub open spec fn judge(start: Seq<char>, walk: Seq<EdgeView>) -> Scan {
    if walk.len() == 0 || walk.last().to != start {
        Scan::Nothing
    } else {
        match rate_product(walk) {
            None => Scan::Failed,
            Some(p) => if DecView::one().lt(p) {
                Scan::Profitable(walk)
            } else {
                Scan::Nothing
            },
        }
    }
}

/// The depth-first search below the walk `prefix`, which has arrived at the
/// asset `from`: the edges of `from` are tried from index `i` on; each
/// extended walk is judged, and where it is neither profitable nor failed, the
/// search first goes on below it, with one hop less to go, and then to the
/// next edge.
pub open spec fn scan(
    g: GraphView,
    start: Seq<char>,
    prefix: Seq<EdgeView>,
    from: Seq<char>,
    i: int,
    hops: nat,
) -> Scan
    decreases hops, g.out_edges(from).len() - i,
{
    let edges = g.out_edges(from);
    if hops == 0 || i < 0 || i >= edges.len() {
        Scan::Nothing
    } else {
        let walk = prefix.push(edges[i]);
        let here = judge(start, walk);
        if !(here is Nothing) {
            here
        } else {
            let below = scan(g, start, walk, edges[i].to, 0, (hops - 1) as nat);
            if !(below is Nothing) {
                below
            } else {
                scan(g, start, prefix, from, i + 1, hops)
            }
        }
    }
}

/// The result of the search for a profitable cycle from `start`.
pub open spec fn search(g: GraphView, start: Seq<char>) -> Result<ArbitrageView, SearchError> {
    match scan(g, start, Seq::empty(), start, 0, MAX_HOPS as nat) {
        Scan::Nothing => Ok(ArbitrageView::none()),
        Scan::Failed => Err(SearchError::RateProduct),
        Scan::Profitable(walk) => settle(start, walk),
    }
}

/// How a part of the search ended, without the walk.
#[derive(Clone, Copy)]
enum Verdict {
    Nothing,
    Profitable,
    Failed,
}

/// Whether the verdict `v` and the walk `after` are what the scan `s` says.
spec fn agrees(s: Scan, v: Verdict, before: Seq<EdgeView>, after: Seq<EdgeView>) -> bool {
    match s {
        Scan::Nothing => v is Nothing && after == before,
        Scan::Failed => v is Failed,
        Scan::Profitable(walk) => v is Profitable && after == walk,
    }
}

/// The product of the rates of a walk.
fn rate_product_exec(walk: &Vec<&Edge>) -> (r: Option<Dec>)
    requires
        walk@.len() >= 1,
    ensures
        view_of(r) == rate_product(walk_view(walk@)),
{
    let ghost w = walk_view(walk@);
    let mut k: usize = walk.len() - 1;
    let mut acc: Dec = walk[k].rate;
    while k > 0
        invariant
            k < walk@.len(),
            w == walk_view(walk@),
            Some(acc@) == rate_product_from(w, k as int),
        decreases k,
    {
        k -= 1;
        match acc.checked_mul(walk[k].rate) {
            Some(p) => {
                acc = p;
            },
            None => {
                proof {
                    assert(rate_product_from(w, k as int).is_none());
                    lemma_product_fails_outwards(w, k as int);
                }
                return None;
            },
        }
    }
    Some(acc)
}

/// Where the rates from hop `k` on have no product, the whole walk has none.
proof fn lemma_product_fails_outwards(walk: Seq<EdgeView>, k: int)
    requires
        0 <= k < walk.len(),
        rate_product_from(walk, k).is_none(),
    ensures
        rate_product(walk).is_none(),
    decreases k,
{
    if k > 0 {
        assert(rate_product_from(walk, k - 1).is_none());
        lemma_product_fails_outwards(walk, k - 1);
    }
}

/// Judges a walk that has just been extended by one hop.
fn judge_exec(start: &String, walk: &Vec<&Edge>) -> (v: Verdict)
    requires
        walk@.len() >= 1,
    ensures
        agrees(judge(start@, walk_view(walk@)), v, walk_view(walk@), walk_view(walk@)),
{
    let last: &Edge = walk[walk.len() - 1];
    if !(last.to == *start) {
        return Verdict::Nothing;
    }
    match rate_product_exec(walk) {
        None => Verdict::Failed,
        Some(p) => {
            if p.exceeds_one() {
                Verdict::Profitable
            } else {
                Verdict::Nothing
            }
        },
    }
}

/// Searches below the walk `walk`, which has arrived at `from`, with `hops`
/// hops to go. Where a profitable cycle is found, `walk` holds it afterwards.
fn explore<'a>(
    graph: &'a Graph,
    start: &String,
    from: &String,
    walk: &mut Vec<&'a Edge>,
    hops: usize,
) -> (v: Verdict)
    ensures
        agrees(
            scan(graph@, start@, walk_view(old(walk)@), from@, 0, hops as nat),
            v,
            walk_view(old(walk)@),
            walk_view(final(walk)@),
        ),
    decreases hops,
{
    if hops == 0 {
        return Verdict::Nothing;
    }
    let edges: &'a Vec<Edge> = match graph.edges_from(from) {
        Some(edges) => edges,
        None => {
            return Verdict::Nothing;
        },
    };
    let ghost g = graph@;
    let ghost prefix = walk_view(walk@);
    let ghost whole = scan(g, start@, prefix, from@, 0, hops as nat);
    let mut i: usize = 0;
    while i < edges.len()
        invariant
            i <= edges@.len(),
            hops >= 1,
            g == graph@,
            edge_views(edges@) == g.out_edges(from@),
            walk_view(walk@) == prefix,
            prefix == walk_view(old(walk)@),
            whole == scan(g, start@, prefix, from@, 0, hops as nat),
            scan(g, start@, prefix, from@, i as int, hops as nat) == whole,
        decreases edges@.len() - i,
    {
        let edge: &'a Edge = &edges[i];
        walk.push(edge);
        assert(walk_view(walk@) =~= prefix.push(g.out_edges(from@)[i as int]));
        match judge_exec(start, walk) {
            Verdict::Nothing => {},
            Verdict::Profitable => {
                return Verdict::Profitable;
            },
            Verdict::Failed => {
                return Verdict::Failed;
            },
        }
        match explore(graph, start, &edge.to, walk, hops - 1) {
            Verdict::Nothing => {},
            Verdict::Profitable => {
                return Verdict::Profitable;
            },
            Verdict::Failed => {
                return Verdict::Failed;
            },
        }
        let ghost extended = walk@;
        walk.pop();
        proof {
            lemma_walk_view_drop_last(extended);
            assert(extended.drop_last() =~= walk@);
            assert(prefix.push(g.out_edges(from@)[i as int]).drop_last() =~= prefix);
        }
        i += 1;
    }
    Verdict::Nothing
}

/// The view of a walk without its last hop.
proof fn lemma_walk_view_drop_last(walk: Seq<&Edge>)
    requires
        walk.len() >= 1,
    ensures
        walk_view(walk.drop_last()) == walk_view(walk).drop_last(),
{
    assert(walk_view(walk.drop_last()) =~= walk_view(walk).drop_last());
}

/// What can arrive at the end of a walk.
fn bottleneck_exec(walk: &Vec<&Edge>) -> (r: Option<Dec>)
    requires
        walk@.len() >= 1,
    ensures
        view_of(r) == bottleneck(walk_view(walk@)),
{
    let ghost w = walk_view(walk@);
    let mut bound: Dec = walk[0].quantity;
    let mut k: usize = 1;
    while k < walk.len()
        invariant
            1 <= k <= walk@.len(),
            w == walk_view(walk@),
            Some(bound@) == bottleneck_upto(w, k - 1),
        decreases walk@.len() - k,
    {
        match bound.checked_mul(walk[k].rate) {
            Some(converted) => {
                bound = walk[k].quantity.min(converted);
            },
            None => {
                proof {
                    lemma_bottleneck_fails_onwards(w, k as int, w.len() - 1);
                }
                return None;
            },
        }
        k += 1;
    }
    Some(bound)
}

/// Where nothing can be said of what arrives through hop `k`, nothing can be
/// said of what arrives through a later hop.
proof fn lemma_bottleneck_fails_onwards(walk: Seq<EdgeView>, k: int, n: int)
    requires
        0 <= k <= n < walk.len(),
        bottleneck_upto(walk, k).is_none(),
    ensures
        bottleneck_upto(walk, n).is_none(),
    decreases n - k,
{
    if k < n {
        lemma_bottleneck_fails_onwards(walk, k, n - 1);
    }
}

/// `amount` divided back through the rates of the hops from `k` on.
fn divide_through_exec(walk: &Vec<&Edge>, amount: Dec, k: usize) -> (r: Option<Dec>)
    requires
        k <= walk@.len(),
    ensures
        view_of(r) == divide_through(walk_view(walk@), amount@, k as int),
{
    let ghost w = walk_view(walk@);
    let mut acc: Dec = amount;
    let mut j: usize = k;
    while j < walk.len()
        invariant
            k <= j <= walk@.len(),
            w == walk_view(walk@),
            divide_through(w, acc@, j as int) == divide_through(w, amount@, k as int),
        decreases walk@.len() - j,
    {
        match acc.checked_div(walk[j].rate) {
            Some(q) => {
                acc = q;
            },
            None => {
                return None;
            },
        }
        j += 1;
    }
    Some(acc)
}

/// The amounts of all hops of a walk at whose end `bound` arrives.
fn amounts_exec(walk: &Vec<&Edge>, bound: Dec) -> (r: Option<Vec<(String, Dec)>>)
    requires
        walk@.len() >= 1,
    ensures
        match r {
            Some(amounts) => amounts_of(walk_view(walk@), bound@) == Some(amount_views(amounts@)),
            None => amounts_of(walk_view(walk@), bound@).is_none(),
        },
{
    let ghost w = walk_view(walk@);
    let n = walk.len();
    let mut amounts: Vec<(String, Dec)> = Vec::new();
    let mut k: usize = 0;
    while k < n
        invariant
            k <= n,
            n == walk@.len(),
            w == walk_view(walk@),
            amounts@.len() == k,
            forall|j: int|
                0 <= j < k ==> hop_amount(w, bound@, j) == Some((#[trigger] amounts@[j]).1@)
                    && amounts@[j].0@ == w[j].to,
        decreases n - k,
    {
        let amount = if k == n - 1 {
            bound
        } else {
            match divide_through_exec(walk, bound, k) {
                Some(q) => q,
                None => {
                    proof {
                        assert(hop_amount(w, bound@, k as int).is_none());
                    }
                    return None;
                },
            }
        };
        amounts.push((walk[k].to.clone(), amount));
        k += 1;
    }
    proof {
        assert forall|j: int| 0 <= j < w.len() implies (#[trigger] hop_amount(
            w,
            bound@,
            j,
        )).is_some() by {
            assert(hop_amount(w, bound@, j) == Some(amounts@[j].1@));
        }
        assert(amount_views(amounts@) =~= Seq::new(
            w.len(),
            |k: int| (w[k].to, hop_amount(w, bound@, k).unwrap()),
        ));
    }
    Some(amounts)
}

/// The hops of a walk from `start`.
fn path_exec(start: &String, walk: &Vec<&Edge>) -> (r: Vec<(String, String)>)
    ensures
        hop_views(r@) == path_of(start@, walk_view(walk@)),
{
    let ghost w = walk_view(walk@);
    let mut path: Vec<(String, String)> = Vec::new();
    let mut k: usize = 0;
    while k < walk.len()
        invariant
            k <= walk@.len(),
            w == walk_view(walk@),
            path@.len() == k,
            forall|j: int|
                0 <= j < k ==> (#[trigger] path@[j]).0@ == source(start@, w, j) && path@[j].1@
                    == w[j].to,
        decreases walk@.len() - k,
    {
        let from = if k == 0 {
            start.clone()
        } else {
            walk[k - 1].to.clone()
        };
        path.push((from, walk[k].to.clone()));
        k += 1;
    }
    assert(hop_views(path@) =~= path_of(start@, w));
    path
}

/// The result for a profitable cycle.
fn settle_exec(start: &String, walk: &Vec<&Edge>) -> (r: Result<ArbitrageResult, SearchError>)
    requires
        walk@.len() >= 1,
    ensures
        outcome_view(r) == settle(start@, walk_view(walk@)),
{
    let bound = match bottleneck_exec(walk) {
        Some(bound) => bound,
        None => {
            return Err(SearchError::Bottleneck);
        },
    };
    let amounts = match amounts_exec(walk, bound) {
        Some(amounts) => amounts,
        None => {
            return Err(SearchError::BackPropagation);
        },
    };
    let path = path_exec(start, walk);
    Ok(ArbitrageResult { profitable: true, amounts, path })
}

/// A walk that arrives at `from`, extended by an edge of `from`, is a walk,
/// and it arrives where the edge leads to.
proof fn lemma_walk_extends(
    g: GraphView,
    start: Seq<char>,
    prefix: Seq<EdgeView>,
    from: Seq<char>,
    i: int,
)
    requires
        is_walk(g, start, prefix),
        from == source(start, prefix, prefix.len() as int),
        0 <= i < g.out_edges(from).len(),
    ensures
        is_walk(g, start, prefix.push(g.out_edges(from)[i])),
        source(start, prefix.push(g.out_edges(from)[i]), prefix.len() as int + 1) == g.out_edges(
            from,
        )[i].to,
{
    let edges = g.out_edges(from);
    let walk = prefix.push(edges[i]);
    assert forall|k: int| 0 <= k < walk.len() implies g.out_edges(
        source(start, walk, k),
    ).contains(#[trigger] walk[k]) by {
        if k < prefix.len() {
            assert(walk[k] == prefix[k]);
            assert(source(start, walk, k) == source(start, prefix, k));
        } else {
            assert(source(start, walk, k) == from);
            assert(edges[i] == walk[k]);
        }
    }
}

/// What a scan finds is a walk of the graph that is longer than the prefix by
/// at least one hop and by at most `hops`, and that is judged profitable: it
/// ends at the start, and its rates multiply to more than one.
pub proof fn lemma_scan_finds_cycle(
    g: GraphView,
    start: Seq<char>,
    prefix: Seq<EdgeView>,
    from: Seq<char>,
    i: int,
    hops: nat,
)
    requires
        0 <= i,
        is_walk(g, start, prefix),
        from == source(start, prefix, prefix.len() as int),
    ensures
        scan(g, start, prefix, from, i, hops) matches Scan::Profitable(walk) ==> {
            &&& prefix.len() < walk.len() <= prefix.len() + hops
            &&& is_walk(g, start, walk)
            &&& judge(start, walk) == Scan::Profitable(walk)
        },
    decreases hops, g.out_edges(from).len() - i,
{
    let edges = g.out_edges(from);
    if hops > 0 && i < edges.len() {
        let walk = prefix.push(edges[i]);
        lemma_walk_extends(g, start, prefix, from, i);
        let here = judge(start, walk);
        if here is Nothing {
            lemma_scan_finds_cycle(g, start, walk, edges[i].to, 0, (hops - 1) as nat);
            let below = scan(g, start, walk, edges[i].to, 0, (hops - 1) as nat);
            if below is Nothing {
                lemma_scan_finds_cycle(g, start, prefix, from, i + 1, hops);
            }
        }
    }
}

/// Where every walk is judged unprofitable, a scan finds nothing.
proof fn lemma_scan_finds_nothing(
    g: GraphView,
    start: Seq<char>,
    prefix: Seq<EdgeView>,
    from: Seq<char>,
    i: int,
    hops: nat,
    limit: nat,
)
    requires
        0 <= i,
        is_walk(g, start, prefix),
        from == source(start, prefix, prefix.len() as int),
        prefix.len() + hops <= limit,
        forall|walk: Seq<EdgeView>|
            #[trigger] is_walk(g, start, walk) && 1 <= walk.len() <= limit ==> judge(
                start,
                walk,
            ) is Nothing,
    ensures
        scan(g, start, prefix, from, i, hops) is Nothing,
    decreases hops, g.out_edges(from).len() - i,
{
    let edges = g.out_edges(from);
    if hops > 0 && i < edges.len() {
        let walk = prefix.push(edges[i]);
        lemma_walk_extends(g, start, prefix, from, i);
        assert(judge(start, walk) is Nothing);
        lemma_scan_finds_nothing(g, start, walk, edges[i].to, 0, (hops - 1) as nat, limit);
        lemma_scan_finds_nothing(g, start, prefix, from, i + 1, hops, limit);
    }
}

/// Where every cycle of at most [`MAX_HOPS`] hops through `start` has rates
/// that multiply to at most one, the search reports no profit, no amounts and
/// no path.
pub proof fn lemma_no_cycle_no_arbitrage(g: GraphView, start: Seq<char>)
    requires
        forall|walk: Seq<EdgeView>|
            #[trigger] is_walk(g, start, walk) && 1 <= walk.len() <= MAX_HOPS && walk.last().to
                == start ==> (rate_product(walk) matches Some(p) && p.le(DecView::one())),
    ensures
        search(g, start) == Ok::<ArbitrageView, SearchError>(ArbitrageView::none()),
{
    assert forall|walk: Seq<EdgeView>|
        #[trigger] is_walk(g, start, walk) && 1 <= walk.len() <= MAX_HOPS implies judge(
        start,
        walk,
    ) is Nothing by {}
    lemma_scan_finds_nothing(
        g,
        start,
        Seq::<EdgeView>::empty(),
        start,
        0,
        MAX_HOPS as nat,
        MAX_HOPS as nat,
    );
}

/// A scan below the first `k` hops of a walk that is judged profitable or
/// failed, with enough hops to go and with hop `k` of the walk still ahead
/// among the edges to try, does not come back with nothing.
proof fn lemma_scan_reaches(
    g: GraphView,
    start: Seq<char>,
    walk: Seq<EdgeView>,
    k: int,
    i: int,
    hops: nat,
)
    requires
        is_walk(g, start, walk),
        0 <= k < walk.len(),
        walk.len() - k <= hops,
        !(judge(start, walk) is Nothing),
        0 <= i,
        exists|j: int|
            i <= j < g.out_edges(source(start, walk, k)).len() && #[trigger] g.out_edges(
                source(start, walk, k),
            )[j] == walk[k],
    ensures
        !(scan(g, start, walk.subrange(0, k), source(start, walk, k), i, hops) is Nothing),
    decreases hops, g.out_edges(source(start, walk, k)).len() - i,
{
    let from = source(start, walk, k);
    let edges = g.out_edges(from);
    let prefix = walk.subrange(0, k);
    let j = choose|j: int| i <= j < edges.len() && #[trigger] edges[j] == walk[k];
    let extended = prefix.push(edges[i]);
    if judge(start, extended) is Nothing {
        let below = scan(g, start, extended, edges[i].to, 0, (hops - 1) as nat);
        if edges[i] == walk[k] {
            assert(extended =~= walk.subrange(0, k + 1));
            if k + 1 == walk.len() {
                assert(extended =~= walk);
            } else {
                let onward = g.out_edges(source(start, walk, k + 1));
                let wanted = walk[k + 1];
                assert(onward.contains(wanted));
                let next = choose|n: int| 0 <= n < onward.len() && #[trigger] onward[n] == wanted;
                assert(onward[next] == wanted);
                lemma_scan_reaches(g, start, walk, k + 1, 0, (hops - 1) as nat);
            }
        } else if below is Nothing {
            assert(edges[j] == walk[k]);
            lemma_scan_reaches(g, start, walk, k, i + 1, hops);
        }
    }
}

/// No cycle escapes the search: where some walk of at most [`MAX_HOPS`] hops
/// from `start` back to `start` has rates that multiply to more than one, or
/// rates without a product, the search does not report that there is none.
pub proof fn lemma_cycle_is_not_missed(g: GraphView, start: Seq<char>, walk: Seq<EdgeView>)
    requires
        is_walk(g, start, walk),
        1 <= walk.len() <= MAX_HOPS,
        walk.last().to == start,
        match rate_product(walk) {
            Some(p) => DecView::one().lt(p),
            None => true,
        },
    ensures
        search(g, start) != Ok::<ArbitrageView, SearchError>(ArbitrageView::none()),
{
    let edges = g.out_edges(source(start, walk, 0));
    let wanted = walk[0];
    assert(edges.contains(wanted));
    let first = choose|n: int| 0 <= n < edges.len() && #[trigger] edges[n] == wanted;
    assert(edges[first] == wanted);
    lemma_scan_reaches(g, start, walk, 0, 0, MAX_HOPS as nat);
    assert(walk.subrange(0, 0) =~= Seq::<EdgeView>::empty());
}

/// A search that reports a profit has found a cycle: a walk of at most
/// [`MAX_HOPS`] hops along edges of the graph, from `start` back to `start`,
/// whose rates multiply to more than one, and the result is the settlement of
/// that walk. A search that reports no profit reports no amounts and no path.
pub proof fn lemma_arbitrage_is_a_cycle(g: GraphView, start: Seq<char>)
    ensures
        search(g, start) matches Ok(found) ==> {
            ||| found == ArbitrageView::none()
            ||| found.profitable && exists|walk: Seq<EdgeView>|
                {
                    &&& #[trigger] is_walk(g, start, walk)
                    &&& 1 <= walk.len() <= MAX_HOPS
                    &&& walk.last().to == start
                    &&& rate_product(walk) matches Some(p) && DecView::one().lt(p)
                    &&& settle(start, walk) == Ok::<ArbitrageView, SearchError>(found)
                }
        },
{
    lemma_scan_finds_cycle(g, start, Seq::<EdgeView>::empty(), start, 0, MAX_HOPS as nat);
    if let Scan::Profitable(walk) = scan(g, start, Seq::empty(), start, 0, MAX_HOPS as nat) {
        if let Ok(found) = search(g, start) {
            assert(is_walk(g, start, walk));
            assert(settle(start, walk) == Ok::<ArbitrageView, SearchError>(found));
        }
    }
}

/// Searching twice in the same graph from the same start gives the same
/// result: the outcome of a search is a function of the graph and the start.
pub proof fn lemma_search_is_idempotent(
    graph: Graph,
    start: String,
    first: Result<ArbitrageResult, SearchError>,
    second: Result<ArbitrageResult, SearchError>,
)
    requires
        outcome_view(first) == search(graph@, start@),
        outcome_view(second) == search(graph@, start@),
    ensures
        outcome_view(first) == outcome_view(second),
{
}

/// Whether the amount of hop `k` is at least the amount of the last hop
/// divided back through the rates from hop `k` to the end of the walk.
pub open spec fn at_least_divided_back(
    walk: Seq<EdgeView>,
    amounts: Seq<(Seq<char>, DecView)>,
    k: int,
) -> bool {
    match divide_through(walk, amounts.last().1, k) {
        Some(q) => q.le(amounts[k].1),
        None => false,
    }
}

/// In the settlement of a walk, the amount of the last hop is what arrives at
/// the end of the walk, and it is at most the quantity of the last edge. The
/// amount of every earlier hop is at least the amount of the last hop divided
/// back through the rates from that hop to the end.
pub proof fn lemma_back_propagation_bound(
    start: Seq<char>,
    walk: Seq<EdgeView>,
    found: ArbitrageView,
)
    requires
        settle(start, walk) == Ok::<ArbitrageView, SearchError>(found),
    ensures
        walk.len() >= 1,
        found.amounts.len() == walk.len(),
        found.path.len() == walk.len(),
        bottleneck(walk) == Some(found.amounts.last().1),
        found.amounts.last().1.le(walk.last().quantity),
        forall|k: int|
            0 <= k < walk.len() - 1 ==> #[trigger] at_least_divided_back(walk, found.amounts, k),
{
    let bound = bottleneck(walk).unwrap();
    let n = walk.len() as int;
    assert(hop_amount(walk, bound, n - 1) == Some(bound));
    assert(found.amounts[n - 1].1 == bound);
    assert forall|k: int| 0 <= k < n - 1 implies #[trigger] at_least_divided_back(
        walk,
        found.amounts,
        k,
    ) by {
        assert(hop_amount(walk, bound, k).is_some());
        assert(found.amounts[k].1 == hop_amount(walk, bound, k).unwrap());
    }
}

/// Looks for a profitable cycle of at most [`MAX_HOPS`] conversions from
/// `start` back to `start`, and reports the first one in the order of the
/// depth-first search, with the amount that each of its hops can carry.
///
/// The search fails where the rates of a walk that closes a cycle have no
/// decimal product before a profitable cycle is found, and where the amounts
/// of the profitable cycle cannot be computed.
pub fn find_arbitrage(graph: &Graph, start: &String) -> (r: Result<ArbitrageResult, SearchError>)
    ensures
        outcome_view(r) == search(graph@, start@),
{
    let mut walk: Vec<&Edge> = Vec::new();
    assert(walk_view(walk@) =~= Seq::<EdgeView>::empty());
    match explore(graph, start, start, &mut walk, MAX_HOPS) {
        Verdict::Nothing => {
            let found = ArbitrageResult { profitable: false, amounts: Vec::new(), path: Vec::new() };
            assert(found@.amounts =~= Seq::<(Seq<char>, DecView)>::empty());
            assert(found@.path =~= Seq::<(Seq<char>, Seq<char>)>::empty());
            Ok(found)
        },
        Verdict::Failed => Err(SearchError::RateProduct),
        Verdict::Profitable => {
            proof {
                lemma_scan_finds_cycle(
                    graph@,
                    start@,
                    Seq::<EdgeView>::empty(),
                    start@,
                    0,
                    MAX_HOPS as nat,
                );
            }
            settle_exec(start, &walk)
        },
    }
}

} // verus!
