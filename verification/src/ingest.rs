//! Folding market data into the graph.
//!
//! A market is a pair of assets traded under a symbol. Its best ask prices
//! the edge from the base asset to the quote asset, its best bid the edge back.
//! An update for a symbol that was not declared, and a side of the book that
//! has no quote yet, leave the graph as it is.

use vstd::prelude::*;
use crate::decimal::{decimal_product, Dec, DecView};
use crate::fees::{buy_rate, sell_rate, FeeModel};
use crate::graph::{lemma_update_keeps_structure, EdgeView, Graph, GraphView};

verus! {

/// A market: the symbol under which it is quoted, and its two assets.
#[derive(Debug)]
pub struct Pair {
    pub symbol: String,
    pub base: String,
    pub quote: String,
}

/// The mathematical content of a [`Pair`].
pub struct PairView {
    pub symbol: Seq<char>,
    pub base: Seq<char>,
    pub quote: Seq<char>,
}

impl View for Pair {
    type V = PairView;

    open spec fn view(&self) -> PairView {
        PairView { symbol: self.symbol@, base: self.base@, quote: self.quote@ }
    }
}

/// The views of a list of pairs.
pub open spec fn pair_views(pairs: Seq<Pair>) -> Seq<PairView> {
    pairs.map_values(|p: Pair| p@)
}

/// One side of the top of a book: a price in the quote asset, and the
/// quantity of the base asset on offer at that price.
#[derive(Clone, Copy, Debug)]
pub struct Quote {
    pub price: Dec,
    pub quantity: Dec,
}

/// The mathematical content of a [`Quote`].
pub struct QuoteView {
    pub price: DecView,
    pub quantity: DecView,
}

impl View for Quote {
    type V = QuoteView;

    open spec fn view(&self) -> QuoteView {
        QuoteView { price: self.price@, quantity: self.quantity@ }
    }
}

/// The view of a side of the book that may have no quote yet.
pub open spec fn side_view(side: Option<Quote>) -> Option<QuoteView> {
    match side {
        Some(q) => Some(q@),
        None => None,
    }
}

/// The best bid and the best ask of a market, each absent until the market
/// has one.
#[derive(Clone, Copy, Debug)]
pub struct TopOfBook {
    pub best_bid: Option<Quote>,
    pub best_ask: Option<Quote>,
}

/// What became of one side of an update.
#[derive(Clone, Copy, Debug, PartialEq, Eq)]
pub enum SideOutcome {
    /// The edge of this side carries the new rate and quantity.
    Applied,
    /// The book has no quote on this side; its edge is unchanged.
    MissingQuote,
    /// The quote has no rate or quantity in decimal arithmetic: a bid price
    /// of zero, or an overflow. Its edge is unchanged.
    Unpriced,
    /// The graph has no edge for this side of the market.
    NoEdge,
}

/// What became of an update.
#[derive(Clone, Copy, Debug, PartialEq, Eq)]
pub enum UpdateOutcome {
    /// The symbol is not among the declared pairs; the graph is unchanged.
    UnknownSymbol,
    /// The symbol is declared, and each side was dealt with as said.
    Known { ask: SideOutcome, bid: SideOutcome },
}

/// The index of the first pair at or after `k` that is quoted under `symbol`,
/// or the length of the list where there is none.
pub open spec fn first_pair_from(pairs: Seq<PairView>, symbol: Seq<char>, k: int) -> int
    decreases pairs.len() - k,
{
    if k < 0 || k >= pairs.len() {
        pairs.len() as int
    } else if pairs[k].symbol == symbol {
        k
    } else {
        first_pair_from(pairs, symbol, k + 1)
    }
}

/// The rate and the quantity that a best ask gives to the edge from the base
/// asset to the quote asset: the ask price with the fee on top, and the value
/// of the offer in the quote asset.
pub open spec fn ask_terms(ask: QuoteView, fee: DecView) -> Option<(DecView, DecView)> {
    match (buy_rate(ask.price, fee), decimal_product(ask.price, ask.quantity)) {
        (Some(rate), Some(quantity)) => Some((rate, quantity)),
        _ => None,
    }
}

/// The rate and the quantity that a best bid gives to the edge from the quote
/// asset to the base asset: the reciprocal of the bid price with the fee taken
/// off, and the quantity of the base asset that is bid for.
pub open spec fn bid_terms(bid: QuoteView, fee: DecView) -> Option<(DecView, DecView)> {
    match sell_rate(bid.price, fee) {
        Some(rate) => Some((rate, bid.quantity)),
        None => None,
    }
}

/// The graph after one side of an update, and what became of that side.
/// `terms` are the rate and the quantity of the quote, where it has them.
pub open spec fn side_update(
    g: GraphView,
    from: Seq<char>,
    to: Seq<char>,
    present: bool,
    terms: Option<(DecView, DecView)>,
) -> (GraphView, SideOutcome) {
    if !present {
        (g, SideOutcome::MissingQuote)
    } else {
        match terms {
            None => (g, SideOutcome::Unpriced),
            Some((rate, quantity)) => if g.has_edge(from, to) {
                (g.with_quote(from, to, rate, quantity), SideOutcome::Applied)
            } else {
                (g, SideOutcome::NoEdge)
            },
        }
    }
}

/// The graph after an update for `symbol`, and what became of the update: the
/// ask side is dealt with first, then the bid side.
pub open spec fn book_update(
    g: GraphView,
    pairs: Seq<PairView>,
    fee: DecView,
    symbol: Seq<char>,
    best_bid: Option<QuoteView>,
    best_ask: Option<QuoteView>,
) -> (GraphView, UpdateOutcome) {
    let i = first_pair_from(pairs, symbol, 0);
    if i >= pairs.len() {
        (g, UpdateOutcome::UnknownSymbol)
    } else {
        let pair = pairs[i];
        let after_ask = side_update(
            g,
            pair.base,
            pair.quote,
            best_ask.is_some(),
            match best_ask {
                Some(ask) => ask_terms(ask, fee),
                None => None,
            },
        );
        let after_bid = side_update(
            after_ask.0,
            pair.quote,
            pair.base,
            best_bid.is_some(),
            match best_bid {
                Some(bid) => bid_terms(bid, fee),
                None => None,
            },
        );
        (after_bid.0, UpdateOutcome::Known { ask: after_ask.1, bid: after_bid.1 })
    }
}

/// Whether the graph has both edges of a pair.
pub open spec fn backed(g: GraphView, pair: PairView) -> bool {
    g.has_edge(pair.base, pair.quote) && g.has_edge(pair.quote, pair.base)
}

/// The view of the terms of a quote.
spec fn terms_view(terms: Option<(Dec, Dec)>) -> Option<(DecView, DecView)> {
    match terms {
        Some((rate, quantity)) => Some((rate@, quantity@)),
        None => None,
    }
}

/// The index of the first pair quoted under `symbol`, or the length of the
/// list.
fn find_pair(pairs: &Vec<Pair>, symbol: &String) -> (r: usize)
    ensures
        r == first_pair_from(pair_views(pairs@), symbol@, 0),
        r <= pairs@.len(),
{
    let ghost views = pair_views(pairs@);
    let mut k: usize = 0;
    while k < pairs.len()
        invariant
            k <= pairs@.len(),
            views == pair_views(pairs@),
            first_pair_from(views, symbol@, k as int) == first_pair_from(views, symbol@, 0),
        decreases pairs@.len() - k,
    {
        if pairs[k].symbol == *symbol {
            return k;
        }
        k += 1;
    }
    k
}

/// The terms that a best ask gives to its edge.
fn ask_terms_exec(ask: Quote, fees: &FeeModel) -> (r: Option<(Dec, Dec)>)
    ensures
        terms_view(r) == ask_terms(ask@, fees.fee_fraction@),
{
    match (fees.buy_rate(ask.price), ask.price.checked_mul(ask.quantity)) {
        (Some(rate), Some(quantity)) => Some((rate, quantity)),
        _ => None,
    }
}

/// The terms that a best bid gives to its edge.
fn bid_terms_exec(bid: Quote, fees: &FeeModel) -> (r: Option<(Dec, Dec)>)
    ensures
        terms_view(r) == bid_terms(bid@, fees.fee_fraction@),
{
    match fees.sell_rate(bid.price) {
        Some(rate) => Some((rate, bid.quantity)),
        None => None,
    }
}

/// Deals with one side of an update.
fn side_update_exec(
    graph: &mut Graph,
    from: &String,
    to: &String,
    present: bool,
    terms: Option<(Dec, Dec)>,
) -> (out: SideOutcome)
    ensures
        (final(graph)@, out) == side_update(old(graph)@, from@, to@, present, terms_view(terms)),
{
    if !present {
        return SideOutcome::MissingQuote;
    }
    match terms {
        None => SideOutcome::Unpriced,
        Some((rate, quantity)) => {
            if graph.has_edge(from, to) {
                graph.update_price_quantity(from.clone(), to.clone(), rate, quantity);
                SideOutcome::Applied
            } else {
                SideOutcome::NoEdge
            }
        },
    }
}

/// Folds the top of the book of the market `symbol` into the graph.
///
/// The best ask sets the edge from the base asset to the quote asset, the
/// best bid the edge back. A symbol that is not among `pairs` changes
/// nothing; neither does a side without a quote, a quote that decimal
/// arithmetic cannot price, or a side whose edge the graph lacks. The outcome
/// says which of these happened.
pub fn apply_book_update(
    graph: &mut Graph,
    pairs: &Vec<Pair>,
    fees: &FeeModel,
    symbol: &String,
    top: &TopOfBook,
) -> (out: UpdateOutcome)
    ensures
        (final(graph)@, out) == book_update(
            old(graph)@,
            pair_views(pairs@),
            fees.fee_fraction@,
            symbol@,
            side_view(top.best_bid),
            side_view(top.best_ask),
        ),
{
    let i = find_pair(pairs, symbol);
    if i >= pairs.len() {
        return UpdateOutcome::UnknownSymbol;
    }
    let pair = &pairs[i];
    let ask_terms = match top.best_ask {
        Some(ask) => ask_terms_exec(ask, fees),
        None => None,
    };
    let ask = side_update_exec(graph, &pair.base, &pair.quote, top.best_ask.is_some(), ask_terms);
    let bid_terms = match top.best_bid {
        Some(bid) => bid_terms_exec(bid, fees),
        None => None,
    };
    let bid = side_update_exec(graph, &pair.quote, &pair.base, top.best_bid.is_some(), bid_terms);
    UpdateOutcome::Known { ask, bid }
}

/// Adds the two edges of a market to the graph, from the base asset to the
/// quote asset and back, both with a rate and a quantity of zero: no quote
/// yet.
pub fn declare_pair(graph: &mut Graph, pair: &Pair)
    ensures
        final(graph)@ == old(graph)@.with_edge(
            pair@.base,
            EdgeView { to: pair@.quote, rate: DecView::zero(), quantity: DecView::zero() },
        ).with_edge(
            pair@.quote,
            EdgeView { to: pair@.base, rate: DecView::zero(), quantity: DecView::zero() },
        ),
{
    graph.add_edge(pair.base.clone(), pair.quote.clone(), Dec::zero(), Dec::zero());
    graph.add_edge(pair.quote.clone(), pair.base.clone(), Dec::zero(), Dec::zero());
}

/// The index of the first pair for which the graph lacks an edge, `None`
/// where it has both edges of every pair.
pub fn first_unbacked_pair(graph: &Graph, pairs: &Vec<Pair>) -> (r: Option<usize>)
    ensures
        match r {
            Some(i) => {
                &&& i < pairs@.len()
                &&& !backed(graph@, pairs@[i as int]@)
                &&& forall|j: int| 0 <= j < i ==> backed(graph@, (#[trigger] pairs@[j])@)
            },
            None => forall|j: int| 0 <= j < pairs@.len() ==> backed(graph@, (#[trigger] pairs@[j])@),
        },
{
    let mut k: usize = 0;
    while k < pairs.len()
        invariant
            k <= pairs@.len(),
            forall|j: int| 0 <= j < k ==> backed(graph@, (#[trigger] pairs@[j])@),
        decreases pairs@.len() - k,
    {
        let pair = &pairs[k];
        if !(graph.has_edge(&pair.base, &pair.quote) && graph.has_edge(&pair.quote, &pair.base)) {
            return Some(k);
        }
        k += 1;
    }
    None
}

/// An update for a symbol that no declared pair is quoted under leaves the
/// graph as it is.
pub proof fn lemma_unknown_symbol_is_ignored(
    g: GraphView,
    pairs: Seq<PairView>,
    fee: DecView,
    symbol: Seq<char>,
    best_bid: Option<QuoteView>,
    best_ask: Option<QuoteView>,
)
    requires
        forall|i: int| 0 <= i < pairs.len() ==> (#[trigger] pairs[i]).symbol != symbol,
    ensures
        book_update(g, pairs, fee, symbol, best_bid, best_ask) == (g, UpdateOutcome::UnknownSymbol),
{
    lemma_first_pair_from(pairs, symbol, 0);
}

/// Whatever an update brings, the shape of the graph stays as it is: no
/// vertex and no edge comes or goes, and every edge leads where it led.
pub proof fn lemma_book_update_keeps_structure(
    g: GraphView,
    pairs: Seq<PairView>,
    fee: DecView,
    symbol: Seq<char>,
    best_bid: Option<QuoteView>,
    best_ask: Option<QuoteView>,
)
    ensures
        book_update(g, pairs, fee, symbol, best_bid, best_ask).0.structure() == g.structure(),
{
    let i = first_pair_from(pairs, symbol, 0);
    if i < pairs.len() {
        let pair = pairs[i];
        let ask_terms = match best_ask {
            Some(ask) => ask_terms(ask, fee),
            None => None,
        };
        let after_ask = side_update(g, pair.base, pair.quote, best_ask.is_some(), ask_terms);
        if let Some((rate, quantity)) = ask_terms {
            lemma_update_keeps_structure(g, pair.base, pair.quote, rate, quantity);
        }
        assert(after_ask.0.structure() == g.structure());
        let bid_terms = match best_bid {
            Some(bid) => bid_terms(bid, fee),
            None => None,
        };
        if let Some((rate, quantity)) = bid_terms {
            lemma_update_keeps_structure(after_ask.0, pair.quote, pair.base, rate, quantity);
        }
    }
}

/// `first_pair_from` finds a pair quoted under `symbol` and skips none.
pub proof fn lemma_first_pair_from(pairs: Seq<PairView>, symbol: Seq<char>, k: int)
    requires
        0 <= k <= pairs.len(),
    ensures
        k <= first_pair_from(pairs, symbol, k) <= pairs.len(),
        first_pair_from(pairs, symbol, k) < pairs.len() ==> pairs[first_pair_from(
            pairs,
            symbol,
            k,
        )].symbol == symbol,
        forall|j: int|
            k <= j < first_pair_from(pairs, symbol, k) ==> (#[trigger] pairs[j]).symbol != symbol,
    decreases pairs.len() - k,
{
    if k < pairs.len() && pairs[k].symbol != symbol {
        lemma_first_pair_from(pairs, symbol, k + 1);
    }
}

} // verus!
