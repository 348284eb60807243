use arbitrage::{
    apply_book_update, declare_pair, find_arbitrage, first_unbacked_pair, Dec, FeeModel, Graph,
    Pair, Quote, SideOutcome, TopOfBook, UpdateOutcome,
};
use rust_decimal::Decimal;

fn dec(mantissa: i128, scale: u32) -> Dec {
    Dec::new(mantissa, scale).unwrap()
}

fn value(d: Dec) -> Decimal {
    Decimal::from_i128_with_scale(d.mantissa(), d.scale())
}

fn s(text: &str) -> String {
    text.to_string()
}

fn pair(base: &str, quote: &str) -> Pair {
    Pair { symbol: format!("{}/{}", base, quote), base: s(base), quote: s(quote) }
}

fn quote(price: Dec, quantity: Dec) -> Option<Quote> {
    Some(Quote { price, quantity })
}

fn market() -> (Graph, Vec<Pair>) {
    let pairs = vec![pair("SOL", "BTC"), pair("SOL", "USD"), pair("BTC", "USD")];
    let mut graph = Graph::new();
    for asset in ["SOL", "BTC", "USD"] {
        graph.add_vertex(s(asset));
    }
    for p in &pairs {
        declare_pair(&mut graph, p);
    }
    (graph, pairs)
}

fn edge(graph: &Graph, from: &str, to: &str) -> (Decimal, Decimal) {
    let edges = graph.edges_from(&s(from)).unwrap();
    let e = edges.iter().find(|e| e.to == to).unwrap();
    (value(e.rate), value(e.quantity))
}

fn all_edges(graph: &Graph) -> Vec<(String, String, Decimal, Decimal)> {
    let mut all = Vec::new();
    for from in ["SOL", "BTC", "USD", "FTT", "USDT"] {
        if let Some(edges) = graph.edges_from(&s(from)) {
            for e in edges {
                all.push((s(from), e.to.clone(), value(e.rate), value(e.quantity)));
            }
        }
    }
    all
}

#[test]
fn declare_pair_adds_both_edges_without_a_quote() {
    let mut graph = Graph::new();
    declare_pair(&mut graph, &pair("SOL", "USD"));
    assert_eq!(
        all_edges(&graph),
        vec![
            (s("SOL"), s("USD"), Decimal::ZERO, Decimal::ZERO),
            (s("USD"), s("SOL"), Decimal::ZERO, Decimal::ZERO),
        ]
    );
    assert!(graph.vertices().is_empty());
}

#[test]
fn declared_market_has_two_edges_for_each_pair() {
    let (graph, pairs) = market();
    assert_eq!(all_edges(&graph).len(), 2 * pairs.len());
    for p in &pairs {
        assert!(graph.has_edge(&p.base, &p.quote));
        assert!(graph.has_edge(&p.quote, &p.base));
    }
    assert_eq!(first_unbacked_pair(&graph, &pairs), None);
}

#[test]
fn first_unbacked_pair_names_the_first_pair_without_its_edges() {
    let (graph, mut pairs) = market();
    pairs.insert(1, pair("FTT", "USD"));
    pairs.push(pair("FTT", "BTC"));
    assert_eq!(first_unbacked_pair(&graph, &pairs), Some(1));
    assert_eq!(first_unbacked_pair(&Graph::new(), &pairs), Some(0));
    assert_eq!(first_unbacked_pair(&Graph::new(), &Vec::new()), None);
}

#[test]
fn first_unbacked_pair_wants_both_directions() {
    let mut graph = Graph::new();
    graph.add_edge(s("SOL"), s("USD"), Dec::zero(), Dec::zero());
    assert_eq!(first_unbacked_pair(&graph, &vec![pair("SOL", "USD")]), Some(0));
    graph.add_edge(s("USD"), s("SOL"), Dec::zero(), Dec::zero());
    assert_eq!(first_unbacked_pair(&graph, &vec![pair("SOL", "USD")]), None);
}

#[test]
fn update_sets_both_edges_of_the_pair() {
    let (mut graph, pairs) = market();
    let fees = FeeModel::new(dec(8, 2));
    let top = TopOfBook { best_bid: quote(dec(49, 0), dec(20, 0)), best_ask: quote(dec(50, 0), dec(10, 0)) };
    let out = apply_book_update(&mut graph, &pairs, &fees, &s("SOL/USD"), &top);
    assert_eq!(out, UpdateOutcome::Known { ask: SideOutcome::Applied, bid: SideOutcome::Applied });
    assert_eq!(edge(&graph, "SOL", "USD"), (Decimal::new(54, 0), Decimal::new(500, 0)));
    let sell = (Decimal::ONE / Decimal::from(49)) * (Decimal::ONE - Decimal::new(8, 2));
    assert_eq!(edge(&graph, "USD", "SOL"), (sell, Decimal::new(20, 0)));
}

#[test]
fn update_leaves_the_other_pairs_alone() {
    let (mut graph, pairs) = market();
    let fees = FeeModel::new(dec(8, 4));
    let top = TopOfBook { best_bid: quote(dec(49, 0), dec(20, 0)), best_ask: quote(dec(50, 0), dec(10, 0)) };
    apply_book_update(&mut graph, &pairs, &fees, &s("SOL/USD"), &top);
    let zero = (Decimal::ZERO, Decimal::ZERO);
    assert_eq!(edge(&graph, "SOL", "BTC"), zero);
    assert_eq!(edge(&graph, "BTC", "SOL"), zero);
    assert_eq!(edge(&graph, "BTC", "USD"), zero);
    assert_eq!(edge(&graph, "USD", "BTC"), zero);
    assert_eq!(graph.vertices(), &vec![s("SOL"), s("BTC"), s("USD")]);
}

#[test]
fn update_for_an_unknown_symbol_changes_nothing() {
    let (mut graph, pairs) = market();
    let fees = FeeModel::new(dec(8, 2));
    let top = TopOfBook { best_bid: quote(dec(49, 0), dec(20, 0)), best_ask: quote(dec(50, 0), dec(10, 0)) };
    apply_book_update(&mut graph, &pairs, &fees, &s("SOL/USD"), &top);
    let before = all_edges(&graph);
    for symbol in ["FTT/USD", "USD/SOL", "SOL", "", "SOL/USDT", "sol/usd"] {
        let out = apply_book_update(&mut graph, &pairs, &fees, &s(symbol), &top);
        assert_eq!(out, UpdateOutcome::UnknownSymbol);
        assert_eq!(all_edges(&graph), before);
        assert_eq!(graph.vertices(), &vec![s("SOL"), s("BTC"), s("USD")]);
    }
}

#[test]
fn update_without_pairs_changes_nothing() {
    let (mut graph, _) = market();
    let fees = FeeModel::new(dec(8, 2));
    let top = TopOfBook { best_bid: quote(dec(49, 0), dec(20, 0)), best_ask: quote(dec(50, 0), dec(10, 0)) };
    let before = all_edges(&graph);
    let out = apply_book_update(&mut graph, &Vec::new(), &fees, &s("SOL/USD"), &top);
    assert_eq!(out, UpdateOutcome::UnknownSymbol);
    assert_eq!(all_edges(&graph), before);
}

#[test]
fn side_without_a_quote_is_skipped() {
    let (mut graph, pairs) = market();
    let fees = FeeModel::new(dec(8, 2));
    let top = TopOfBook { best_bid: quote(dec(49, 0), dec(20, 0)), best_ask: None };
    let out = apply_book_update(&mut graph, &pairs, &fees, &s("SOL/USD"), &top);
    assert_eq!(out, UpdateOutcome::Known { ask: SideOutcome::MissingQuote, bid: SideOutcome::Applied });
    assert_eq!(edge(&graph, "SOL", "USD"), (Decimal::ZERO, Decimal::ZERO));
    assert_eq!(edge(&graph, "USD", "SOL").1, Decimal::new(20, 0));

    let top = TopOfBook { best_bid: None, best_ask: quote(dec(50, 0), dec(10, 0)) };
    let out = apply_book_update(&mut graph, &pairs, &fees, &s("BTC/USD"), &top);
    assert_eq!(out, UpdateOutcome::Known { ask: SideOutcome::Applied, bid: SideOutcome::MissingQuote });
    assert_eq!(edge(&graph, "BTC", "USD"), (Decimal::new(54, 0), Decimal::new(500, 0)));
    assert_eq!(edge(&graph, "USD", "BTC"), (Decimal::ZERO, Decimal::ZERO));
}

#[test]
fn book_without_quotes_changes_nothing() {
    let (mut graph, pairs) = market();
    let fees = FeeModel::new(dec(8, 2));
    let before = all_edges(&graph);
    let top = TopOfBook { best_bid: None, best_ask: None };
    let out = apply_book_update(&mut graph, &pairs, &fees, &s("SOL/BTC"), &top);
    assert_eq!(
        out,
        UpdateOutcome::Known { ask: SideOutcome::MissingQuote, bid: SideOutcome::MissingQuote }
    );
    assert_eq!(all_edges(&graph), before);
}

#[test]
fn bid_of_zero_cannot_be_priced() {
    let (mut graph, pairs) = market();
    let fees = FeeModel::new(dec(8, 2));
    let top = TopOfBook { best_bid: quote(dec(0, 0), dec(20, 0)), best_ask: quote(dec(50, 0), dec(10, 0)) };
    let out = apply_book_update(&mut graph, &pairs, &fees, &s("SOL/USD"), &top);
    assert_eq!(out, UpdateOutcome::Known { ask: SideOutcome::Applied, bid: SideOutcome::Unpriced });
    assert_eq!(edge(&graph, "SOL", "USD"), (Decimal::new(54, 0), Decimal::new(500, 0)));
    assert_eq!(edge(&graph, "USD", "SOL"), (Decimal::ZERO, Decimal::ZERO));
}

#[test]
fn ask_that_overflows_cannot_be_priced() {
    let (mut graph, pairs) = market();
    let fees = FeeModel::new(dec(8, 2));
    let huge = dec(70000000000000000000000000000, 0);
    let top = TopOfBook { best_bid: quote(dec(49, 0), dec(20, 0)), best_ask: quote(huge, dec(2, 0)) };
    let out = apply_book_update(&mut graph, &pairs, &fees, &s("SOL/USD"), &top);
    assert_eq!(out, UpdateOutcome::Known { ask: SideOutcome::Unpriced, bid: SideOutcome::Applied });
    assert_eq!(edge(&graph, "SOL", "USD"), (Decimal::ZERO, Decimal::ZERO));
    assert_eq!(edge(&graph, "USD", "SOL").1, Decimal::new(20, 0));
}

#[test]
fn pair_without_edges_is_reported() {
    let mut graph = Graph::new();
    graph.add_edge(s("USD"), s("SOL"), Dec::zero(), Dec::zero());
    let pairs = vec![pair("SOL", "USD")];
    let fees = FeeModel::new(Dec::zero());
    let top = TopOfBook { best_bid: quote(dec(49, 0), dec(20, 0)), best_ask: quote(dec(50, 0), dec(10, 0)) };
    let out = apply_book_update(&mut graph, &pairs, &fees, &s("SOL/USD"), &top);
    assert_eq!(out, UpdateOutcome::Known { ask: SideOutcome::NoEdge, bid: SideOutcome::Applied });
    assert!(graph.edges_from(&s("SOL")).is_none());
    assert_eq!(edge(&graph, "USD", "SOL").1, Decimal::new(20, 0));
}

#[test]
fn first_pair_under_a_symbol_is_the_one_updated() {
    let mut graph = Graph::new();
    let pairs = vec![
        Pair { symbol: s("X"), base: s("A"), quote: s("B") },
        Pair { symbol: s("X"), base: s("C"), quote: s("D") },
    ];
    for p in &pairs {
        declare_pair(&mut graph, p);
    }
    let fees = FeeModel::new(Dec::zero());
    let top = TopOfBook { best_bid: quote(dec(4, 0), dec(20, 0)), best_ask: quote(dec(5, 0), dec(10, 0)) };
    apply_book_update(&mut graph, &pairs, &fees, &s("X"), &top);
    assert_eq!(edge(&graph, "A", "B"), (Decimal::new(5, 0), Decimal::new(50, 0)));
    assert_eq!(edge(&graph, "B", "A"), (Decimal::new(25, 2), Decimal::new(20, 0)));
    assert_eq!(edge(&graph, "C", "D"), (Decimal::ZERO, Decimal::ZERO));
    assert_eq!(edge(&graph, "D", "C"), (Decimal::ZERO, Decimal::ZERO));
}

#[test]
fn later_update_overwrites_the_earlier_one() {
    let (mut graph, pairs) = market();
    let fees = FeeModel::new(Dec::zero());
    let top = TopOfBook { best_bid: quote(dec(4, 0), dec(20, 0)), best_ask: quote(dec(5, 0), dec(10, 0)) };
    apply_book_update(&mut graph, &pairs, &fees, &s("SOL/USD"), &top);
    let top = TopOfBook { best_bid: quote(dec(8, 0), dec(1, 0)), best_ask: quote(dec(10, 0), dec(3, 0)) };
    apply_book_update(&mut graph, &pairs, &fees, &s("SOL/USD"), &top);
    assert_eq!(edge(&graph, "SOL", "USD"), (Decimal::new(10, 0), Decimal::new(30, 0)));
    assert_eq!(edge(&graph, "USD", "SOL"), (Decimal::new(125, 3), Decimal::new(1, 0)));
}

#[test]
fn quotes_that_open_a_cycle_are_found_on_the_next_search() {
    let (mut graph, pairs) = market();
    let fees = FeeModel::new(Dec::zero());
    let ticks = [
        ("SOL/BTC", dec(1, 2), dec(1000, 0), dec(1, 2), dec(1000, 0)),
        ("BTC/USD", dec(50000, 0), dec(1, 0), dec(50000, 0), dec(1, 0)),
    ];
    for (symbol, ask, ask_quantity, bid, bid_quantity) in ticks {
        let top = TopOfBook { best_bid: quote(bid, bid_quantity), best_ask: quote(ask, ask_quantity) };
        let out = apply_book_update(&mut graph, &pairs, &fees, &s(symbol), &top);
        assert_eq!(out, UpdateOutcome::Known { ask: SideOutcome::Applied, bid: SideOutcome::Applied });
        assert!(!find_arbitrage(&graph, &s("USD")).unwrap().profitable);
    }
    let top = TopOfBook { best_bid: quote(dec(400, 0), dec(1000, 0)), best_ask: quote(dec(400, 0), dec(1000, 0)) };
    apply_book_update(&mut graph, &pairs, &fees, &s("SOL/USD"), &top);
    let found = find_arbitrage(&graph, &s("USD")).unwrap();
    assert!(found.profitable);
    assert_eq!(
        found.path,
        vec![(s("USD"), s("SOL")), (s("SOL"), s("BTC")), (s("BTC"), s("USD"))]
    );
    assert_eq!(value(found.amounts[2].1), Decimal::new(50000, 0));
    assert_eq!(value(found.amounts[0].1), Decimal::new(40000, 0));
}

#[test]
fn rounded_reciprocal_can_close_a_cycle_of_two_hops() {
    let (mut graph, pairs) = market();
    let fees = FeeModel::new(Dec::zero());
    let top = TopOfBook { best_bid: quote(dec(52000, 0), dec(1, 0)), best_ask: quote(dec(52000, 0), dec(1, 0)) };
    apply_book_update(&mut graph, &pairs, &fees, &s("BTC/USD"), &top);
    let reciprocal = edge(&graph, "USD", "BTC").0;
    assert_eq!(reciprocal, Decimal::ONE / Decimal::from(52000));
    let product = Decimal::from(52000) * reciprocal;
    let found = find_arbitrage(&graph, &s("USD")).unwrap();
    assert_eq!(found.profitable, product > Decimal::ONE);
}
