use crypto_broker::catalog::{Chain, QuoteSourceKind};
use crypto_broker::quotes::{
    default_quote_sources, edit_source, find_source, plan_quote_refresh, quote_request,
    ChainQuoteConfig, QuoteTarget, SourceEdit,
};

fn ws_source(chain: Chain, endpoint: &str, subscribe: &str) -> ChainQuoteConfig {
    ChainQuoteConfig {
        chain,
        kind: QuoteSourceKind::WebSocket,
        endpoint_template: endpoint.to_string(),
        price_path: "p".to_string(),
        ws_subscribe_template: subscribe.to_string(),
    }
}

#[test]
fn default_sources_one_per_chain() {
    let s = default_quote_sources();
    assert_eq!(s.len(), 13);
    for (i, c) in Chain::all().into_iter().enumerate() {
        assert_eq!(s[i].chain, c);
        assert_eq!(s[i].kind, QuoteSourceKind::Rest);
        assert_eq!(
            s[i].endpoint_template,
            "https://api.binance.com/api/v3/ticker/price?symbol={symbol}USDT"
        );
        assert_eq!(s[i].price_path, "price");
        assert_eq!(
            s[i].ws_subscribe_template,
            r#"{"method":"SUBSCRIBE","params":["{symbol}usdt@trade"],"id":1}"#
        );
        assert_eq!(find_source(&s, c), Some(i));
    }
}

#[test]
fn find_first_source_of_chain() {
    let s = vec![
        ws_source(Chain::Solana, "a", ""),
        ws_source(Chain::Base, "b", ""),
        ws_source(Chain::Solana, "c", ""),
    ];
    assert_eq!(find_source(&s, Chain::Solana), Some(0));
    assert_eq!(find_source(&s, Chain::Base), Some(1));
    assert_eq!(find_source(&s, Chain::Juno), None);
    assert_eq!(find_source(&Vec::new(), Chain::Juno), None);
}

#[test]
fn edits_touch_only_the_first_source_of_the_chain() {
    let mut s = vec![
        ws_source(Chain::Solana, "a", "x"),
        ws_source(Chain::Base, "b", "y"),
        ws_source(Chain::Solana, "c", "z"),
    ];
    edit_source(&mut s, Chain::Solana, SourceEdit::EndpointTemplate("new".to_string()));
    assert_eq!(s.len(), 3);
    assert_eq!(s[0].endpoint_template, "new");
    assert_eq!(s[0].ws_subscribe_template, "x");
    assert_eq!(s[0].kind, QuoteSourceKind::WebSocket);
    assert_eq!(s[1].endpoint_template, "b");
    assert_eq!(s[2].endpoint_template, "c");
    edit_source(&mut s, Chain::Base, SourceEdit::Kind(QuoteSourceKind::Rest));
    assert_eq!(s[1].kind, QuoteSourceKind::Rest);
    assert_eq!(s[2].kind, QuoteSourceKind::WebSocket);
    edit_source(&mut s, Chain::Base, SourceEdit::PricePath("data.last".to_string()));
    assert_eq!(s[1].price_path, "data.last");
    assert_eq!(s[0].price_path, "p");
    edit_source(&mut s, Chain::Solana, SourceEdit::SubscribeTemplate("sub".to_string()));
    assert_eq!(s[0].ws_subscribe_template, "sub");
    assert_eq!(s[2].ws_subscribe_template, "z");
    assert_eq!(find_source(&s, Chain::Solana), Some(0));
}

#[test]
fn edit_of_missing_chain_changes_nothing() {
    let mut s = vec![ws_source(Chain::Solana, "a", "x")];
    edit_source(&mut s, Chain::Juno, SourceEdit::PricePath("q".to_string()));
    assert_eq!(s.len(), 1);
    assert_eq!(s[0].price_path, "p");
    assert_eq!(s[0].endpoint_template, "a");
}

#[test]
fn same_edit_twice_is_same_as_once() {
    let mut once = default_quote_sources();
    edit_source(&mut once, Chain::Osmosis, SourceEdit::EndpointTemplate("u".to_string()));
    let mut twice = default_quote_sources();
    edit_source(&mut twice, Chain::Osmosis, SourceEdit::EndpointTemplate("u".to_string()));
    edit_source(&mut twice, Chain::Osmosis, SourceEdit::EndpointTemplate("u".to_string()));
    for (a, b) in once.iter().zip(twice.iter()) {
        assert_eq!(a.endpoint_template, b.endpoint_template);
        assert_eq!(a.chain, b.chain);
    }
}

#[test]
fn rest_request_from_default_source() {
    let s = default_quote_sources();
    let q = quote_request(&s[0], "BTC");
    assert_eq!(q.kind, QuoteSourceKind::Rest);
    assert_eq!(q.url, "https://api.binance.com/api/v3/ticker/price?symbol=BTCUSDT");
    assert_eq!(q.subscribe, None);
    assert_eq!(q.price_path, "price");
}

#[test]
fn websocket_request_with_subscription() {
    let cfg = ws_source(Chain::Ethereum, "wss://x/{symbol}", "sub {symbol} {symbol}");
    let q = quote_request(&cfg, "eth");
    assert_eq!(q.kind, QuoteSourceKind::WebSocket);
    assert_eq!(q.url, "wss://x/eth");
    assert_eq!(q.subscribe, Some("sub eth eth".to_string()));
    assert_eq!(q.price_path, "p");
}

#[test]
fn websocket_request_with_blank_subscription() {
    let q = quote_request(&ws_source(Chain::Ethereum, "wss://x", "  \n"), "ETH");
    assert_eq!(q.url, "wss://x");
    assert_eq!(q.subscribe, None);
    let q = quote_request(&ws_source(Chain::Ethereum, "wss://x", ""), "ETH");
    assert_eq!(q.subscribe, None);
}

#[test]
fn refresh_plan_follows_assets() {
    let mut s = default_quote_sources();
    s.retain(|c| c.chain != Chain::Juno);
    edit_source(&mut s, Chain::Ethereum, SourceEdit::Kind(QuoteSourceKind::WebSocket));
    let targets = vec![
        QuoteTarget { chain: Chain::Bitcoin, symbol: "BTC".to_string() },
        QuoteTarget { chain: Chain::Juno, symbol: "JUNO".to_string() },
        QuoteTarget { chain: Chain::Ethereum, symbol: "ETH".to_string() },
    ];
    let plan = plan_quote_refresh(&targets, &s);
    assert_eq!(plan.len(), 3);
    let first = plan[0].as_ref().unwrap();
    assert_eq!(first.url, "https://api.binance.com/api/v3/ticker/price?symbol=BTCUSDT");
    assert!(plan[1].is_none());
    let third = plan[2].as_ref().unwrap();
    assert_eq!(third.kind, QuoteSourceKind::WebSocket);
    assert_eq!(
        third.subscribe,
        Some(r#"{"method":"SUBSCRIBE","params":["ETHusdt@trade"],"id":1}"#.to_string())
    );
    assert!(plan_quote_refresh(&Vec::new(), &s).is_empty());
    let all: Vec<QuoteTarget> = Chain::all()
        .into_iter()
        .map(|c| QuoteTarget { chain: c, symbol: "X".to_string() })
        .collect();
    assert!(plan_quote_refresh(&all, &default_quote_sources()).iter().all(|p| p.is_some()));
}
