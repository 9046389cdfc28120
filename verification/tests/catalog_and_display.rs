use crypto_broker::catalog::{Chain, QuoteSourceKind, TimeRange};
use crypto_broker::display::{pnl_class, stat_item_class};

#[test]
fn time_range_labels_and_days() {
    assert_eq!(TimeRange::D7.label(), "7D");
    assert_eq!(TimeRange::D30.label(), "30D");
    assert_eq!(TimeRange::D90.label(), "90D");
    assert_eq!(TimeRange::All.label(), "ALL");
    assert_eq!(TimeRange::D7.days(), Some(7));
    assert_eq!(TimeRange::D30.days(), Some(30));
    assert_eq!(TimeRange::D90.days(), Some(90));
    assert_eq!(TimeRange::All.days(), None);
}

#[test]
fn time_range_buttons_in_order() {
    assert_eq!(
        TimeRange::all(),
        vec![TimeRange::D7, TimeRange::D30, TimeRange::D90, TimeRange::All]
    );
}

#[test]
fn chain_labels() {
    assert_eq!(Chain::Bitcoin.label(), "Bitcoin");
    assert_eq!(Chain::Bnb.label(), "BNB Chain");
    assert_eq!(Chain::CosmosHub.label(), "Cosmos Hub");
    assert_eq!(Chain::Injective.label(), "Injective");
}

#[test]
fn chain_list_names_each_chain_once() {
    let all = Chain::all();
    assert_eq!(all.len(), 13);
    assert_eq!(all[0], Chain::Bitcoin);
    assert_eq!(all[12], Chain::Injective);
    for (i, a) in all.iter().enumerate() {
        for (j, b) in all.iter().enumerate() {
            assert_eq!(i == j, a == b);
        }
    }
}

#[test]
fn chain_found_back_from_its_label() {
    for c in Chain::all() {
        assert_eq!(Chain::from_label(c.label()), Some(c));
    }
}

#[test]
fn chain_from_unknown_label() {
    assert_eq!(Chain::from_label("Dogecoin"), None);
    assert_eq!(Chain::from_label(""), None);
    assert_eq!(Chain::from_label("bitcoin"), None);
    assert_eq!(Chain::from_label("Bitcoin "), None);
}

#[test]
fn kind_labels_and_lookup() {
    assert_eq!(QuoteSourceKind::Rest.label(), "RESTful API");
    assert_eq!(QuoteSourceKind::WebSocket.label(), "WebSocket");
    assert_eq!(QuoteSourceKind::from_label("WebSocket"), QuoteSourceKind::WebSocket);
    assert_eq!(QuoteSourceKind::from_label("RESTful API"), QuoteSourceKind::Rest);
    assert_eq!(QuoteSourceKind::from_label("websocket"), QuoteSourceKind::Rest);
    assert_eq!(QuoteSourceKind::from_label(""), QuoteSourceKind::Rest);
}

#[test]
fn kind_found_back_from_its_label() {
    for k in [QuoteSourceKind::Rest, QuoteSourceKind::WebSocket] {
        assert_eq!(QuoteSourceKind::from_label(k.label()), k);
    }
}

#[test]
fn stat_tile_styles() {
    assert_eq!(
        stat_item_class(false, "-12.00 USD"),
        "rounded-xl bg-slate-800/80 p-3 text-slate-100"
    );
    assert_eq!(
        stat_item_class(true, "-12.00 USD"),
        "rounded-xl bg-red-500/15 p-3 text-red-300"
    );
    assert_eq!(
        stat_item_class(true, "+12.00 USD"),
        "rounded-xl bg-emerald-500/15 p-3 text-emerald-300"
    );
    assert_eq!(
        stat_item_class(true, ""),
        "rounded-xl bg-emerald-500/15 p-3 text-emerald-300"
    );
}

#[test]
fn pnl_cell_styles() {
    assert_eq!(pnl_class(true), "px-4 py-3 text-right text-emerald-300");
    assert_eq!(pnl_class(false), "px-4 py-3 text-right text-red-300");
}
