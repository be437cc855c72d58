use portfolio_tracker::coinbase::{
    classify_record, normalize_records, pair_step, CoinbaseRecord, PairingState,
};
use portfolio_tracker::data::NormalizeError;
use portfolio_tracker::decimal::{parse_decimal, Decimal};
use portfolio_tracker::export::{map_trade, ExportTradeType};
use portfolio_tracker::mexc::{get_symbols, normalize_fill, normalize_fills, MexcTradeRow};

fn dec(s: &str) -> Decimal {
    parse_decimal(s).unwrap()
}

fn fill(symbol: &str, qty: &str, quote_qty: &str, commission: &str, is_buyer: bool) -> MexcTradeRow {
    MexcTradeRow {
        symbol: symbol.to_string(),
        id: "fill-1".to_string(),
        order_id: "order-1".to_string(),
        order_list_id: -1,
        price: "3000".to_string(),
        qty: qty.to_string(),
        quote_qty: quote_qty.to_string(),
        commission: commission.to_string(),
        commission_asset: "USDT".to_string(),
        time: 1_700_000_000_000,
        is_buyer,
        is_maker: false,
        is_best_match: true,
        is_self_trade: false,
        client_order_id: None,
    }
}

fn record(id: &str, kind: &str, amount: &str, currency: &str, native: &str, native_currency: &str) -> CoinbaseRecord {
    CoinbaseRecord {
        id: id.to_string(),
        kind: kind.to_string(),
        status: "completed".to_string(),
        amount_amount: amount.to_string(),
        amount_currency: currency.to_string(),
        native_amount_amount: native.to_string(),
        native_amount_currency: native_currency.to_string(),
        description: None,
        created_at: "2024-03-01T12:00:00Z".to_string(),
        updated_at: "2024-03-01T12:00:00Z".to_string(),
        resource: "transaction".to_string(),
        resource_path: "/v2/accounts/a/transactions/t".to_string(),
        network_status: None,
        network_name: None,
        to_id: None,
        to_resource: None,
        to_resource_path: None,
        details_title: "".to_string(),
        details_subtitle: "".to_string(),
    }
}

#[test]
fn mexc_buy_fill_end_to_end() {
    let row = fill("ETHUSDT", "1.0", "3000.0", "3.0", true);
    let t = normalize_fill(&row, "USDT").unwrap();
    let source = t.source.clone().unwrap();
    assert_eq!(source.asset.name, "USDT");
    assert_eq!(source.amount, dec("3000"));
    assert_eq!(t.destination.asset.name, "ETH");
    assert_eq!(t.destination.amount, dec("1.0"));
    let c = t.comission.clone().unwrap();
    assert_eq!(c.amount.amount, dec("3"));
    assert_eq!(c.amount.asset.name, "USDT");
    assert_eq!(c.usd_amount, dec("3"));
    assert_eq!(t.usd_amount, dec("3000"));
    assert_eq!(t.application.0, "MEXC");
    assert_eq!(t.tx_id, "fill-1");

    let rows = map_trade(&t, &vec!["USDT".to_string()]);
    assert_eq!(rows.len(), 1);
    assert_eq!(rows[0].kind, ExportTradeType::Buy);
    assert_eq!(rows[0].asset, "ETH");
    assert_eq!(rows[0].crypto_amount, dec("1.0"));
    assert_eq!(rows[0].fiat_amount, dec("2997.0"));
    assert_eq!(rows[0].comission_amount, dec("3.0"));
}

#[test]
fn mexc_sell_fill_puts_quote_leg_in_destination() {
    let row = fill("KASUSDT", "250", "30.5", "0.03", false);
    let t = normalize_fill(&row, "USDT").unwrap();
    assert_eq!(t.source.clone().unwrap().asset.name, "KAS");
    assert_eq!(t.destination.asset.name, "USDT");
    let rows = map_trade(&t, &vec!["USDT".to_string()]);
    assert_eq!(rows.len(), 1);
    assert_eq!(rows[0].kind, ExportTradeType::Sell);
    assert_eq!(rows[0].crypto_amount, dec("250"));
    assert_eq!(rows[0].fiat_amount, dec("30.47"));
}

#[test]
fn mexc_zero_commission_is_none() {
    for zero in ["0", "0.0", "0.000"] {
        let t = normalize_fill(&fill("BNBUSDT", "1", "600", zero, true), "USDT").unwrap();
        assert!(t.comission.is_none());
    }
}

#[test]
fn mexc_unsupported_symbol_fails() {
    let r = normalize_fill(&fill("FOOBAR", "1", "1", "0", true), "USDT");
    assert_eq!(r, Err(NormalizeError::UnsupportedSymbol("FOOBAR".to_string())));
    let all = normalize_fills(&vec![fill("ETHUSDT", "1", "1", "0", true), fill("FOOBAR", "1", "1", "0", true)], "USDT");
    assert_eq!(all, Err(NormalizeError::UnsupportedSymbol("FOOBAR".to_string())));
}

#[test]
fn mexc_bad_quantity_fails() {
    let r = normalize_fill(&fill("ETHUSDT", "1e3", "1", "0", true), "USDT");
    assert_eq!(r, Err(NormalizeError::InvalidAmount("fill-1".to_string())));
}

#[test]
fn mexc_out_of_range_time_fails() {
    let mut row = fill("ETHUSDT", "1", "1", "0", true);
    row.time = i64::MAX;
    assert_eq!(normalize_fill(&row, "USDT"), Err(NormalizeError::InvalidTimestamp("fill-1".to_string())));
}

#[test]
fn mexc_fills_keep_order() {
    let rows = vec![fill("ETHUSDT", "1", "3000", "0", true), fill("APTUSDT", "10", "90", "0", false)];
    let trades = normalize_fills(&rows, "USDT").unwrap();
    assert_eq!(trades.len(), 2);
    assert_eq!(trades[0].destination.asset.name, "ETH");
    assert_eq!(trades[1].source.clone().unwrap().asset.name, "APT");
}

#[test]
fn mexc_symbols_all_end_with_quote() {
    let symbols = get_symbols();
    assert_eq!(symbols.len(), 18);
    assert!(symbols.iter().all(|s| s.ends_with("USDT")));
    assert_eq!(symbols[7], "ETHUSDT");
}

#[test]
fn coinbase_buy_emits_trade() {
    let r = record("c-1", "buy", "0.5", "BTC", "20000", "USD");
    let t = classify_record(&r, "EUR").unwrap().unwrap();
    assert_eq!(t.source.clone().unwrap().asset.name, "USD");
    assert_eq!(t.source.clone().unwrap().amount, dec("20000"));
    assert_eq!(t.destination.asset.name, "BTC");
    assert_eq!(t.destination.amount, dec("0.5"));
    assert_eq!(t.usd_amount, dec("20000"));
    assert_eq!(t.timestamp.millis(), 1_709_294_400_000);
}

#[test]
fn coinbase_sell_negates_amounts() {
    let r = record("c-2", "sell", "-0.5", "BTC", "-21000", "USD");
    let t = classify_record(&r, "EUR").unwrap().unwrap();
    assert_eq!(t.source.clone().unwrap().amount, dec("0.5"));
    assert_eq!(t.destination.amount, dec("21000"));
    assert_eq!(t.destination.asset.name, "USD");
}

#[test]
fn coinbase_buy_in_reference_fiat_is_skipped() {
    let r = record("c-3", "buy", "0.5", "BTC", "20000", "EUR");
    assert_eq!(classify_record(&r, "EUR"), Ok(None));
}

#[test]
fn coinbase_earn_payout_has_no_source() {
    let r = record("c-4", "earn_payout", "0.01", "ATOM", "0.08", "EUR");
    let t = classify_record(&r, "EUR").unwrap().unwrap();
    assert!(t.source.is_none());
    assert_eq!(t.destination.amount, dec("0.01"));
    let rows = map_trade(&t, &vec![]);
    assert_eq!(rows[0].fiat_amount, dec("0.01"));
}

#[test]
fn coinbase_send_and_deposit_are_skipped() {
    assert_eq!(classify_record(&record("c-5", "send", "-1", "ETH", "-2000", "EUR"), "EUR"), Ok(None));
    assert_eq!(classify_record(&record("c-6", "fiat_deposit", "100", "EUR", "100", "EUR"), "EUR"), Ok(None));
}

#[test]
fn coinbase_unknown_kind_fails() {
    let r = classify_record(&record("c-7", "staking_reward", "1", "ETH", "1", "EUR"), "EUR");
    assert_eq!(r, Err(NormalizeError::UnimplementedTransactionType("staking_reward".to_string())));
}

#[test]
fn coinbase_trade_legs_pair_in_either_order() {
    let out = record("t-1", "trade", "-1", "BTC", "-30000", "EUR");
    let inn = record("t-2", "trade", "15", "ETH", "29900", "EUR");
    let trades = normalize_records(&vec![out.clone(), inn.clone()], "EUR").unwrap();
    assert_eq!(trades.len(), 1);
    let t = &trades[0];
    assert_eq!(t.tx_id, "t-2");
    assert_eq!(t.source.clone().unwrap().asset.name, "BTC");
    assert_eq!(t.source.clone().unwrap().amount, dec("1"));
    assert_eq!(t.destination.asset.name, "ETH");
    assert_eq!(t.usd_amount, dec("30000"));
    let c = t.comission.clone().unwrap();
    assert_eq!(c.amount.amount, dec("100"));
    assert_eq!(c.amount.asset.name, "EUR");

    let trades = normalize_records(&vec![inn, out], "EUR").unwrap();
    assert_eq!(trades.len(), 1);
    assert_eq!(trades[0].tx_id, "t-1");
    assert_eq!(trades[0].comission.clone().unwrap().amount.amount, dec("100"));
}

#[test]
fn coinbase_equal_legs_have_zero_commission() {
    let out = record("t-1", "trade", "-2", "SOL", "-250.5", "EUR");
    let inn = record("t-2", "trade", "0.1", "ETH", "250.5", "EUR");
    let (state, done) = pair_step(PairingState::new(), &out, "EUR").unwrap();
    assert!(done.is_none());
    let (state, done) = pair_step(state, &inn, "EUR").unwrap();
    assert_eq!(state, PairingState::new());
    assert_eq!(done.unwrap().comission.unwrap().amount.amount, Decimal::zero());
}

#[test]
fn coinbase_trade_leg_in_other_fiat_fails() {
    let r = normalize_records(&vec![record("t-1", "trade", "-1", "BTC", "-30000", "USD")], "EUR");
    assert_eq!(r, Err(NormalizeError::UnimplementedCurrency("USD".to_string())));
}

#[test]
fn coinbase_overlapping_legs_fail() {
    let a = record("t-1", "trade", "-1", "BTC", "-30000", "EUR");
    let b = record("t-2", "trade", "-2", "ETH", "-5000", "EUR");
    let r = normalize_records(&vec![a, b], "EUR");
    assert_eq!(r, Err(NormalizeError::OverlappingTradeLegs("t-2".to_string())));
}

#[test]
fn coinbase_records_classified_before_pairs() {
    let rows = vec![
        record("t-1", "trade", "-1", "BTC", "-30000", "EUR"),
        record("b-1", "buy", "1", "ETH", "2000", "USD"),
        record("t-2", "trade", "15", "ETH", "29900", "EUR"),
        record("s-1", "send", "-1", "ETH", "-2000", "EUR"),
    ];
    let trades = normalize_records(&rows, "EUR").unwrap();
    assert_eq!(trades.len(), 2);
    assert_eq!(trades[0].tx_id, "b-1");
    assert_eq!(trades[1].tx_id, "t-2");
}

#[test]
fn coinbase_bad_time_fails() {
    let mut r = record("c-9", "buy", "1", "ETH", "2000", "USD");
    r.created_at = "yesterday".to_string();
    assert_eq!(classify_record(&r, "EUR"), Err(NormalizeError::InvalidTimestamp("c-9".to_string())));
}

#[test]
fn all_trades_are_merged_in_time_order() {
    let mut late = fill("ETHUSDT", "1", "3000", "0", true);
    late.id = "m-late".to_string();
    late.time = 1_800_000_000_000;
    let mut early = fill("KASUSDT", "1", "1", "0", true);
    early.id = "m-early".to_string();
    early.time = 1_600_000_000_000;
    let cb = record("c-1", "buy", "0.5", "BTC", "20000", "USD");
    let all = portfolio_tracker::reconcile::get_all_trades(&vec![late, early], &vec![cb], "USDT", "EUR").unwrap();
    let ids: Vec<String> = all
        .iter()
        .map(|t| match t {
            portfolio_tracker::data::Transaction::Trade(t) => t.tx_id.clone(),
            _ => String::new(),
        })
        .collect();
    assert_eq!(ids, vec!["m-early", "c-1", "m-late"]);
}
