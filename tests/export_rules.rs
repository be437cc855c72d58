use portfolio_tracker::data::{
    Airdrop, Amount, Application, Asset, Bridge, Comission, Trade, Transaction, ValueStore,
};
use portfolio_tracker::decimal::{parse_decimal, Decimal};
use portfolio_tracker::export::{
    export_rows, is_fiat_reference, is_usd, map_airdrop, map_trade, map_transaction,
    split_comission, ExportError, ExportTradeType,
};
use portfolio_tracker::time::Timestamp;

fn dec(s: &str) -> Decimal {
    parse_decimal(s).unwrap()
}

fn asset(name: &str) -> Asset {
    Asset { name: name.to_string(), contract_address: None }
}

fn amount(q: &str, name: &str) -> Amount {
    Amount { amount: dec(q), asset: asset(name) }
}

fn at(millis: i64) -> Timestamp {
    Timestamp::from_millis(millis).unwrap()
}

fn trade(source: Option<Amount>, destination: Amount, fee: Option<&str>, usd: &str) -> Trade {
    Trade {
        application: Application("Coinbase".to_string()),
        tx_id: "tx-1".to_string(),
        source,
        destination,
        comission: fee.map(|f| Comission { amount: amount(f, "USD"), usd_amount: dec(f) }),
        usd_amount: dec(usd),
        timestamp: at(1_700_000_000_000),
    }
}

fn no_fiat() -> Vec<String> {
    vec![]
}

#[test]
fn is_usd_only_for_usd() {
    assert!(is_usd(&asset("USD")));
    assert!(!is_usd(&asset("USDT")));
    assert!(!is_usd(&asset("usd")));
}

#[test]
fn fiat_reference_includes_listed_tickers() {
    let fiat = vec!["USDT".to_string(), "EUR".to_string()];
    assert!(is_fiat_reference(&asset("USD"), &fiat));
    assert!(is_fiat_reference(&asset("EUR"), &fiat));
    assert!(!is_fiat_reference(&asset("BTC"), &fiat));
}

#[test]
fn crypto_to_crypto_trade_splits_into_two_lines() {
    let mut t = trade(Some(amount("1", "BTC")), amount("15", "ETH"), None, "30000");
    t.comission = Some(Comission { amount: amount("100", "BTC"), usd_amount: dec("100") });
    let rows = map_trade(&t, &no_fiat());
    assert_eq!(rows.len(), 2);
    assert_eq!(rows[0].kind, ExportTradeType::Sell);
    assert_eq!(rows[0].asset, "BTC");
    assert_eq!(rows[0].currency, "USD");
    assert_eq!(rows[0].crypto_amount, dec("1.0"));
    assert_eq!(rows[0].fiat_amount, dec("29950.0"));
    assert_eq!(rows[0].comission_amount, dec("50.0"));
    assert_eq!(rows[1].kind, ExportTradeType::Buy);
    assert_eq!(rows[1].asset, "ETH");
    assert_eq!(rows[1].crypto_amount, dec("15.0"));
    assert_eq!(rows[1].fiat_amount, dec("29950.0"));
    assert_eq!(rows[1].comission_amount, dec("50.0"));
}

#[test]
fn split_shares_sum_exactly_with_fine_commission() {
    let (sell, buy) = split_comission(dec("0.125"));
    assert_eq!(sell, dec("0.06"));
    assert_eq!(buy, dec("0.065"));
    assert_eq!(sell.units + buy.units, dec("0.125").units);
    let (sell, buy) = split_comission(dec("0.0333"));
    assert_eq!(sell, dec("0.01"));
    assert_eq!(sell.units + buy.units, dec("0.0333").units);
}

#[test]
fn split_of_negative_commission_rounds_down() {
    let (sell, buy) = split_comission(dec("-0.05"));
    assert_eq!(sell, dec("-0.03"));
    assert_eq!(buy, dec("-0.02"));
}

#[test]
fn crypto_trade_line_commissions_sum_to_commission() {
    let t = trade(Some(amount("2", "SOL")), amount("0.1", "ETH"), Some("0.333"), "300");
    let rows = map_trade(&t, &no_fiat());
    assert_eq!(rows.len(), 2);
    assert_eq!(rows[0].comission_amount.units + rows[1].comission_amount.units, dec("0.333").units);
    assert_eq!(rows[0].comission_amount, dec("0.16"));
    assert_eq!(rows[0].fiat_amount, dec("299.84"));
    assert_eq!(rows[1].fiat_amount, dec("299.827"));
}

#[test]
fn fiat_source_gives_one_buy() {
    let t = trade(Some(amount("3000", "USD")), amount("1", "ETH"), Some("3"), "3000");
    let rows = map_trade(&t, &no_fiat());
    assert_eq!(rows.len(), 1);
    assert_eq!(rows[0].kind, ExportTradeType::Buy);
    assert_eq!(rows[0].currency, "USD");
    assert_eq!(rows[0].account, "USD");
    assert_eq!(rows[0].ticker, "ETH");
    assert_eq!(rows[0].fiat_amount, dec("2997"));
    assert_eq!(rows[0].comission_amount, dec("3"));
    assert_eq!(rows[0].note, "");
}

#[test]
fn fiat_destination_gives_one_sell() {
    let t = trade(Some(amount("2", "ETH")), amount("100", "EUR"), Some("1.5"), "100");
    let fiat = vec!["EUR".to_string()];
    let rows = map_trade(&t, &fiat);
    assert_eq!(rows.len(), 1);
    assert_eq!(rows[0].kind, ExportTradeType::Sell);
    assert_eq!(rows[0].currency, "EUR");
    assert_eq!(rows[0].asset, "ETH");
    assert_eq!(rows[0].crypto_amount, dec("2"));
    assert_eq!(rows[0].fiat_amount, dec("98.5"));
    assert_eq!(rows[0].comission_amount, dec("1.5"));
}

#[test]
fn missing_commission_counts_as_zero() {
    let t = trade(Some(amount("50", "USD")), amount("0.5", "SOL"), None, "50");
    let rows = map_trade(&t, &no_fiat());
    assert_eq!(rows[0].fiat_amount, dec("50"));
    assert_eq!(rows[0].comission_amount, Decimal::zero());
}

#[test]
fn free_acquisition_gets_nominal_price() {
    for q in ["500", "0.000001", "123456789"] {
        let t = trade(None, amount(q, "XYZ"), None, "0");
        let rows = map_trade(&t, &no_fiat());
        assert_eq!(rows.len(), 1);
        assert_eq!(rows[0].kind, ExportTradeType::Buy);
        assert_eq!(rows[0].crypto_amount, dec(q));
        assert_eq!(rows[0].fiat_amount, dec("0.01"));
        assert_eq!(rows[0].comission_amount, Decimal::zero());
    }
}

#[test]
fn airdrop_of_500_xyz() {
    let a = Airdrop {
        tx_id: "drop-1".to_string(),
        amount: amount("500", "XYZ"),
        usd_amount: dec("0"),
        timestamp: at(0),
        note: "promo".to_string(),
    };
    let rows = map_airdrop(&a);
    assert_eq!(rows.len(), 1);
    assert_eq!(rows[0].kind, ExportTradeType::Buy);
    assert_eq!(rows[0].asset, "XYZ");
    assert_eq!(rows[0].application, "promo");
    assert_eq!(rows[0].crypto_amount, dec("500"));
    assert_eq!(rows[0].fiat_amount, dec("0.01"));
    assert_eq!(rows[0].comission_amount, dec("0"));
    assert_eq!((rows[0].date.year, rows[0].date.month, rows[0].date.day), (1970, 1, 1));
}

#[test]
fn bridge_is_refused() {
    let b = Bridge {
        application: Application("Bridge".to_string()),
        tx_id: "b-1".to_string(),
        source: ValueStore::Cex("MEXC".to_string()),
        destination: ValueStore::Wallet {
            name: "MetaMask".to_string(),
            network: "Ethereum".to_string(),
            address: "0xabc".to_string(),
        },
        amount: amount("1", "ETH"),
        comission: amount("0.001", "ETH"),
        timestamp: at(0),
    };
    let r = map_transaction(&Transaction::Bridge(b), &no_fiat());
    assert_eq!(r, Err(ExportError::BridgeNotImplemented("b-1".to_string())));
}

#[test]
fn export_rows_joins_lines_in_order() {
    let t1 = trade(Some(amount("1", "BTC")), amount("15", "ETH"), Some("100"), "30000");
    let t2 = trade(None, amount("5", "ATOM"), None, "0");
    let rows = export_rows(&vec![Transaction::Trade(t1), Transaction::Trade(t2)], &no_fiat()).unwrap();
    assert_eq!(rows.len(), 3);
    assert_eq!(rows[2].asset, "ATOM");
}

#[test]
fn export_rows_stops_at_bridge() {
    let t = trade(None, amount("5", "ATOM"), None, "0");
    let b = Bridge {
        application: Application("Bridge".to_string()),
        tx_id: "b-2".to_string(),
        source: ValueStore::Cex("A".to_string()),
        destination: ValueStore::Cex("B".to_string()),
        amount: amount("1", "ETH"),
        comission: amount("0", "ETH"),
        timestamp: at(0),
    };
    let r = export_rows(&vec![Transaction::Trade(t), Transaction::Bridge(b)], &no_fiat());
    assert_eq!(r, Err(ExportError::BridgeNotImplemented("b-2".to_string())));
}

#[test]
fn oversized_amount_is_refused() {
    let mut t = trade(Some(amount("1", "BTC")), amount("15", "ETH"), None, "1");
    t.usd_amount = Decimal::from_units(i128::MAX);
    let r = map_transaction(&Transaction::Trade(t), &no_fiat());
    assert_eq!(r, Err(ExportError::AmountOutOfRange("tx-1".to_string())));
}

#[test]
fn line_carries_date_and_time() {
    let t = trade(Some(amount("10", "USD")), amount("1", "DOT"), None, "10");
    let rows = map_trade(&t, &no_fiat());
    // 2023-11-14T22:13:20Z
    assert_eq!((rows[0].date.year, rows[0].date.month, rows[0].date.day), (2023, 11, 14));
    assert_eq!((rows[0].time.hour, rows[0].time.minute, rows[0].time.second), (22, 13, 20));
}
