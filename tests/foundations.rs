use hmac::Mac;
use portfolio_tracker::api::{
    next_page, record_of, AmountResult, CoinbaseResult, DetailsResult, NetworkResult, Pagination,
    ToResult, TransactionResult,
};
use portfolio_tracker::cli::{exchanges_to_fetch, first_failure, Exchange, FetchOptions};
use portfolio_tracker::data::{Amount, Application, Asset, Trade, Transaction};
use portfolio_tracker::decimal::{parse_decimal, Decimal, ONE};
use portfolio_tracker::reconcile::{get_all_trades, merge_by_time, sort_by_time};
use portfolio_tracker::signing::{coinbase_signature, hex_lower, mexc_signed_query};
use portfolio_tracker::text::decimal_text;
use portfolio_tracker::store::new_positions;
use portfolio_tracker::time::Timestamp;

#[test]
fn parses_decimals_exactly() {
    assert_eq!(parse_decimal("3000.0"), Some(Decimal::from_units(3000 * ONE)));
    assert_eq!(parse_decimal("-0.5"), Some(Decimal::from_units(-ONE / 2)));
    assert_eq!(parse_decimal("+7"), Some(Decimal::from_units(7 * ONE)));
    assert_eq!(parse_decimal(".25"), Some(Decimal::from_units(ONE / 4)));
    assert_eq!(parse_decimal("5."), Some(Decimal::from_units(5 * ONE)));
    assert_eq!(parse_decimal("0.000000000000000001"), Some(Decimal::from_units(1)));
    assert_eq!(parse_decimal("999999999999999999.999999999999999999").unwrap().units, 999_999_999_999_999_999_999_999_999_999_999_999);
}

#[test]
fn rejects_malformed_decimals() {
    for bad in ["", "-", ".", "1e5", "1.2.3", "abc", " 1", "0.0000000000000000001", "1000000000000000000", "--1"] {
        assert_eq!(parse_decimal(bad), None, "{bad}");
    }
}

#[test]
fn timestamp_has_calendar_date_and_clock_time() {
    let t = Timestamp::parse("2024-03-01T12:34:56.789Z").unwrap();
    assert_eq!(t.millis(), 1_709_296_496_789);
    let d = t.date();
    assert_eq!((d.year, d.month, d.day), (2024, 3, 1));
    let c = t.time();
    assert_eq!((c.hour, c.minute, c.second, c.millisecond), (12, 34, 56, 789));
}

#[test]
fn timestamp_before_epoch() {
    let t = Timestamp::from_millis(-1).unwrap();
    let d = t.date();
    assert_eq!((d.year, d.month, d.day), (1969, 12, 31));
    let c = t.time();
    assert_eq!((c.hour, c.minute, c.second, c.millisecond), (23, 59, 59, 999));
}

#[test]
fn timestamp_with_offset_is_converted_to_utc() {
    let t = Timestamp::parse("2024-03-01T01:00:00+02:00").unwrap();
    let d = t.date();
    assert_eq!((d.year, d.month, d.day), (2024, 2, 29));
    assert_eq!(t.time().hour, 23);
}

#[test]
fn hex_is_lowercase_two_digits_per_byte() {
    assert_eq!(hex_lower(&vec![0x0a, 0x14, 0x1e, 0xff, 0x00]), "0a141eff00");
    assert_eq!(hex_lower(&vec![]), "");
}

#[test]
fn decimal_text_of_integers() {
    assert_eq!(decimal_text(0), "0");
    assert_eq!(decimal_text(1700000000000), "1700000000000");
    assert_eq!(decimal_text(u64::MAX as u128), "18446744073709551615");
}

fn reference_hmac(key: &[u8], message: &str) -> String {
    let mut mac = hmac::Hmac::<sha2::Sha256>::new_from_slice(key).unwrap();
    mac.update(message.as_bytes());
    format!("{:x}", mac.finalize().into_bytes())
}

#[test]
fn coinbase_signature_signs_time_method_path_body() {
    let sig = coinbase_signature(b"Jefe", 1700000000, "GET", "/v2/accounts", "");
    assert_eq!(sig, reference_hmac(b"Jefe", "1700000000GET/v2/accounts"));
    assert_eq!(sig.len(), 64);
    assert_ne!(sig, coinbase_signature(b"Jefe", 1700000001, "GET", "/v2/accounts", ""));
}

#[test]
fn mexc_query_carries_signature_and_payload() {
    let q = mexc_signed_query(b"Jefe", 1700000000000, "symbol=ETHUSDT");
    assert!(q.starts_with("signature="));
    assert!(q.ends_with("&timestamp=1700000000000&symbol=ETHUSDT"));
    let expected = reference_hmac(b"Jefe", "timestamp=1700000000000&symbol=ETHUSDT");
    assert_eq!(q, format!("signature={expected}&timestamp=1700000000000&symbol=ETHUSDT"));
    let q = mexc_signed_query(b"Jefe", 5, "");
    assert!(q.ends_with("&timestamp=5"));
}

#[test]
fn store_takes_each_new_id_once() {
    let stored = vec!["a".to_string(), "b".to_string()];
    let fetched = vec!["b".to_string(), "c".to_string(), "c".to_string(), "d".to_string(), "a".to_string()];
    let picked = new_positions(&stored, &fetched);
    assert_eq!(picked, vec![1, 3]);
    let mut after = stored.clone();
    for p in &picked {
        after.push(fetched[*p].clone());
    }
    assert_eq!(new_positions(&after, &fetched), Vec::<usize>::new());
}

fn trade_at(millis: i64, id: &str) -> Transaction {
    Transaction::Trade(Trade {
        application: Application("X".to_string()),
        tx_id: id.to_string(),
        source: None,
        destination: Amount {
            amount: Decimal::from_whole(1),
            asset: Asset { name: "BTC".to_string(), contract_address: None },
        },
        comission: None,
        usd_amount: Decimal::zero(),
        timestamp: Timestamp::from_millis(millis).unwrap(),
    })
}

fn ids(v: &[Transaction]) -> Vec<String> {
    v.iter()
        .map(|t| match t {
            Transaction::Trade(t) => t.tx_id.clone(),
            _ => String::new(),
        })
        .collect()
}

#[test]
fn merge_interleaves_by_time() {
    let a = vec![trade_at(1, "a1"), trade_at(5, "a5"), trade_at(9, "a9")];
    let b = vec![trade_at(2, "b2"), trade_at(5, "b5"), trade_at(10, "b10")];
    let m = merge_by_time(a, b);
    assert_eq!(ids(&m), vec!["a1", "b2", "a5", "b5", "a9", "b10"]);
}

#[test]
fn merge_with_empty_side() {
    let m = merge_by_time(vec![], vec![trade_at(3, "x"), trade_at(4, "y")]);
    assert_eq!(ids(&m), vec!["x", "y"]);
}

#[test]
fn all_trades_of_empty_stores() {
    assert_eq!(get_all_trades(&vec![], &vec![], "USDT", "EUR"), Ok(vec![]));
}

#[test]
fn fetch_covers_named_or_all_exchanges() {
    assert_eq!(exchanges_to_fetch(Some(Exchange::Coinbase)), vec![Exchange::Coinbase]);
    assert_eq!(exchanges_to_fetch(None), vec![Exchange::MEXC, Exchange::Coinbase]);
    assert_eq!(FetchOptions::All.exchanges(), vec![Exchange::MEXC, Exchange::Coinbase]);
    assert_eq!(FetchOptions::Exchange { exchange: Exchange::MEXC }.exchanges(), vec![Exchange::MEXC]);
}

#[test]
fn joined_fetches_report_first_failure() {
    assert_eq!(first_failure::<u16>(vec![Ok(()), Ok(())]), Ok(()));
    assert_eq!(first_failure(vec![Ok(()), Err(403u16), Err(500u16)]), Err(403));
    assert_eq!(first_failure::<u16>(vec![]), Ok(()));
}

#[test]
fn next_page_follows_uri() {
    let page = CoinbaseResult {
        data: vec![1, 2],
        pagination: Some(Pagination { next_uri: Some("/v2/accounts?starting_after=x".to_string()) }),
    };
    assert_eq!(next_page(&page), Some("/v2/accounts?starting_after=x".to_string()));
    let last = CoinbaseResult { data: 0, pagination: Some(Pagination { next_uri: None }) };
    assert_eq!(next_page(&last), None);
    let bare = CoinbaseResult { data: 0, pagination: None };
    assert_eq!(next_page(&bare), None);
}

#[test]
fn record_flattens_nested_parts() {
    let tx = TransactionResult {
        id: "id-1".to_string(),
        kind: "send".to_string(),
        status: "completed".to_string(),
        amount: AmountResult { amount: "-1".to_string(), currency: "ETH".to_string() },
        native_amount: AmountResult { amount: "-2000".to_string(), currency: "EUR".to_string() },
        description: None,
        created_at: "2024-01-01T00:00:00Z".to_string(),
        updated_at: "2024-01-01T00:00:01Z".to_string(),
        resource: "transaction".to_string(),
        resource_path: "/p".to_string(),
        network: Some(NetworkResult { status: "confirmed".to_string(), name: Some("ethereum".to_string()) }),
        to: Some(ToResult { id: None, resource: "address".to_string(), resource_path: None }),
        details: DetailsResult { title: "Sent".to_string(), subtitle: "to wallet".to_string() },
    };
    let r = record_of(tx);
    assert_eq!(r.kind, "send");
    assert_eq!(r.native_amount_currency, "EUR");
    assert_eq!(r.network_status, Some("confirmed".to_string()));
    assert_eq!(r.network_name, Some("ethereum".to_string()));
    assert_eq!(r.to_id, None);
    assert_eq!(r.to_resource, Some("address".to_string()));
    assert_eq!(r.details_subtitle, "to wallet");
}

#[test]
fn decimal_text_is_shortest_numeral() {
    assert_eq!(parse_decimal("2997.000").unwrap().to_text(), "2997");
    assert_eq!(parse_decimal("-0.5").unwrap().to_text(), "-0.5");
    assert_eq!(parse_decimal("0.01").unwrap().to_text(), "0.01");
    assert_eq!(Decimal::zero().to_text(), "0");
    assert_eq!(Decimal::from_units(ONE + 1).to_text(), "1.000000000000000001");
    assert_eq!(
        Decimal::from_units(i128::MIN).to_text(),
        "-170141183460469231731.687303715884105728"
    );
}

#[test]
fn sort_puts_transactions_in_time_order() {
    let v = vec![trade_at(5, "e"), trade_at(1, "a"), trade_at(3, "c"), trade_at(1, "b")];
    assert_eq!(ids(&sort_by_time(v)), vec!["a", "b", "c", "e"]);
}

#[test]
fn decimal_text_reads_back() {
    for units in [0i128, 1, -1, ONE, -ONE / 4, 2997 * ONE, 123_456_789_012_345_678_901_234_567, -999_999_999_999_999_999_999_999_999_999_999_999] {
        let d = Decimal::from_units(units);
        assert_eq!(parse_decimal(&d.to_text()), Some(d));
    }
}
