//! MEXC spot fills: each stored fill is one complete trade between a base
//! asset and the quote asset of its symbol.

use vstd::prelude::*;

use crate::data::{asset_named, Amount, Application, Comission, NormalizeError, Trade};
use crate::decimal::{decimal_text_in_range, parse_decimal, text_units, Decimal};
use crate::export::{is_fiat_name, is_trade_projection, ExportTradeType};
use crate::text::{drop_suffix, ends_with, has_suffix, without_suffix};
use crate::time::{utc_date_of, Timestamp, MILLIS_LIMIT};

verus! {

/// A fill of the account's own order, as stored.
#[derive(Clone, Debug, PartialEq, Eq)]
pub struct MexcTradeRow {
    pub symbol: String,
    pub id: String,
    pub order_id: String,
    pub order_list_id: i64,
    pub price: String,
    pub qty: String,
    pub quote_qty: String,
    pub commission: String,
    pub commission_asset: String,
    /// Milliseconds since the Unix epoch
    pub time: i64,
    pub is_buyer: bool,
    pub is_maker: bool,
    pub is_best_match: bool,
    pub is_self_trade: bool,
    pub client_order_id: Option<String>,
}

/// The base asset of a symbol that ends with `quote`.
pub open spec fn base_of(symbol: Seq<char>, quote: Seq<char>) -> Seq<char> {
    without_suffix(symbol, quote.len() as int)
}

pub open spec fn fill_numbers_valid(row: MexcTradeRow) -> bool {
    &&& decimal_text_in_range(row.qty@)
    &&& decimal_text_in_range(row.quote_qty@)
    &&& decimal_text_in_range(row.commission@)
}

/// `a` is `units` of the asset named `name`.
pub open spec fn is_amount_of(a: Amount, units: int, name: Seq<char>) -> bool {
    a.amount.units == units && a.asset.name@ == name && a.asset.contract_address is None
}

/// The trade that a valid fill stands for.
pub open spec fn is_fill_trade(t: Trade, row: MexcTradeRow, quote: Seq<char>) -> bool {
    let crypto_units = text_units(row.qty@);
    let quote_units = text_units(row.quote_qty@);
    let fee = text_units(row.commission@);
    let base = base_of(row.symbol@, quote);
    &&& t.application.0@ == "MEXC"@
    &&& t.tx_id@ == row.id@
    &&& t.usd_amount.units == quote_units
    &&& t.timestamp.spec_millis() == row.time
    &&& t.timestamp.spec_date() == utc_date_of(row.time as int)
    &&& if row.is_buyer {
        &&& t.source matches Some(s) && is_amount_of(s, quote_units, quote)
        &&& is_amount_of(t.destination, crypto_units, base)
    } else {
        &&& t.source matches Some(s) && is_amount_of(s, crypto_units, base)
        &&& is_amount_of(t.destination, quote_units, quote)
    }
    &&& if fee == 0 {
        t.comission is None
    } else {
        &&& t.comission matches Some(c) && is_amount_of(
            c.amount,
            fee,
            row.commission_asset@,
        ) && c.usd_amount.units == fee
    }
}

/// Turns one stored fill into a trade. `quote` is the quote asset that every
/// symbol must end with, such as `USDT`; it stands as the fiat leg.
///
/// A buy gives up the quote asset for the base asset, a sell the other way
/// round. A zero commission is no commission; any other is valued at its own
/// amount, which is exact only for a fiat-pegged commission asset.
pub fn normalize_fill(row: &MexcTradeRow, quote: &str) -> (r: Result<Trade, NormalizeError>)
    ensures
        !has_suffix(row.symbol@, quote@) <==> (r matches Err(
            NormalizeError::UnsupportedSymbol(_),
        )),
        r matches Err(NormalizeError::UnsupportedSymbol(s)) ==> s@ == row.symbol@,
        has_suffix(row.symbol@, quote@) && !fill_numbers_valid(*row) <==> (r matches Err(
            NormalizeError::InvalidAmount(_),
        )),
        r matches Err(NormalizeError::InvalidAmount(id)) ==> id@ == row.id@,
        r matches Err(NormalizeError::InvalidTimestamp(id)) ==> id@ == row.id@ && !(-MILLIS_LIMIT
            <= row.time <= MILLIS_LIMIT),
        r matches Err(e) ==> !(e is UnimplementedTransactionType) && !(e is UnimplementedCurrency)
            && !(e is OverlappingTradeLegs),
        has_suffix(row.symbol@, quote@) && fill_numbers_valid(*row) && -MILLIS_LIMIT <= row.time
            <= MILLIS_LIMIT ==> r is Ok,
        r matches Ok(t) ==> is_fill_trade(t, *row, quote@),
{
    if !ends_with(row.symbol.as_str(), quote) {
        return Err(NormalizeError::UnsupportedSymbol(row.symbol.clone()));
    }
    let qty = parse_decimal(row.qty.as_str());
    let quote_qty = parse_decimal(row.quote_qty.as_str());
    let fee = parse_decimal(row.commission.as_str());
    let (qty, quote_qty, fee) = match (qty, quote_qty, fee) {
        (Some(a), Some(b), Some(c)) => (a, b, c),
        _ => {
            return Err(NormalizeError::InvalidAmount(row.id.clone()));
        },
    };
    let timestamp = match Timestamp::from_millis(row.time) {
        Some(t) => t,
        None => {
            return Err(NormalizeError::InvalidTimestamp(row.id.clone()));
        },
    };
    let base = drop_suffix(row.symbol.as_str(), quote.unicode_len());
    let crypto = Amount { amount: qty, asset: asset_named(base) };
    let quoted = Amount { amount: quote_qty, asset: asset_named(quote.to_owned()) };
    let comission = if fee.is_zero() {
        None
    } else {
        Some(
            Comission {
                amount: Amount { amount: fee, asset: asset_named(row.commission_asset.clone()) },
                usd_amount: fee,
            },
        )
    };
    let (source, destination) = if row.is_buyer {
        (quoted, crypto)
    } else {
        (crypto, quoted)
    };
    Ok(
        Trade {
            application: Application("MEXC".to_owned()),
            tx_id: row.id.clone(),
            source: Some(source),
            destination,
            comission,
            usd_amount: quote_qty,
            timestamp,
        },
    )
}


/// The symbols whose fills are fetched. The listing endpoint refuses
/// frequent calls, so the list is fixed.
pub fn get_symbols() -> (r: Vec<String>)
    ensures
        r@.map_values(|s: String| s@) == seq![
            "ALPHUSDT"@,
            "APTUSDT"@,
            "AZEROUSDT"@,
            "BNBUSDT"@,
            "CAKEUSDT"@,
            "COTIUSDT"@,
            "DYMUSDT"@,
            "ETHUSDT"@,
            "KASUSDT"@,
            "MINAUSDT"@,
            "ONDOUSDT"@,
            "RVFUSDT"@,
            "TRIASUSDT"@,
            "WELSHUSDT"@,
            "XAIUSDT"@,
            "ZEPHUSDT"@,
            "QNTUSDT"@,
            "MNGLUSDT"@,
        ],
{
    let r = vec![
        "ALPHUSDT".to_owned(),
        "APTUSDT".to_owned(),
        "AZEROUSDT".to_owned(),
        "BNBUSDT".to_owned(),
        "CAKEUSDT".to_owned(),
        "COTIUSDT".to_owned(),
        "DYMUSDT".to_owned(),
        "ETHUSDT".to_owned(),
        "KASUSDT".to_owned(),
        "MINAUSDT".to_owned(),
        "ONDOUSDT".to_owned(),
        "RVFUSDT".to_owned(),
        "TRIASUSDT".to_owned(),
        "WELSHUSDT".to_owned(),
        "XAIUSDT".to_owned(),
        "ZEPHUSDT".to_owned(),
        "QNTUSDT".to_owned(),
        "MNGLUSDT".to_owned(),
    ];
    assert(r@.map_values(|s: String| s@) =~= seq![
            "ALPHUSDT"@,
            "APTUSDT"@,
            "AZEROUSDT"@,
            "BNBUSDT"@,
            "CAKEUSDT"@,
            "COTIUSDT"@,
            "DYMUSDT"@,
            "ETHUSDT"@,
            "KASUSDT"@,
            "MINAUSDT"@,
            "ONDOUSDT"@,
            "RVFUSDT"@,
            "TRIASUSDT"@,
            "WELSHUSDT"@,
            "XAIUSDT"@,
            "ZEPHUSDT"@,
            "QNTUSDT"@,
            "MNGLUSDT"@,
        ]);
    r
}

/// The fill can be turned into a trade.
pub open spec fn fill_valid(row: MexcTradeRow, quote: Seq<char>) -> bool {
    &&& has_suffix(row.symbol@, quote)
    &&& fill_numbers_valid(row)
    &&& -MILLIS_LIMIT <= row.time <= MILLIS_LIMIT
}

/// `e` is what normalization reports of `row`.
pub open spec fn is_fill_error(e: NormalizeError, row: MexcTradeRow, quote: Seq<char>) -> bool {
    match e {
        NormalizeError::UnsupportedSymbol(s) => s@ == row.symbol@ && !has_suffix(s@, quote),
        NormalizeError::InvalidAmount(id) => id@ == row.id@ && !fill_numbers_valid(row),
        NormalizeError::InvalidTimestamp(id) => id@ == row.id@ && !(-MILLIS_LIMIT <= row.time
            <= MILLIS_LIMIT),
        _ => false,
    }
}

/// Turns every stored fill into its trade, in order. Fails with the error of
/// the first fill that cannot be turned.
pub fn normalize_fills(rows: &Vec<MexcTradeRow>, quote: &str) -> (r: Result<
    Vec<Trade>,
    NormalizeError,
>)
    ensures
        (forall|i: int| 0 <= i < rows@.len() ==> fill_valid(#[trigger] rows@[i], quote@))
            ==> r is Ok,
        r matches Ok(v) ==> v@.len() == rows@.len() && forall|i: int|
            0 <= i < rows@.len() ==> is_fill_trade(#[trigger] v@[i], rows@[i], quote@),
        r matches Err(e) ==> exists|i: int|
            0 <= i < rows@.len() && is_fill_error(e, #[trigger] rows@[i], quote@),
{
    let mut trades: Vec<Trade> = Vec::new();
    let mut i: usize = 0;
    while i < rows.len()
        invariant
            i <= rows@.len(),
            trades@.len() == i,
            forall|j: int| 0 <= j < i ==> is_fill_trade(#[trigger] trades@[j], rows@[j], quote@),
        decreases rows@.len() - i,
    {
        match normalize_fill(&rows[i], quote) {
            Ok(t) => {
                trades.push(t);
            },
            Err(e) => {
                assert(is_fill_error(e, rows@[i as int], quote@));
                return Err(e);
            },
        }
        i = i + 1;
    }
    Ok(trades)
}

/// A fill always puts its quote leg where the projector looks for fiat: when
/// the quote asset counts as fiat and the base asset does not, the trade
/// projects onto one line, a buy for a buyer's fill and a sell otherwise, of
/// the fill's quantity for its quote amount less commission.
pub proof fn lemma_fill_projects_to_one_line(
    row: MexcTradeRow,
    quote: Seq<char>,
    t: Trade,
    fiat: Seq<String>,
    rows: Seq<crate::export::ExportTransaction>,
)
    requires
        is_fill_trade(t, row, quote),
        is_fiat_name(quote, fiat),
        !is_fiat_name(base_of(row.symbol@, quote), fiat),
        is_trade_projection(rows, t, fiat),
    ensures
        rows.len() == 1,
        rows[0].kind == (if row.is_buyer {
            ExportTradeType::Buy
        } else {
            ExportTradeType::Sell
        }),
        rows[0].asset@ == base_of(row.symbol@, quote),
        rows[0].currency@ == quote,
        rows[0].crypto_amount.units == text_units(row.qty@),
        rows[0].fiat_amount.units == text_units(row.quote_qty@) - text_units(row.commission@),
        rows[0].comission_amount.units == text_units(row.commission@),
{
}

} // verus!
