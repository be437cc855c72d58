//! Projection of canonical transactions onto flat, fiat-referenced ledger rows.

use vstd::prelude::*;

use crate::data::{Airdrop, Amount, Asset, Trade, Transaction};
use crate::decimal::{Decimal, CENT};
use crate::time::{clock_time_of, CalendarDate, ClockTime};

verus! {

/// Bound on the magnitude of every quantity that the projector subtracts.
pub const EXPORT_LIMIT: i128 = 10_000_000_000_000_000_000_000_000_000_000_000_000;

/// Placeholder price of a free acquisition, in units: 0.01. Accounting tools
/// reject acquisitions that cost nothing.
pub const NOMINAL_FIAT_UNITS: i128 = 10_000_000_000_000_000;

#[derive(Clone, Copy, Debug, PartialEq, Eq, Structural)]
pub enum ExportTradeType {
    Buy,
    Sell,
}

/// One ledger line.
#[derive(Clone, Debug, PartialEq, Eq)]
pub struct ExportTransaction {
    pub application: String,
    pub tx_id: String,
    /// The fiat currency the line is valued in
    pub currency: String,
    pub account: String,
    pub asset: String,
    pub ticker: String,
    pub kind: ExportTradeType,
    pub crypto_amount: Decimal,
    pub fiat_amount: Decimal,
    pub comission_amount: Decimal,
    pub note: String,
    pub date: CalendarDate,
    pub time: ClockTime,
}

/// Why a transaction has no ledger lines.
#[derive(Clone, Debug, PartialEq, Eq)]
pub enum ExportError {
    /// Bridges have no ledger projection yet; holds the transaction id
    BridgeNotImplemented(String),
    /// A quantity beyond what the projector can subtract; holds the id
    AmountOutOfRange(String),
}

pub open spec fn is_usd_name(name: Seq<char>) -> bool {
    name == "USD"@
}

/// Whether an asset is the US dollar.
pub fn is_usd(asset: &Asset) -> (r: bool)
    ensures
        r == is_usd_name(asset.name@),
{
    let usd = "USD".to_owned();
    asset.name == usd
}

/// An asset is a fiat reference when it is the US dollar or one of the
/// tickers that the caller treats as fiat, such as `USDT` or `EUR`.
pub open spec fn is_fiat_name(name: Seq<char>, fiat: Seq<String>) -> bool {
    is_usd_name(name) || exists|i: int| 0 <= i < fiat.len() && #[trigger] fiat[i]@ == name
}

/// Whether `asset` is a fiat reference.
pub fn is_fiat_reference(asset: &Asset, fiat: &Vec<String>) -> (r: bool)
    ensures
        r == is_fiat_name(asset.name@, fiat@),
{
    if is_usd(asset) {
        return true;
    }
    let mut i: usize = 0;
    while i < fiat.len()
        invariant
            i <= fiat@.len(),
            forall|j: int| 0 <= j < i ==> fiat@[j]@ != asset.name@,
        decreases fiat@.len() - i,
    {
        if fiat[i] == asset.name {
            return true;
        }
        i = i + 1;
    }
    false
}

/// The part of a crypto-to-crypto commission that the sell leg carries: the
/// commission halved and rounded down to the cent.
pub open spec fn sell_share(c: int) -> int {
    (c / (2 * CENT as int)) * CENT as int
}

/// The part that the buy leg carries: the rest.
pub open spec fn buy_share(c: int) -> int {
    c - sell_share(c)
}

/// Splits a commission between the two legs of a crypto-to-crypto trade.
pub fn split_comission(c: Decimal) -> (r: (Decimal, Decimal))
    requires
        -EXPORT_LIMIT <= c.units <= EXPORT_LIMIT,
    ensures
        r.0.units == sell_share(c.units as int),
        r.1.units == buy_share(c.units as int),
        r.0.units + r.1.units == c.units,
{
    let step: i128 = 2 * CENT;
    let halves = if c.units >= 0 {
        c.units / step
    } else {
        -((-c.units + step - 1) / step)
    };
    proof {
        let x = c.units as int;
        let d = step as int;
        if x < 0 {
            let q = (-x + d - 1) / d;
            vstd::arithmetic::div_mod::lemma_fundamental_div_mod(-x + d - 1, d);
            vstd::arithmetic::div_mod::lemma_fundamental_div_mod(x, d);
            assert(x / d == -q) by (nonlinear_arith)
                requires
                    d > 0,
                    x < 0,
                    -x + d - 1 == d * q + (-x + d - 1) % d,
                    0 <= (-x + d - 1) % d < d,
                    x == d * (x / d) + x % d,
                    0 <= x % d < d,
            ;
        }
    }
    let sell = halves * CENT;
    let buy = c.units - sell;
    (Decimal { units: sell }, Decimal { units: buy })
}

/// The commission of a trade in its own asset, zero when there is none.
pub open spec fn comission_units(t: Trade) -> int {
    match t.comission {
        Some(c) => c.amount.amount.units as int,
        None => 0,
    }
}

/// Every quantity of the trade that the projector reads is within bounds.
pub open spec fn trade_in_range(t: Trade) -> bool {
    &&& -EXPORT_LIMIT <= t.destination.amount.units <= EXPORT_LIMIT
    &&& -EXPORT_LIMIT <= t.usd_amount.units <= EXPORT_LIMIT
    &&& -EXPORT_LIMIT <= comission_units(t) <= EXPORT_LIMIT
    &&& t.source matches Some(s) ==> -EXPORT_LIMIT <= s.amount.units <= EXPORT_LIMIT
}

/// A line with the fields that every line of the trade shares.
pub open spec fn is_line_of(
    e: ExportTransaction,
    t: Trade,
    kind: ExportTradeType,
    currency: Seq<char>,
    asset: Seq<char>,
) -> bool {
    &&& e.application@ == t.application.0@
    &&& e.tx_id@ == t.tx_id@
    &&& e.currency@ == currency
    &&& e.account@ == currency
    &&& e.asset@ == asset
    &&& e.ticker@ == asset
    &&& e.kind == kind
    &&& e.note@ == Seq::<char>::empty()
    &&& (e.date.year as int, e.date.month as int, e.date.day as int) == t.timestamp.spec_date()
    &&& e.time == clock_time_of(t.timestamp.spec_millis())
}

/// The ledger lines of a trade, by the first rule that applies.
pub open spec fn is_trade_projection(r: Seq<ExportTransaction>, t: Trade, fiat: Seq<String>) -> bool {
    let fee = comission_units(t);
    match t.source {
        None => {
            &&& r.len() == 1
            &&& is_line_of(r[0], t, ExportTradeType::Buy, "USD"@, t.destination.asset.name@)
            &&& r[0].crypto_amount == t.destination.amount
            &&& r[0].fiat_amount.units == NOMINAL_FIAT_UNITS
            &&& r[0].comission_amount.units == 0
        },
        Some(s) => if is_fiat_name(s.asset.name@, fiat) {
            &&& r.len() == 1
            &&& is_line_of(r[0], t, ExportTradeType::Buy, s.asset.name@, t.destination.asset.name@)
            &&& r[0].crypto_amount == t.destination.amount
            &&& r[0].fiat_amount.units == s.amount.units - fee
            &&& r[0].comission_amount.units == fee
        } else if is_fiat_name(t.destination.asset.name@, fiat) {
            &&& r.len() == 1
            &&& is_line_of(r[0], t, ExportTradeType::Sell, t.destination.asset.name@, s.asset.name@)
            &&& r[0].crypto_amount == s.amount
            &&& r[0].fiat_amount.units == t.destination.amount.units - fee
            &&& r[0].comission_amount.units == fee
        } else {
            &&& r.len() == 2
            &&& is_line_of(r[0], t, ExportTradeType::Sell, "USD"@, s.asset.name@)
            &&& r[0].crypto_amount == s.amount
            &&& r[0].comission_amount.units == sell_share(fee)
            &&& r[0].fiat_amount.units == t.usd_amount.units - sell_share(fee)
            &&& is_line_of(r[1], t, ExportTradeType::Buy, "USD"@, t.destination.asset.name@)
            &&& r[1].crypto_amount == t.destination.amount
            &&& r[1].comission_amount.units == buy_share(fee)
            &&& r[1].fiat_amount.units == t.usd_amount.units - buy_share(fee)
        },
    }
}

fn ledger_line(
    t: &Trade,
    kind: ExportTradeType,
    currency: &String,
    asset: &String,
    crypto_amount: Decimal,
    fiat_amount: Decimal,
    comission_amount: Decimal,
) -> (r: ExportTransaction)
    ensures
        is_line_of(r, *t, kind, currency@, asset@),
        r.crypto_amount == crypto_amount,
        r.fiat_amount == fiat_amount,
        r.comission_amount == comission_amount,
{
    ExportTransaction {
        application: t.application.0.clone(),
        tx_id: t.tx_id.clone(),
        currency: currency.clone(),
        account: currency.clone(),
        asset: asset.clone(),
        ticker: asset.clone(),
        kind,
        crypto_amount,
        fiat_amount,
        comission_amount,
        note: String::new(),
        date: t.timestamp.date(),
        time: t.timestamp.time(),
    }
}

/// Projects a trade onto one or two ledger lines. `fiat` lists the tickers
/// that count as fiat besides the US dollar.
pub fn map_trade(trade: &Trade, fiat: &Vec<String>) -> (r: Vec<ExportTransaction>)
    requires
        trade_in_range(*trade),
    ensures
        is_trade_projection(r@, *trade, fiat@),
{
    let fee = match &trade.comission {
        Some(c) => c.amount.amount,
        None => Decimal::zero(),
    };
    let usd = "USD".to_owned();
    match &trade.source {
        None => {
            let line = ledger_line(
                trade,
                ExportTradeType::Buy,
                &usd,
                &trade.destination.asset.name,
                trade.destination.amount,
                Decimal { units: NOMINAL_FIAT_UNITS },
                Decimal::zero(),
            );
            vec![line]
        },
        Some(source) => {
            if is_fiat_reference(&source.asset, fiat) {
                let line = ledger_line(
                    trade,
                    ExportTradeType::Buy,
                    &source.asset.name,
                    &trade.destination.asset.name,
                    trade.destination.amount,
                    Decimal { units: source.amount.units - fee.units },
                    fee,
                );
                vec![line]
            } else if is_fiat_reference(&trade.destination.asset, fiat) {
                let line = ledger_line(
                    trade,
                    ExportTradeType::Sell,
                    &trade.destination.asset.name,
                    &source.asset.name,
                    source.amount,
                    Decimal { units: trade.destination.amount.units - fee.units },
                    fee,
                );
                vec![line]
            } else {
                let (sell, buy) = split_comission(fee);
                let sell_line = ledger_line(
                    trade,
                    ExportTradeType::Sell,
                    &usd,
                    &source.asset.name,
                    source.amount,
                    Decimal { units: trade.usd_amount.units - sell.units },
                    sell,
                );
                let buy_line = ledger_line(
                    trade,
                    ExportTradeType::Buy,
                    &usd,
                    &trade.destination.asset.name,
                    trade.destination.amount,
                    Decimal { units: trade.usd_amount.units - buy.units },
                    buy,
                );
                vec![sell_line, buy_line]
            }
        },
    }
}


/// The single ledger line of an airdrop: a buy at the nominal price.
pub open spec fn is_airdrop_projection(r: Seq<ExportTransaction>, a: Airdrop) -> bool {
    &&& r.len() == 1
    &&& r[0].application@ == a.note@
    &&& r[0].tx_id@ == a.tx_id@
    &&& r[0].currency@ == "USD"@
    &&& r[0].account@ == "USD"@
    &&& r[0].asset@ == a.amount.asset.name@
    &&& r[0].ticker@ == a.amount.asset.name@
    &&& r[0].kind == ExportTradeType::Buy
    &&& r[0].crypto_amount == a.amount.amount
    &&& r[0].fiat_amount.units == NOMINAL_FIAT_UNITS
    &&& r[0].comission_amount.units == 0
    &&& r[0].note@ == Seq::<char>::empty()
    &&& (r[0].date.year as int, r[0].date.month as int, r[0].date.day as int)
        == a.timestamp.spec_date()
    &&& r[0].time == clock_time_of(a.timestamp.spec_millis())
}

/// Projects an airdrop onto its ledger line.
pub fn map_airdrop(airdrop: &Airdrop) -> (r: Vec<ExportTransaction>)
    ensures
        is_airdrop_projection(r@, *airdrop),
{
    let usd = "USD".to_owned();
    vec![
        ExportTransaction {
            application: airdrop.note.clone(),
            tx_id: airdrop.tx_id.clone(),
            currency: usd.clone(),
            account: usd,
            asset: airdrop.amount.asset.name.clone(),
            ticker: airdrop.amount.asset.name.clone(),
            kind: ExportTradeType::Buy,
            crypto_amount: airdrop.amount.amount,
            fiat_amount: Decimal { units: NOMINAL_FIAT_UNITS },
            comission_amount: Decimal::zero(),
            note: String::new(),
            date: airdrop.timestamp.date(),
            time: airdrop.timestamp.time(),
        },
    ]
}

/// The error that a transaction without ledger lines is reported with.
pub open spec fn is_export_error_of(e: ExportError, tx: Transaction) -> bool {
    match tx {
        Transaction::Trade(t) => e matches ExportError::AmountOutOfRange(id) && id@ == t.tx_id@
            && !trade_in_range(t),
        Transaction::Airdrop(_) => false,
        Transaction::Bridge(b) => e matches ExportError::BridgeNotImplemented(id) && id@
            == b.tx_id@,
    }
}

pub open spec fn has_projection(tx: Transaction) -> bool {
    match tx {
        Transaction::Trade(t) => trade_in_range(t),
        Transaction::Airdrop(_) => true,
        Transaction::Bridge(_) => false,
    }
}

pub open spec fn is_projection(r: Seq<ExportTransaction>, tx: Transaction, fiat: Seq<String>) -> bool {
    match tx {
        Transaction::Trade(t) => is_trade_projection(r, t, fiat),
        Transaction::Airdrop(a) => is_airdrop_projection(r, a),
        Transaction::Bridge(_) => false,
    }
}

/// Projects any transaction; bridges are refused rather than dropped.
pub fn map_transaction(transaction: &Transaction, fiat: &Vec<String>) -> (r: Result<
    Vec<ExportTransaction>,
    ExportError,
>)
    ensures
        r is Ok <==> has_projection(*transaction),
        r matches Ok(rows) ==> is_projection(rows@, *transaction, fiat@),
        r matches Err(e) ==> is_export_error_of(e, *transaction),
{
    match transaction {
        Transaction::Trade(t) => {
            let fee = match &t.comission {
                Some(c) => c.amount.amount.units,
                None => 0,
            };
            let source_ok = match &t.source {
                Some(s) => -EXPORT_LIMIT <= s.amount.units && s.amount.units <= EXPORT_LIMIT,
                None => true,
            };
            if source_ok && -EXPORT_LIMIT <= t.destination.amount.units
                && t.destination.amount.units <= EXPORT_LIMIT && -EXPORT_LIMIT <= t.usd_amount.units
                && t.usd_amount.units <= EXPORT_LIMIT && -EXPORT_LIMIT <= fee && fee
                <= EXPORT_LIMIT {
                Ok(map_trade(t, fiat))
            } else {
                Err(ExportError::AmountOutOfRange(t.tx_id.clone()))
            }
        },
        Transaction::Airdrop(a) => Ok(map_airdrop(a)),
        Transaction::Bridge(b) => Err(ExportError::BridgeNotImplemented(b.tx_id.clone())),
    }
}

/// The sequences of `parts` one after another.
pub open spec fn concat_all<A>(parts: Seq<Seq<A>>) -> Seq<A>
    decreases parts.len(),
{
    if parts.len() == 0 {
        Seq::empty()
    } else {
        concat_all(parts.drop_last()) + parts.last()
    }
}

/// Projects every transaction in order and joins the lines. Fails with the
/// error of the first transaction that has no projection.
pub fn export_rows(transactions: &Vec<Transaction>, fiat: &Vec<String>) -> (r: Result<
    Vec<ExportTransaction>,
    ExportError,
>)
    ensures
        r is Ok <==> forall|i: int|
            0 <= i < transactions@.len() ==> has_projection(#[trigger] transactions@[i]),
        r matches Ok(rows) ==> exists|parts: Seq<Seq<ExportTransaction>>|
            {
                &&& parts.len() == transactions@.len()
                &&& rows@ == concat_all(parts)
                &&& forall|i: int|
                    0 <= i < parts.len() ==> is_projection(
                        #[trigger] parts[i],
                        transactions@[i],
                        fiat@,
                    )
            },
        r matches Err(e) ==> exists|i: int|
            {
                &&& 0 <= i < transactions@.len()
                &&& is_export_error_of(e, #[trigger] transactions@[i])
                &&& forall|j: int| 0 <= j < i ==> has_projection(#[trigger] transactions@[j])
            },
{
    let mut rows: Vec<ExportTransaction> = Vec::new();
    let ghost mut parts: Seq<Seq<ExportTransaction>> = Seq::empty();
    let mut i: usize = 0;
    while i < transactions.len()
        invariant
            i <= transactions@.len(),
            parts.len() == i,
            rows@ == concat_all(parts),
            forall|j: int| 0 <= j < i ==> has_projection(#[trigger] transactions@[j]),
            forall|j: int|
                0 <= j < i ==> is_projection(#[trigger] parts[j], transactions@[j], fiat@),
        decreases transactions@.len() - i,
    {
        match map_transaction(&transactions[i], fiat) {
            Ok(mut lines) => {
                proof {
                    let next = parts.push(lines@);
                    assert(next.drop_last() =~= parts);
                    parts = next;
                }
                rows.append(&mut lines);
            },
            Err(e) => {
                assert(is_export_error_of(e, transactions@[i as int]));
                return Err(e);
            },
        }
        i = i + 1;
    }
    Ok(rows)
}


/// The two commission shares of a crypto-to-crypto trade add up to the whole
/// commission, whatever its precision, and the sell share is a whole number
/// of cents.
pub proof fn lemma_split_shares_sum(c: int)
    ensures
        sell_share(c) + buy_share(c) == c,
        sell_share(c) % (CENT as int) == 0,
{
    vstd::arithmetic::div_mod::lemma_mod_multiples_basic(c / (2 * CENT as int), CENT as int);
}

/// A trade with no fiat leg becomes a sell and a buy whose commissions add up
/// exactly to the trade's commission.
pub proof fn lemma_crypto_trade_comission_kept(
    rows: Seq<ExportTransaction>,
    t: Trade,
    fiat: Seq<String>,
)
    requires
        is_trade_projection(rows, t, fiat),
        t.source matches Some(s) && !is_fiat_name(s.asset.name@, fiat),
        !is_fiat_name(t.destination.asset.name@, fiat),
    ensures
        rows.len() == 2,
        rows[0].kind == ExportTradeType::Sell,
        rows[1].kind == ExportTradeType::Buy,
        rows[0].comission_amount.units + rows[1].comission_amount.units == comission_units(t),
        (rows[0].comission_amount.units as int) % (CENT as int) == 0,
{
    lemma_split_shares_sum(comission_units(t));
}

/// Whatever asset and quantity a free acquisition brings in, its single line
/// is a buy at the nominal price of 0.01 with no commission.
pub proof fn lemma_free_acquisition_nominal_price(
    rows: Seq<ExportTransaction>,
    tx: Transaction,
    fiat: Seq<String>,
)
    requires
        is_projection(rows, tx, fiat),
        tx is Airdrop || (tx matches Transaction::Trade(t) && t.source is None),
    ensures
        rows.len() == 1,
        rows[0].kind == ExportTradeType::Buy,
        rows[0].fiat_amount.units == NOMINAL_FIAT_UNITS,
        rows[0].comission_amount.units == 0,
{
}

} // verus!
