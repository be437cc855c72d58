//! Coinbase account transactions: classification by kind, and pairing of
//! the two legs of a crypto-to-crypto trade.

use vstd::prelude::*;

use crate::data::{asset_named, Amount, Application, Comission, NormalizeError, Trade};
use crate::decimal::{decimal_text_in_range, parse_decimal, text_units, Decimal, PARSED_LIMIT};
use crate::text::same_text;
use crate::export::{is_trade_projection, ExportTradeType, NOMINAL_FIAT_UNITS};
use crate::time::{utc_date_of, utc_millis_of_text, Timestamp, MILLIS_LIMIT};

verus! {

/// A stored Coinbase transaction, as the store hands it out.
#[derive(Clone, Debug, PartialEq, Eq)]
pub struct CoinbaseRecord {
    pub id: String,
    /// `buy`, `sell`, `earn_payout`, `trade`, `send`, `fiat_deposit`, ...
    pub kind: String,
    pub status: String,
    /// Quantity of the crypto asset; negative for an outflow
    pub amount_amount: String,
    pub amount_currency: String,
    /// Value of that quantity in the account's native currency
    pub native_amount_amount: String,
    pub native_amount_currency: String,
    pub description: Option<String>,
    pub created_at: String,
    pub updated_at: String,
    pub resource: String,
    pub resource_path: String,
    pub network_status: Option<String>,
    pub network_name: Option<String>,
    pub to_id: Option<String>,
    pub to_resource: Option<String>,
    pub to_resource_path: Option<String>,
    pub details_title: String,
    pub details_subtitle: String,
}

pub open spec fn is_known_kind(k: Seq<char>) -> bool {
    ||| k == "buy"@
    ||| k == "sell"@
    ||| k == "earn_payout"@
    ||| k == "send"@
    ||| k == "fiat_deposit"@
    ||| k == "trade"@
}

/// A record that stands for a trade of its own: a buy or sell valued in
/// another currency than the reference fiat, or an earn payout.
pub open spec fn emits_trade(row: CoinbaseRecord, fiat: Seq<char>) -> bool {
    ||| ((row.kind@ == "buy"@ || row.kind@ == "sell"@) && row.native_amount_currency@ != fiat)
    ||| row.kind@ == "earn_payout"@
}

pub open spec fn record_numbers_valid(row: CoinbaseRecord) -> bool {
    decimal_text_in_range(row.amount_amount@) && decimal_text_in_range(row.native_amount_amount@)
}

/// `ts` is the instant that `text` denotes.
pub open spec fn is_time_of(ts: Timestamp, text: Seq<char>) -> bool {
    &&& utc_millis_of_text(text) == Some(ts.spec_millis() as i64)
    &&& ts.spec_date() == utc_date_of(ts.spec_millis())
}

pub open spec fn time_text_in_range(text: Seq<char>) -> bool {
    utc_millis_of_text(text) matches Some(m) && -MILLIS_LIMIT <= m <= MILLIS_LIMIT
}

pub open spec fn is_amount_of(a: Amount, units: int, name: Seq<char>) -> bool {
    a.amount.units == units && a.asset.name@ == name && a.asset.contract_address is None
}

/// The trade that a buy, sell or earn-payout record stands for.
pub open spec fn is_record_trade(t: Trade, row: CoinbaseRecord) -> bool {
    let crypto = text_units(row.amount_amount@);
    let native = text_units(row.native_amount_amount@);
    &&& t.application.0@ == "Coinbase"@
    &&& t.tx_id@ == row.id@
    &&& t.comission is None
    &&& is_time_of(t.timestamp, row.created_at@)
    &&& if row.kind@ == "buy"@ {
        &&& t.source matches Some(s) && is_amount_of(s, native, row.native_amount_currency@)
        &&& is_amount_of(t.destination, crypto, row.amount_currency@)
        &&& t.usd_amount.units == native
    } else if row.kind@ == "sell"@ {
        &&& t.source matches Some(s) && is_amount_of(s, -crypto, row.amount_currency@)
        &&& is_amount_of(t.destination, -native, row.native_amount_currency@)
        &&& t.usd_amount.units == -native
    } else {
        &&& t.source is None
        &&& is_amount_of(t.destination, crypto, row.amount_currency@)
        &&& t.usd_amount.units == native
    }
}

proof fn lemma_kinds_distinct()
    ensures
        "buy"@ != "sell"@,
        "buy"@ != "earn_payout"@,
        "buy"@ != "send"@,
        "buy"@ != "fiat_deposit"@,
        "buy"@ != "trade"@,
        "sell"@ != "earn_payout"@,
        "sell"@ != "send"@,
        "sell"@ != "fiat_deposit"@,
        "sell"@ != "trade"@,
        "earn_payout"@ != "send"@,
        "earn_payout"@ != "fiat_deposit"@,
        "earn_payout"@ != "trade"@,
        "send"@ != "fiat_deposit"@,
        "send"@ != "trade"@,
        "fiat_deposit"@ != "trade"@,
{
    reveal_strlit("buy");
    reveal_strlit("sell");
    reveal_strlit("earn_payout");
    reveal_strlit("send");
    reveal_strlit("fiat_deposit");
    reveal_strlit("trade");
    assert("buy"@[0] != "sell"@[0]);
    assert("buy"@[0] != "earn_payout"@[0]);
    assert("buy"@[0] != "send"@[0]);
    assert("buy"@[0] != "fiat_deposit"@[0]);
    assert("buy"@[0] != "trade"@[0]);
    assert("sell"@[0] != "earn_payout"@[0]);
    assert("sell"@[2] != "send"@[2]);
    assert("sell"@[0] != "fiat_deposit"@[0]);
    assert("sell"@[0] != "trade"@[0]);
    assert("earn_payout"@[0] != "send"@[0]);
    assert("earn_payout"@[0] != "fiat_deposit"@[0]);
    assert("earn_payout"@[0] != "trade"@[0]);
    assert("send"@[0] != "fiat_deposit"@[0]);
    assert("send"@[0] != "trade"@[0]);
    assert("fiat_deposit"@[0] != "trade"@[0]);
}

/// Turns a record that is not a trade leg into the trade it stands for, if
/// any. `fiat` is the reference fiat, such as `EUR`: buys and sells valued in
/// it are already covered by the trade legs. Trade legs, sends and fiat
/// deposits give nothing; an unknown kind is an error.
pub fn classify_record(row: &CoinbaseRecord, fiat: &str) -> (r: Result<
    Option<Trade>,
    NormalizeError,
>)
    ensures
        !is_known_kind(row.kind@) <==> (r matches Err(
            NormalizeError::UnimplementedTransactionType(_),
        )),
        r matches Err(NormalizeError::UnimplementedTransactionType(k)) ==> k@ == row.kind@,
        r matches Ok(None) <==> is_known_kind(row.kind@) && !emits_trade(*row, fiat@),
        emits_trade(*row, fiat@) && !record_numbers_valid(*row) <==> (r matches Err(
            NormalizeError::InvalidAmount(_),
        )),
        r matches Err(NormalizeError::InvalidAmount(id)) ==> id@ == row.id@,
        r matches Err(NormalizeError::InvalidTimestamp(id)) ==> id@ == row.id@ && emits_trade(
            *row,
            fiat@,
        ) && !time_text_in_range(row.created_at@),
        r matches Err(e) ==> !(e is UnsupportedSymbol) && !(e is UnimplementedCurrency)
            && !(e is OverlappingTradeLegs),
        emits_trade(*row, fiat@) && record_numbers_valid(*row) && time_text_in_range(
            row.created_at@,
        ) ==> r matches Ok(Some(_)),
        r matches Ok(Some(t)) ==> emits_trade(*row, fiat@) && is_record_trade(t, *row),
{
    proof {
        lemma_kinds_distinct();
    }
    let kind = row.kind.as_str();
    let is_buy = same_text(kind, "buy");
    let is_sell = same_text(kind, "sell");
    let is_payout = same_text(kind, "earn_payout");
    if !(is_buy || is_sell || is_payout) {
        if same_text(kind, "send") || same_text(kind, "fiat_deposit") || same_text(kind, "trade") {
            return Ok(None);
        }
        return Err(NormalizeError::UnimplementedTransactionType(row.kind.clone()));
    }
    if (is_buy || is_sell) && same_text(row.native_amount_currency.as_str(), fiat) {
        return Ok(None);
    }
    let (crypto, native) = match (
        parse_decimal(row.amount_amount.as_str()),
        parse_decimal(row.native_amount_amount.as_str()),
    ) {
        (Some(a), Some(b)) => (a, b),
        _ => {
            return Err(NormalizeError::InvalidAmount(row.id.clone()));
        },
    };
    let timestamp = match Timestamp::parse(row.created_at.as_str()) {
        Some(t) => t,
        None => {
            return Err(NormalizeError::InvalidTimestamp(row.id.clone()));
        },
    };
    let crypto_asset = asset_named(row.amount_currency.clone());
    let native_asset = asset_named(row.native_amount_currency.clone());
    let application = Application("Coinbase".to_owned());
    let trade = if is_buy {
        Trade {
            application,
            tx_id: row.id.clone(),
            source: Some(Amount { amount: native, asset: native_asset }),
            destination: Amount { amount: crypto, asset: crypto_asset },
            comission: None,
            usd_amount: native,
            timestamp,
        }
    } else if is_sell {
        let paid = Decimal { units: -native.units };
        Trade {
            application,
            tx_id: row.id.clone(),
            source: Some(Amount { amount: Decimal { units: -crypto.units }, asset: crypto_asset }),
            destination: Amount { amount: paid, asset: native_asset },
            comission: None,
            usd_amount: paid,
            timestamp,
        }
    } else {
        Trade {
            application,
            tx_id: row.id.clone(),
            source: None,
            destination: Amount { amount: crypto, asset: crypto_asset },
            comission: None,
            usd_amount: native,
            timestamp,
        }
    };
    Ok(Some(trade))
}


/// One leg of a trade that waits for its counterpart: the crypto quantity,
/// unsigned, and its value in the reference fiat.
#[derive(Clone, Debug, PartialEq, Eq)]
pub struct PendingLeg {
    pub amount: Amount,
    pub fiat_value: Decimal,
}

/// The legs seen so far of the trade being paired.
#[derive(Clone, Debug, PartialEq, Eq)]
pub struct PairingState {
    /// The outflow leg, the asset given up
    pub source: Option<PendingLeg>,
    /// The inflow leg, the asset received
    pub destination: Option<PendingLeg>,
}

pub open spec fn leg_in_range(leg: PendingLeg) -> bool {
    &&& -PARSED_LIMIT <= leg.amount.amount.units <= PARSED_LIMIT
    &&& -PARSED_LIMIT <= leg.fiat_value.units <= PARSED_LIMIT
}

impl PairingState {
    pub open spec fn wf(self) -> bool {
        &&& self.source matches Some(l) ==> leg_in_range(l)
        &&& self.destination matches Some(l) ==> leg_in_range(l)
    }

    pub open spec fn is_empty(self) -> bool {
        self.source is None && self.destination is None
    }

    /// No leg seen yet.
    pub fn new() -> (r: PairingState)
        ensures
            r.is_empty(),
            r.wf(),
    {
        PairingState { source: None, destination: None }
    }
}

/// A leg record whose crypto quantity is negative gives the asset up.
pub open spec fn is_outflow(row: CoinbaseRecord) -> bool {
    text_units(row.amount_amount@) < 0
}

/// The fiat value of a leg record, unsigned.
pub open spec fn leg_fiat_value(row: CoinbaseRecord) -> int {
    if is_outflow(row) {
        -text_units(row.native_amount_amount@)
    } else {
        text_units(row.native_amount_amount@)
    }
}

/// `a` is the crypto quantity of a leg record, unsigned.
pub open spec fn is_leg_amount(a: Amount, row: CoinbaseRecord) -> bool {
    let crypto = text_units(row.amount_amount@);
    is_amount_of(a, if is_outflow(row) { -crypto } else { crypto }, row.amount_currency@)
}

pub open spec fn is_leg_of(leg: PendingLeg, row: CoinbaseRecord) -> bool {
    is_leg_amount(leg.amount, row) && leg.fiat_value.units == leg_fiat_value(row)
}

/// A leg record arrives while a leg of its own direction still waits.
pub open spec fn overlaps(state: PairingState, row: CoinbaseRecord) -> bool {
    if is_outflow(row) {
        state.source is Some
    } else {
        state.destination is Some
    }
}

/// A leg record that completes the pair: the other direction waits.
pub open spec fn completes(state: PairingState, row: CoinbaseRecord) -> bool {
    if is_outflow(row) {
        state.destination is Some
    } else {
        state.source is Some
    }
}

pub open spec fn leg_record_valid(row: CoinbaseRecord, fiat: Seq<char>) -> bool {
    &&& row.native_amount_currency@ == fiat
    &&& record_numbers_valid(row)
    &&& time_text_in_range(row.created_at@)
}

/// The trade that `row` completes with the leg waiting in `state`. Its
/// commission, in the reference fiat, is the value given up less the value
/// received.
pub open spec fn is_completed_trade(
    t: Trade,
    state: PairingState,
    row: CoinbaseRecord,
    fiat: Seq<char>,
) -> bool {
    let out = is_outflow(row);
    let src_fiat = if out {
        leg_fiat_value(row)
    } else {
        state.source.unwrap().fiat_value.units as int
    };
    let dst_fiat = if out {
        state.destination.unwrap().fiat_value.units as int
    } else {
        leg_fiat_value(row)
    };
    &&& t.application.0@ == "Coinbase"@
    &&& t.tx_id@ == row.id@
    &&& is_time_of(t.timestamp, row.created_at@)
    &&& t.source matches Some(s) && (if out {
        is_leg_amount(s, row)
    } else {
        s == state.source.unwrap().amount
    })
    &&& if out {
        t.destination == state.destination.unwrap().amount
    } else {
        is_leg_amount(t.destination, row)
    }
    &&& t.comission matches Some(c) && is_amount_of(c.amount, src_fiat - dst_fiat, fiat)
        && c.usd_amount.units == src_fiat - dst_fiat
    &&& t.usd_amount.units == src_fiat
}

/// Feeds one trade-leg record to the pairing. Records must come in time
/// order, the two legs of a trade next to each other; a leg that would
/// replace a waiting leg of the same direction is refused.
pub fn pair_step(state: PairingState, row: &CoinbaseRecord, fiat: &str) -> (r: Result<
    (PairingState, Option<Trade>),
    NormalizeError,
>)
    requires
        state.wf(),
    ensures
        row.native_amount_currency@ != fiat@ <==> (r matches Err(
            NormalizeError::UnimplementedCurrency(_),
        )),
        r matches Err(NormalizeError::UnimplementedCurrency(c)) ==> c@
            == row.native_amount_currency@,
        row.native_amount_currency@ == fiat@ && !record_numbers_valid(*row) <==> (r matches Err(
            NormalizeError::InvalidAmount(_),
        )),
        r matches Err(NormalizeError::InvalidAmount(id)) ==> id@ == row.id@,
        r matches Err(NormalizeError::InvalidTimestamp(id)) ==> id@ == row.id@
            && !time_text_in_range(row.created_at@),
        r matches Err(NormalizeError::OverlappingTradeLegs(id)) ==> id@ == row.id@ && overlaps(
            state,
            *row,
        ),
        r matches Err(e) ==> !(e is UnsupportedSymbol) && !(e is UnimplementedTransactionType),
        leg_record_valid(*row, fiat@) ==> (r is Ok <==> !overlaps(state, *row)),
        r matches Ok((next, out)) ==> {
            &&& next.wf()
            &&& !overlaps(state, *row)
            &&& if completes(state, *row) {
                &&& next.is_empty()
                &&& out matches Some(t) && is_completed_trade(t, state, *row, fiat@)
            } else {
                &&& out is None
                &&& if is_outflow(*row) {
                    next.source matches Some(l) && is_leg_of(l, *row) && next.destination
                        == state.destination
                } else {
                    next.destination matches Some(l) && is_leg_of(l, *row) && next.source
                        == state.source
                }
            }
        },
{
    if !same_text(row.native_amount_currency.as_str(), fiat) {
        return Err(NormalizeError::UnimplementedCurrency(row.native_amount_currency.clone()));
    }
    let (crypto, native) = match (
        parse_decimal(row.amount_amount.as_str()),
        parse_decimal(row.native_amount_amount.as_str()),
    ) {
        (Some(a), Some(b)) => (a, b),
        _ => {
            return Err(NormalizeError::InvalidAmount(row.id.clone()));
        },
    };
    let timestamp = match Timestamp::parse(row.created_at.as_str()) {
        Some(t) => t,
        None => {
            return Err(NormalizeError::InvalidTimestamp(row.id.clone()));
        },
    };
    let outflow = crypto.is_negative();
    let leg = if outflow {
        PendingLeg {
            amount: Amount {
                amount: Decimal { units: -crypto.units },
                asset: asset_named(row.amount_currency.clone()),
            },
            fiat_value: Decimal { units: -native.units },
        }
    } else {
        PendingLeg {
            amount: Amount { amount: crypto, asset: asset_named(row.amount_currency.clone()) },
            fiat_value: native,
        }
    };
    let PairingState { source, destination } = state;
    let (source, destination) = if outflow {
        if source.is_some() {
            return Err(NormalizeError::OverlappingTradeLegs(row.id.clone()));
        }
        match destination {
            None => {
                return Ok((PairingState { source: Some(leg), destination: None }, None));
            },
            Some(d) => (leg, d),
        }
    } else {
        if destination.is_some() {
            return Err(NormalizeError::OverlappingTradeLegs(row.id.clone()));
        }
        match source {
            None => {
                return Ok((PairingState { source: None, destination: Some(leg) }, None));
            },
            Some(s) => (s, leg),
        }
    };
    let fee = Decimal { units: source.fiat_value.units - destination.fiat_value.units };
    let trade = Trade {
        application: Application("Coinbase".to_owned()),
        tx_id: row.id.clone(),
        source: Some(source.amount),
        destination: destination.amount,
        comission: Some(
            Comission { amount: Amount { amount: fee, asset: asset_named(fiat.to_owned()) }, usd_amount: fee },
        ),
        usd_amount: source.fiat_value,
        timestamp,
    };
    Ok((PairingState::new(), Some(trade)))
}

/// Two leg records of opposite direction and equal fiat value pair into a
/// trade without commission, whichever of them comes first.
pub proof fn lemma_equal_legs_no_comission(
    t: Trade,
    a: CoinbaseRecord,
    b: CoinbaseRecord,
    fiat: Seq<char>,
)
    requires
        is_pair_of(t, a, b, fiat),
        leg_fiat_value(a) == leg_fiat_value(b),
    ensures
        t.comission matches Some(c) && c.amount.amount.units == 0 && c.usd_amount.units == 0,
{
}

/// An earn payout is a free acquisition: whatever it brings in, its single
/// ledger line is a buy at the nominal price of 0.01.
pub proof fn lemma_earn_payout_nominal_price(
    row: CoinbaseRecord,
    t: Trade,
    fiat: Seq<String>,
    rows: Seq<crate::export::ExportTransaction>,
)
    requires
        row.kind@ == "earn_payout"@,
        is_record_trade(t, row),
        is_trade_projection(rows, t, fiat),
    ensures
        rows.len() == 1,
        rows[0].kind == ExportTradeType::Buy,
        rows[0].fiat_amount.units == NOMINAL_FIAT_UNITS,
        rows[0].comission_amount.units == 0,
{
    lemma_kinds_distinct();
}

/// Which directions wait after the trade-leg records of `rows` have been
/// paired in order, or `None` once a leg would replace a waiting one.
pub open spec fn sides_after(rows: Seq<CoinbaseRecord>) -> Option<(bool, bool)>
    decreases rows.len(),
{
    if rows.len() == 0 {
        Some((false, false))
    } else {
        match sides_after(rows.drop_last()) {
            None => None,
            Some((src, dst)) => {
                let row = rows.last();
                if row.kind@ != "trade"@ {
                    Some((src, dst))
                } else if is_outflow(row) {
                    if src {
                        None
                    } else if dst {
                        Some((false, false))
                    } else {
                        Some((true, false))
                    }
                } else {
                    if dst {
                        None
                    } else if src {
                        Some((false, false))
                    } else {
                        Some((false, true))
                    }
                }
            },
        }
    }
}

proof fn lemma_sides_none_persists(rows: Seq<CoinbaseRecord>, i: int)
    requires
        0 <= i <= rows.len(),
        sides_after(rows.take(i)) is None,
    ensures
        sides_after(rows) is None,
    decreases rows.len() - i,
{
    if i < rows.len() {
        assert(rows.take(i + 1).drop_last() =~= rows.take(i));
        lemma_sides_none_persists(rows, i + 1);
    } else {
        assert(rows.take(i) =~= rows);
    }
}

/// Every record of `rows` can be normalized on its own.
pub open spec fn records_valid(rows: Seq<CoinbaseRecord>, fiat: Seq<char>) -> bool {
    forall|i: int|
        0 <= i < rows.len() ==> {
            let row = #[trigger] rows[i];
            &&& is_known_kind(row.kind@)
            &&& emits_trade(row, fiat) ==> record_numbers_valid(row) && time_text_in_range(
                row.created_at@,
            )
            &&& row.kind@ == "trade"@ ==> leg_record_valid(row, fiat)
        }
}

/// The trade that pairs the leg record `a` with the later leg record `b`
/// of the other direction. Its commission, in the reference fiat, is the
/// value given up less the value received.
pub open spec fn is_pair_of(t: Trade, a: CoinbaseRecord, b: CoinbaseRecord, fiat: Seq<char>) -> bool {
    let src = if is_outflow(b) {
        b
    } else {
        a
    };
    let dst = if is_outflow(b) {
        a
    } else {
        b
    };
    &&& a.kind@ == "trade"@
    &&& b.kind@ == "trade"@
    &&& is_outflow(a) != is_outflow(b)
    &&& t.application.0@ == "Coinbase"@
    &&& t.tx_id@ == b.id@
    &&& is_time_of(t.timestamp, b.created_at@)
    &&& t.source matches Some(s) && is_leg_amount(s, src)
    &&& is_leg_amount(t.destination, dst)
    &&& t.comission matches Some(c) && is_amount_of(
        c.amount,
        leg_fiat_value(src) - leg_fiat_value(dst),
        fiat,
    ) && c.usd_amount.units == leg_fiat_value(src) - leg_fiat_value(dst)
    &&& t.usd_amount.units == leg_fiat_value(src)
}

/// A pending leg came from an earlier leg record of its direction.
pub open spec fn leg_from(leg: PendingLeg, rows: Seq<CoinbaseRecord>, end: int, outflow: bool) -> bool {
    exists|j: int|
        0 <= j < end && (#[trigger] rows[j]).kind@ == "trade"@ && is_outflow(rows[j]) == outflow
            && is_leg_of(leg, rows[j])
}

/// `e` is what normalization reports of `row`.
pub open spec fn is_record_error(e: NormalizeError, row: CoinbaseRecord, fiat: Seq<char>) -> bool {
    match e {
        NormalizeError::UnimplementedTransactionType(k) => k@ == row.kind@ && !is_known_kind(k@),
        NormalizeError::InvalidAmount(id) => id@ == row.id@ && !record_numbers_valid(row),
        NormalizeError::InvalidTimestamp(id) => id@ == row.id@ && !time_text_in_range(
            row.created_at@,
        ),
        NormalizeError::UnimplementedCurrency(c) => row.kind@ == "trade"@ && c@
            == row.native_amount_currency@ && c@ != fiat,
        NormalizeError::OverlappingTradeLegs(id) => id@ == row.id@ && row.kind@ == "trade"@,
        NormalizeError::UnsupportedSymbol(_) => false,
    }
}

/// How many records of `rows` stand for a trade of their own.
pub open spec fn emit_count(rows: Seq<CoinbaseRecord>, fiat: Seq<char>) -> nat
    decreases rows.len(),
{
    if rows.len() == 0 {
        0
    } else {
        emit_count(rows.drop_last(), fiat) + if emits_trade(rows.last(), fiat) {
            1nat
        } else {
            0nat
        }
    }
}

/// The leg record `row`, coming after `prev`, completes a pair.
pub open spec fn completes_after(prev: Seq<CoinbaseRecord>, row: CoinbaseRecord) -> bool {
    &&& row.kind@ == "trade"@
    &&& sides_after(prev) matches Some((src, dst)) && if is_outflow(row) {
        dst
    } else {
        src
    }
}

/// How many pairs the leg records of `rows` complete.
pub open spec fn pair_count(rows: Seq<CoinbaseRecord>) -> nat
    decreases rows.len(),
{
    if rows.len() == 0 {
        0
    } else {
        pair_count(rows.drop_last()) + if completes_after(rows.drop_last(), rows.last()) {
            1nat
        } else {
            0nat
        }
    }
}

proof fn lemma_emit_count_grows(rows: Seq<CoinbaseRecord>, fiat: Seq<char>, j: int, i: int)
    requires
        0 <= j <= i <= rows.len(),
    ensures
        emit_count(rows.take(j), fiat) <= emit_count(rows.take(i), fiat),
    decreases i - j,
{
    if j < i {
        assert(rows.take(i).drop_last() =~= rows.take(i - 1));
        lemma_emit_count_grows(rows, fiat, j, i - 1);
    }
}

proof fn lemma_pair_count_grows(rows: Seq<CoinbaseRecord>, j: int, i: int)
    requires
        0 <= j <= i <= rows.len(),
    ensures
        pair_count(rows.take(j)) <= pair_count(rows.take(i)),
    decreases i - j,
{
    if j < i {
        assert(rows.take(i).drop_last() =~= rows.take(i - 1));
        lemma_pair_count_grows(rows, j, i - 1);
    }
}

/// The trades of the records that stand for one, in record order.
pub fn classify_records(records: &Vec<CoinbaseRecord>, fiat: &str) -> (r: Result<
    Vec<Trade>,
    NormalizeError,
>)
    ensures
        (forall|i: int|
            0 <= i < records@.len() ==> {
                let row = #[trigger] records@[i];
                &&& is_known_kind(row.kind@)
                &&& emits_trade(row, fiat@) ==> record_numbers_valid(row) && time_text_in_range(
                    row.created_at@,
                )
            }) ==> r is Ok,
        r is Ok ==> forall|i: int|
            0 <= i < records@.len() ==> is_known_kind(#[trigger] records@[i].kind@),
        r matches Ok(v) ==> v@.len() == emit_count(records@, fiat@),
        r matches Ok(v) ==> forall|i: int|
            0 <= i < records@.len() && emits_trade(#[trigger] records@[i], fiat@)
                ==> is_record_trade(v@[emit_count(records@.take(i), fiat@) as int], records@[i]),
        r matches Err(e) ==> exists|i: int|
            0 <= i < records@.len() && is_record_error(e, #[trigger] records@[i], fiat@),
{
    let ghost rows = records@;
    let mut trades: Vec<Trade> = Vec::new();
    let mut i: usize = 0;
    while i < records.len()
        invariant
            rows == records@,
            i <= rows.len(),
            forall|j: int| 0 <= j < i ==> is_known_kind(#[trigger] rows[j].kind@),
            trades@.len() == emit_count(rows.take(i as int), fiat@),
            forall|j: int|
                0 <= j < i && emits_trade(#[trigger] rows[j], fiat@) ==> is_record_trade(
                    trades@[emit_count(rows.take(j), fiat@) as int],
                    rows[j],
                ),
        decreases rows.len() - i,
    {
        assert(rows.take(i + 1).drop_last() =~= rows.take(i as int));
        assert(rows.take(i + 1).last() == rows[i as int]);
        proof {
            assert forall|j: int| 0 <= j < i && emits_trade(#[trigger] rows[j], fiat@) implies emit_count(
                rows.take(j),
                fiat@,
            ) < emit_count(rows.take(i as int), fiat@) by {
                assert(rows.take(j + 1).drop_last() =~= rows.take(j));
                assert(rows.take(j + 1).last() == rows[j]);
                lemma_emit_count_grows(rows, fiat@, j + 1, i as int);
            }
        }
        match classify_record(&records[i], fiat) {
            Ok(Some(t)) => {
                let ghost before = trades@;
                trades.push(t);
                proof {
                    assert forall|j: int|
                        0 <= j < i + 1 && emits_trade(#[trigger] rows[j], fiat@) implies is_record_trade(
                        trades@[emit_count(rows.take(j), fiat@) as int],
                        rows[j],
                    ) by {
                        if j < i {
                            assert(trades@[emit_count(rows.take(j), fiat@) as int] == before[emit_count(
                                rows.take(j),
                                fiat@,
                            ) as int]);
                        }
                    }
                }
            },
            Ok(None) => {},
            Err(e) => {
                assert(is_record_error(e, rows[i as int], fiat@));
                return Err(e);
            },
        }
        i = i + 1;
    }
    assert(rows.take(i as int) =~= rows);
    Ok(trades)
}

/// The trades that the trade-leg records of `records` pair into, taken in
/// the order given, which must be the order of time.
pub fn pair_records(records: &Vec<CoinbaseRecord>, fiat: &str) -> (r: Result<
    Vec<Trade>,
    NormalizeError,
>)
    ensures
        (forall|i: int|
            0 <= i < records@.len() && (#[trigger] records@[i]).kind@ == "trade"@
                ==> leg_record_valid(records@[i], fiat@)) && sides_after(records@) is Some
            ==> r is Ok,
        r is Ok ==> sides_after(records@) is Some,
        r matches Ok(v) ==> v@.len() == pair_count(records@),
        r matches Ok(v) ==> forall|i: int|
            0 <= i < records@.len() && completes_after(records@.take(i), #[trigger] records@[i])
                ==> exists|j: int|
                0 <= j < i && is_pair_of(
                    v@[pair_count(records@.take(i)) as int],
                    #[trigger] records@[j],
                    records@[i],
                    fiat@,
                ),
        r matches Err(e) ==> exists|i: int|
            0 <= i < records@.len() && is_record_error(e, #[trigger] records@[i], fiat@),
{
    let ghost rows = records@;
    let mut trades: Vec<Trade> = Vec::new();
    let mut state = PairingState::new();
    let mut i: usize = 0;
    proof {
        lemma_kinds_distinct();
    }
    while i < records.len()
        invariant
            rows == records@,
            i <= rows.len(),
            state.wf(),
            sides_after(rows.take(i as int)) == Some(
                (state.source is Some, state.destination is Some),
            ),
            state.source matches Some(l) ==> leg_from(l, rows, i as int, true),
            state.destination matches Some(l) ==> leg_from(l, rows, i as int, false),
            trades@.len() == pair_count(rows.take(i as int)),
            forall|j: int|
                0 <= j < i && completes_after(rows.take(j), #[trigger] rows[j]) ==> exists|m: int|
                    0 <= m < j && is_pair_of(
                        trades@[pair_count(rows.take(j)) as int],
                        #[trigger] rows[m],
                        rows[j],
                        fiat@,
                    ),
        decreases rows.len() - i,
    {
        assert(rows.take(i + 1).drop_last() =~= rows.take(i as int));
        assert(rows.take(i + 1).last() == rows[i as int]);
        proof {
            assert forall|j: int|
                0 <= j < i && completes_after(rows.take(j), #[trigger] rows[j]) implies pair_count(
                rows.take(j),
            ) < pair_count(rows.take(i as int)) by {
                assert(rows.take(j + 1).drop_last() =~= rows.take(j));
                assert(rows.take(j + 1).last() == rows[j]);
                lemma_pair_count_grows(rows, j + 1, i as int);
            }
        }
        if same_text(records[i].kind.as_str(), "trade") {
            let ghost old_state = state;
            match pair_step(state, &records[i], fiat) {
                Ok((next, out)) => {
                    state = next;
                    match out {
                        Some(t) => {
                            let ghost before = trades@;
                            proof {
                                let j = if is_outflow(rows[i as int]) {
                                    choose|j: int|
                                        0 <= j < i && (#[trigger] rows[j]).kind@ == "trade"@
                                            && is_outflow(rows[j]) == false && is_leg_of(
                                            old_state.destination.unwrap(),
                                            rows[j],
                                        )
                                } else {
                                    choose|j: int|
                                        0 <= j < i && (#[trigger] rows[j]).kind@ == "trade"@
                                            && is_outflow(rows[j]) == true && is_leg_of(
                                            old_state.source.unwrap(),
                                            rows[j],
                                        )
                                };
                                assert(is_pair_of(t, rows[j], rows[i as int], fiat@));
                            }
                            trades.push(t);
                            proof {
                                assert forall|j: int|
                                    0 <= j < i && completes_after(rows.take(j), #[trigger] rows[j])
                                    implies exists|m: int|
                                    0 <= m < j && is_pair_of(
                                        trades@[pair_count(rows.take(j)) as int],
                                        #[trigger] rows[m],
                                        rows[j],
                                        fiat@,
                                    ) by {
                                    assert(trades@[pair_count(rows.take(j)) as int]
                                        == before[pair_count(rows.take(j)) as int]);
                                }
                            }
                        },
                        None => {},
                    }
                },
                Err(e) => {
                    assert(is_record_error(e, rows[i as int], fiat@));
                    proof {
                        if leg_record_valid(rows[i as int], fiat@) {
                            lemma_sides_none_persists(rows, i + 1);
                        }
                    }
                    return Err(e);
                },
            }
        }
        i = i + 1;
    }
    assert(rows.take(i as int) =~= rows);
    Ok(trades)
}

/// `v` holds the trades of `rows`: first the trade of each record that
/// stands for one, in record order, then the trade of each completed pair of
/// leg records, in the order of the records that complete them.
pub open spec fn is_normalization(v: Seq<Trade>, rows: Seq<CoinbaseRecord>, fiat: Seq<char>) -> bool {
    &&& v.len() == emit_count(rows, fiat) + pair_count(rows)
    &&& forall|i: int|
        0 <= i < rows.len() && emits_trade(#[trigger] rows[i], fiat) ==> is_record_trade(
            v[emit_count(rows.take(i), fiat) as int],
            rows[i],
        )
    &&& forall|i: int|
        0 <= i < rows.len() && completes_after(rows.take(i), #[trigger] rows[i]) ==> exists|j: int|
            0 <= j < i && is_pair_of(
                v[(emit_count(rows, fiat) + pair_count(rows.take(i))) as int],
                #[trigger] rows[j],
                rows[i],
                fiat,
            )
}

/// Turns all stored Coinbase records into trades: first those that stand
/// for a trade of their own, in order, then the paired trade legs, taken in
/// the order given, which must be the order of time.
pub fn normalize_records(records: &Vec<CoinbaseRecord>, fiat: &str) -> (r: Result<
    Vec<Trade>,
    NormalizeError,
>)
    ensures
        records_valid(records@, fiat@) && sides_after(records@) is Some ==> r is Ok,
        r is Ok ==> sides_after(records@) is Some,
        r is Ok ==> forall|i: int|
            0 <= i < records@.len() ==> is_known_kind(#[trigger] records@[i].kind@),
        r matches Ok(v) ==> is_normalization(v@, records@, fiat@),
        r matches Err(e) ==> exists|i: int|
            0 <= i < records@.len() && is_record_error(e, #[trigger] records@[i], fiat@),
{
    let mut classified = match classify_records(records, fiat) {
        Ok(v) => v,
        Err(e) => {
            return Err(e);
        },
    };
    let mut paired = match pair_records(records, fiat) {
        Ok(v) => v,
        Err(e) => {
            return Err(e);
        },
    };
    let ghost c = classified@;
    let ghost p = paired@;
    classified.append(&mut paired);
    proof {
        assert forall|i: int|
            0 <= i < records@.len() && emits_trade(#[trigger] records@[i], fiat@) implies is_record_trade(
            classified@[emit_count(records@.take(i), fiat@) as int],
            records@[i],
        ) by {
            assert(records@.take(i + 1).drop_last() =~= records@.take(i));
            assert(records@.take(i + 1).last() == records@[i]);
            lemma_emit_count_grows(records@, fiat@, i + 1, records@.len() as int);
            assert(records@.take(records@.len() as int) =~= records@);
            assert(classified@[emit_count(records@.take(i), fiat@) as int] == c[emit_count(
                records@.take(i),
                fiat@,
            ) as int]);
        }
        assert forall|i: int|
            0 <= i < records@.len() && completes_after(records@.take(i), #[trigger] records@[i])
            implies exists|j: int|
            0 <= j < i && is_pair_of(
                classified@[(emit_count(records@, fiat@) + pair_count(records@.take(i))) as int],
                #[trigger] records@[j],
                records@[i],
                fiat@,
            ) by {
            assert(records@.take(i + 1).drop_last() =~= records@.take(i));
            assert(records@.take(i + 1).last() == records@[i]);
            lemma_pair_count_grows(records@, i + 1, records@.len() as int);
            assert(records@.take(records@.len() as int) =~= records@);
            assert(classified@[(emit_count(records@, fiat@) + pair_count(records@.take(i))) as int]
                == p[pair_count(records@.take(i)) as int]);
        }
    }
    assert(is_normalization(classified@, records@, fiat@));
    Ok(classified)
}

} // verus!
