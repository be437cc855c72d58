//! Merging of the per-exchange transaction sequences into one sequence in
//! time order.

use vstd::prelude::*;

use crate::coinbase::{
    is_normalization, is_record_error, normalize_records, records_valid, sides_after, CoinbaseRecord,
};
use crate::data::{NormalizeError, Trade, Transaction};
use crate::mexc::{fill_valid, is_fill_error, is_fill_trade, normalize_fills, MexcTradeRow};

verus! {

broadcast use vstd::seq_lib::group_seq_properties;

pub open spec fn time_of(tx: Transaction) -> int {
    tx.spec_timestamp().spec_millis()
}

pub open spec fn sorted_by_time(s: Seq<Transaction>) -> bool {
    forall|i: int, j: int| 0 <= i <= j < s.len() ==> time_of(#[trigger] s[i]) <= time_of(
        #[trigger] s[j],
    )
}

/// Merges two sequences into one that holds exactly their transactions;
/// when both are in time order, so is the result.
pub fn merge_by_time(first: Vec<Transaction>, second: Vec<Transaction>) -> (r: Vec<Transaction>)
    ensures
        r@.len() == first@.len() + second@.len(),
        r@.to_multiset() == first@.to_multiset().add(second@.to_multiset()),
        sorted_by_time(first@) && sorted_by_time(second@) ==> sorted_by_time(r@),
{
    let ghost a0 = first@;
    let ghost b0 = second@;
    let mut a = first;
    let mut b = second;
    let mut out: Vec<Transaction> = Vec::new();
    while a.len() > 0 || b.len() > 0
        invariant
            a0 == a0.take(a0.len() - a@.len()) + a@,
            b0 == b0.take(b0.len() - b@.len()) + b@,
            a@.len() <= a0.len(),
            b@.len() <= b0.len(),
            out@.len() == (a0.len() - a@.len()) + (b0.len() - b@.len()),
            out@.to_multiset() == a0.take(a0.len() - a@.len()).to_multiset().add(
                b0.take(b0.len() - b@.len()).to_multiset(),
            ),
            sorted_by_time(a0) && sorted_by_time(b0) ==> {
                &&& sorted_by_time(out@)
                &&& out@.len() > 0 && a@.len() > 0 ==> time_of(out@.last()) <= time_of(a@[0])
                &&& out@.len() > 0 && b@.len() > 0 ==> time_of(out@.last()) <= time_of(b@[0])
            },
        decreases a@.len() + b@.len(),
    {
        let ghost ia = a0.len() - a@.len();
        let ghost ib = b0.len() - b@.len();
        let take_first = if a.len() == 0 {
            false
        } else if b.len() == 0 {
            true
        } else {
            a[0].timestamp().millis() <= b[0].timestamp().millis()
        };
        let ghost before = out@;
        if take_first {
            let tx = a.remove(0);
            proof {
                assert(a0[ia] == tx);
                assert(a0.take(ia + 1) =~= a0.take(ia).push(tx));
                assert(a0 =~= a0.take(ia + 1) + a@);
            }
            out.push(tx);
            proof {
                if sorted_by_time(a0) && sorted_by_time(b0) {
                    if a@.len() > 0 {
                        assert(a@[0] == a0[ia + 1]);
                    }
                }
            }
        } else {
            let tx = b.remove(0);
            proof {
                assert(b0[ib] == tx);
                assert(b0.take(ib + 1) =~= b0.take(ib).push(tx));
                assert(b0 =~= b0.take(ib + 1) + b@);
            }
            out.push(tx);
            proof {
                if sorted_by_time(a0) && sorted_by_time(b0) {
                    if b@.len() > 0 {
                        assert(b@[0] == b0[ib + 1]);
                    }
                }
            }
        }
        proof {
            assert(out@ == before.push(out@.last()));
            if sorted_by_time(a0) && sorted_by_time(b0) {
                assert forall|i: int, j: int| 0 <= i <= j < out@.len() implies time_of(
                    #[trigger] out@[i],
                ) <= time_of(#[trigger] out@[j]) by {
                    if j == out@.len() - 1 && i < j {
                        assert(out@[i] == before[i]);
                        assert(time_of(before[i]) <= time_of(before.last()));
                    } else if j < out@.len() - 1 {
                        assert(out@[i] == before[i]);
                        assert(out@[j] == before[j]);
                    }
                }
            }
        }
    }
    proof {
        assert(a0.take(a0.len() as int) =~= a0);
        assert(b0.take(b0.len() as int) =~= b0);
    }
    out
}


/// The transactions of `txs` in time order.
pub fn sort_by_time(txs: Vec<Transaction>) -> (r: Vec<Transaction>)
    ensures
        r@.to_multiset() == txs@.to_multiset(),
        sorted_by_time(r@),
{
    let ghost all = txs@;
    let mut rest = txs;
    let mut out: Vec<Transaction> = Vec::new();
    while rest.len() > 0
        invariant
            all == all.take(all.len() - rest@.len()) + rest@,
            rest@.len() <= all.len(),
            out@.to_multiset() == all.take(all.len() - rest@.len()).to_multiset(),
            sorted_by_time(out@),
        decreases rest@.len(),
    {
        let ghost k: int = all.len() - rest@.len();
        let tx = rest.remove(0);
        proof {
            assert(all[k] == tx);
            assert(all.take(k + 1) =~= all.take(k).push(tx));
            assert(all =~= all.take(k + 1) + rest@);
        }
        let ghost before = out@.to_multiset();
        let single = vec![tx];
        proof {
            let e = Seq::<Transaction>::empty();
            assert(single@ =~= e.push(tx));
            assert forall|x: Transaction| e.to_multiset().count(x) == 0 by {
                assert(!e.contains(x));
            }
            assert(e.to_multiset() =~= vstd::multiset::Multiset::empty());
            assert(single@.to_multiset() =~= vstd::multiset::Multiset::empty().insert(tx));
        }
        out = merge_by_time(out, single);
        proof {
            assert(out@.to_multiset() =~= before.insert(tx));
            assert(all.take(k).push(tx).to_multiset() == all.take(k).to_multiset().insert(tx));
        }
    }
    proof {
        assert(all.take(all.len() as int) =~= all);
    }
    out
}

pub open spec fn wrapped(trades: Seq<Trade>) -> Seq<Transaction> {
    trades.map_values(|t: Trade| Transaction::Trade(t))
}

/// Each trade as a transaction, in order.
pub fn as_transactions(trades: Vec<Trade>) -> (r: Vec<Transaction>)
    ensures
        r@ == wrapped(trades@),
{
    let ghost all = trades@;
    let mut rest = trades;
    let mut out: Vec<Transaction> = Vec::new();
    while rest.len() > 0
        invariant
            all == all.take(out@.len() as int) + rest@,
            out@.len() <= all.len(),
            out@ == all.take(out@.len() as int).map_values(|t: Trade| Transaction::Trade(t)),
        decreases rest@.len(),
    {
        let ghost k: int = out@.len() as int;
        let t = rest.remove(0);
        assert(all[k as int] == t);
        out.push(Transaction::Trade(t));
        assert(all.take(k + 1) =~= all.take(k).push(t));
        assert(out@ =~= all.take(k + 1).map_values(|t: Trade| Transaction::Trade(t)));
        assert(all =~= all.take(k + 1) + rest@);
    }
    assert(all.take(out@.len() as int) =~= all);
    out
}

/// All normalized transactions of both exchanges, in time order:
/// the MEXC fills, with symbols ending in `quote`, and the Coinbase records,
/// with trade legs valued in `fiat`.
pub fn get_all_trades(
    fills: &Vec<MexcTradeRow>,
    records: &Vec<CoinbaseRecord>,
    quote: &str,
    fiat: &str,
) -> (r: Result<Vec<Transaction>, NormalizeError>)
    ensures
        (forall|i: int| 0 <= i < fills@.len() ==> fill_valid(#[trigger] fills@[i], quote@))
            && records_valid(records@, fiat@) && sides_after(records@) is Some ==> r is Ok,
        r matches Ok(v) ==> exists|m: Seq<Trade>, c: Seq<Trade>|
            #![trigger wrapped(m), wrapped(c)]
            {
                &&& m.len() == fills@.len()
                &&& forall|i: int| 0 <= i < m.len() ==> is_fill_trade(#[trigger] m[i], fills@[i], quote@)
                &&& is_normalization(c, records@, fiat@)
                &&& v@.to_multiset() == wrapped(m).to_multiset().add(wrapped(c).to_multiset())
                &&& sorted_by_time(v@)
            },
        r matches Err(e) ==> (exists|i: int|
            0 <= i < fills@.len() && is_fill_error(e, #[trigger] fills@[i], quote@)) || (exists|
            i: int,
        | 0 <= i < records@.len() && is_record_error(e, #[trigger] records@[i], fiat@)),
{
    let m = match normalize_fills(fills, quote) {
        Ok(m) => m,
        Err(e) => {
            return Err(e);
        },
    };
    let c = match normalize_records(records, fiat) {
        Ok(c) => c,
        Err(e) => {
            return Err(e);
        },
    };
    let ghost ms = m@;
    let ghost cs = c@;
    let merged = merge_by_time(
        sort_by_time(as_transactions(m)),
        sort_by_time(as_transactions(c)),
    );
    assert(ms.len() == fills@.len());
    assert(merged@.to_multiset() == wrapped(ms).to_multiset().add(wrapped(cs).to_multiset()));
    Ok(merged)
}

} // verus!
