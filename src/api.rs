//! Shapes of the Coinbase API responses, and how a fetched transaction is
//! stored.

use vstd::prelude::*;

use crate::coinbase::CoinbaseRecord;

verus! {

#[derive(Clone, Debug, PartialEq, Eq)]
pub struct Pagination {
    pub next_uri: Option<String>,
}

/// One page of a listing.
#[derive(Clone, Debug, PartialEq, Eq)]
pub struct CoinbaseResult<T> {
    pub data: T,
    pub pagination: Option<Pagination>,
}

/// The server time, in seconds since the Unix epoch.
#[derive(Clone, Debug, PartialEq, Eq)]
pub struct TimeResult {
    pub epoch: u64,
}

#[derive(Clone, Debug, PartialEq, Eq)]
pub struct AccountResult {
    pub id: String,
}

#[derive(Clone, Debug, PartialEq, Eq)]
pub struct AmountResult {
    pub amount: String,
    pub currency: String,
}

#[derive(Clone, Debug, PartialEq, Eq)]
pub struct NetworkResult {
    pub status: String,
    pub name: Option<String>,
}

#[derive(Clone, Debug, PartialEq, Eq)]
pub struct ToResult {
    pub id: Option<String>,
    pub resource: String,
    pub resource_path: Option<String>,
}

#[derive(Clone, Debug, PartialEq, Eq)]
pub struct DetailsResult {
    pub title: String,
    pub subtitle: String,
}

/// A transaction of one account.
#[derive(Clone, Debug, PartialEq, Eq)]
pub struct TransactionResult {
    pub id: String,
    pub kind: String,
    pub status: String,
    pub amount: AmountResult,
    pub native_amount: AmountResult,
    pub description: Option<String>,
    pub created_at: String,
    pub updated_at: String,
    pub resource: String,
    pub resource_path: String,
    pub network: Option<NetworkResult>,
    pub to: Option<ToResult>,
    pub details: DetailsResult,
}

/// Where the next page of a listing is, if there is one.
pub fn next_page<T>(page: &CoinbaseResult<T>) -> (r: Option<String>)
    ensures
        r is Some <==> (page.pagination matches Some(p) && p.next_uri is Some),
        r matches Some(u) ==> u == page.pagination.unwrap().next_uri.unwrap(),
{
    match &page.pagination {
        Some(p) => match &p.next_uri {
            Some(u) => Some(u.clone()),
            None => None,
        },
        None => None,
    }
}

/// The stored form of a fetched transaction: the nested parts flattened,
/// missing parts left empty.
pub fn record_of(tx: TransactionResult) -> (r: CoinbaseRecord)
    ensures
        r.id == tx.id,
        r.kind == tx.kind,
        r.status == tx.status,
        r.amount_amount == tx.amount.amount,
        r.amount_currency == tx.amount.currency,
        r.native_amount_amount == tx.native_amount.amount,
        r.native_amount_currency == tx.native_amount.currency,
        r.description == tx.description,
        r.created_at == tx.created_at,
        r.updated_at == tx.updated_at,
        r.resource == tx.resource,
        r.resource_path == tx.resource_path,
        r.network_status == (match tx.network {
            Some(n) => Some(n.status),
            None => None,
        }),
        r.network_name == (match tx.network {
            Some(n) => n.name,
            None => None,
        }),
        r.to_id == (match tx.to {
            Some(t) => t.id,
            None => None,
        }),
        r.to_resource == (match tx.to {
            Some(t) => Some(t.resource),
            None => None,
        }),
        r.to_resource_path == (match tx.to {
            Some(t) => t.resource_path,
            None => None,
        }),
        r.details_title == tx.details.title,
        r.details_subtitle == tx.details.subtitle,
{
    let (network_status, network_name) = match tx.network {
        Some(n) => (Some(n.status), n.name),
        None => (None, None),
    };
    let (to_id, to_resource, to_resource_path) = match tx.to {
        Some(t) => (t.id, Some(t.resource), t.resource_path),
        None => (None, None, None),
    };
    CoinbaseRecord {
        id: tx.id,
        kind: tx.kind,
        status: tx.status,
        amount_amount: tx.amount.amount,
        amount_currency: tx.amount.currency,
        native_amount_amount: tx.native_amount.amount,
        native_amount_currency: tx.native_amount.currency,
        description: tx.description,
        created_at: tx.created_at,
        updated_at: tx.updated_at,
        resource: tx.resource,
        resource_path: tx.resource_path,
        network_status,
        network_name,
        to_id,
        to_resource,
        to_resource_path,
        details_title: tx.details.title,
        details_subtitle: tx.details.subtitle,
    }
}

} // verus!
