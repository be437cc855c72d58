//! The canonical transaction model shared by every exchange.

use vstd::prelude::*;

use crate::decimal::Decimal;
use crate::time::Timestamp;

verus! {

pub type Network = String;

/// A place where a crypto currency or fiat can be stored: an exchange, a
/// wallet, a bank.
#[derive(Clone, Debug, PartialEq, Eq)]
pub enum ValueStore {
    Cex(String),
    Wallet {
        /// Name of the wallet, e.g. MetaMask
        name: String,
        /// The network the wallet is on
        network: Network,
        /// The public address of the wallet
        address: String,
    },
}

/// A crypto currency or fiat, identified by its ticker.
#[derive(Clone, Debug, PartialEq, Eq)]
pub struct Asset {
    /// The unique ticker of the asset
    pub name: String,
    /// Contract address of the asset, if it has one
    pub contract_address: Option<String>,
}

/// A quantity of an asset. A negative quantity is an outflow.
#[derive(Clone, Debug, PartialEq, Eq)]
pub struct Amount {
    pub amount: Decimal,
    pub asset: Asset,
}

/// A place where assets are traded or bridged, e.g. an exchange.
#[derive(Clone, Debug, PartialEq, Eq)]
pub struct Application(pub String);

/// A fee, in its own asset and as a fiat-equivalent value.
#[derive(Clone, Debug, PartialEq, Eq)]
pub struct Comission {
    pub amount: Amount,
    pub usd_amount: Decimal,
}

/// One asset exchanged for another.
#[derive(Clone, Debug, PartialEq, Eq)]
pub struct Trade {
    /// The application that made the trade
    pub application: Application,
    /// The unique id of the transaction
    pub tx_id: String,
    /// The asset given up; none for a free acquisition
    pub source: Option<Amount>,
    /// The asset received
    pub destination: Amount,
    /// The comission paid for the trade
    pub comission: Option<Comission>,
    /// The value of the whole trade in fiat, comission included
    pub usd_amount: Decimal,
    /// When the trade took place
    pub timestamp: Timestamp,
}

/// An asset given to an account for free.
#[derive(Clone, Debug, PartialEq, Eq)]
pub struct Airdrop {
    pub tx_id: String,
    pub amount: Amount,
    /// The value of the whole airdrop in fiat
    pub usd_amount: Decimal,
    pub timestamp: Timestamp,
    /// The reason for the airdrop
    pub note: String,
}

/// An asset moved from one network or store to another.
#[derive(Clone, Debug, PartialEq, Eq)]
pub struct Bridge {
    pub application: Application,
    pub tx_id: String,
    pub source: ValueStore,
    pub destination: ValueStore,
    pub amount: Amount,
    pub comission: Amount,
    pub timestamp: Timestamp,
}

#[derive(Clone, Debug, PartialEq, Eq)]
pub enum Transaction {
    Trade(Trade),
    Airdrop(Airdrop),
    Bridge(Bridge),
}

impl Transaction {
    pub open spec fn spec_timestamp(self) -> Timestamp {
        match self {
            Transaction::Trade(t) => t.timestamp,
            Transaction::Airdrop(a) => a.timestamp,
            Transaction::Bridge(b) => b.timestamp,
        }
    }

    /// When the transaction took place.
    pub fn timestamp(&self) -> (r: Timestamp)
        ensures
            r == self.spec_timestamp(),
    {
        match self {
            Transaction::Trade(t) => t.timestamp,
            Transaction::Airdrop(a) => a.timestamp,
            Transaction::Bridge(b) => b.timestamp,
        }
    }
}

/// Why a stored exchange record could not be turned into a transaction.
#[derive(Clone, Debug, PartialEq, Eq)]
pub enum NormalizeError {
    /// A trading symbol without the expected quote suffix
    UnsupportedSymbol(String),
    /// A record kind that the mapping does not cover
    UnimplementedTransactionType(String),
    /// A paired trade leg valued in another currency than the reference fiat
    UnimplementedCurrency(String),
    /// A quantity that is not a decimal numeral in range; holds the record id
    InvalidAmount(String),
    /// A time that is not a representable instant; holds the record id
    InvalidTimestamp(String),
    /// A trade leg arriving while a leg of the same direction still waits
    /// for its counterpart; holds the record id
    OverlappingTradeLegs(String),
}

/// A ticker with no contract address.
pub fn asset_named(name: String) -> (r: Asset)
    ensures
        r.name == name,
        r.contract_address is None,
{
    Asset { name, contract_address: None }
}

} // verus!
