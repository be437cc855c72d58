//! What the command line asks for, and which exchanges a fetch covers.

use vstd::prelude::*;

verus! {

#[derive(Clone, Copy, Debug, PartialEq, Eq, Structural)]
pub enum Exchange {
    Coinbase,
    MEXC,
}

#[derive(Clone, Copy, Debug, PartialEq, Eq, Structural)]
pub enum Command {
    /// Fetch data from the exchanges, all of them unless one is named
    Fetch { exchange: Option<Exchange> },
    /// Display the normalized transactions
    Display,
    /// Export the ledger lines
    Export,
}

#[derive(Clone, Copy, Debug, PartialEq, Eq, Structural)]
pub enum FetchOptions {
    All,
    Exchange { exchange: Exchange },
}

#[derive(Clone, Copy, Debug, PartialEq, Eq, Structural)]
pub struct Cli {
    pub command: Command,
}

/// The exchanges that a fetch covers: the one named, or all of them.
pub fn exchanges_to_fetch(choice: Option<Exchange>) -> (r: Vec<Exchange>)
    ensures
        choice matches Some(e) ==> r@ == seq![e],
        choice is None ==> r@ == seq![Exchange::MEXC, Exchange::Coinbase],
{
    match choice {
        Some(e) => vec![e],
        None => vec![Exchange::MEXC, Exchange::Coinbase],
    }
}

impl FetchOptions {
    /// The exchanges that these options cover.
    pub fn exchanges(&self) -> (r: Vec<Exchange>)
        ensures
            *self matches FetchOptions::Exchange { exchange } ==> r@ == seq![exchange],
            *self is All ==> r@ == seq![Exchange::MEXC, Exchange::Coinbase],
    {
        match self {
            FetchOptions::All => exchanges_to_fetch(None),
            FetchOptions::Exchange { exchange } => exchanges_to_fetch(Some(*exchange)),
        }
    }
}

/// The outcome of fetches that all ran to the end: success when each
/// succeeded, else the first failure in the order given.
pub fn first_failure<E>(outcomes: Vec<Result<(), E>>) -> (r: Result<(), E>)
    ensures
        r is Ok <==> forall|i: int| 0 <= i < outcomes@.len() ==> #[trigger] outcomes@[i] is Ok,
        r is Err ==> exists|i: int|
            0 <= i < outcomes@.len() && #[trigger] outcomes@[i] == r && forall|j: int|
                0 <= j < i ==> #[trigger] outcomes@[j] is Ok,
{
    let ghost all = outcomes@;
    let n = outcomes.len();
    let mut rest = outcomes;
    let mut i: usize = 0;
    while rest.len() > 0
        invariant
            all == outcomes@,
            all.len() == n,
            i + rest@.len() == all.len(),
            rest@ == all.skip(i as int),
            forall|j: int| 0 <= j < i ==> #[trigger] all[j] is Ok,
        decreases rest@.len(),
    {
        let o = rest.remove(0);
        assert(o == all[i as int]);
        match o {
            Ok(()) => {},
            Err(e) => {
                assert(all[i as int] is Err);
                return Err(e);
            },
        }
        assert(rest@ =~= all.skip(i + 1));
        i = i + 1;
    }
    Ok(())
}

} // verus!
