use vstd::prelude::*;

verus! {

/// What the relay reads of a decoded transaction.
#[derive(Clone, Copy, Debug, PartialEq, Eq, Structural)]
pub struct Transaction {
    /// Input record balances minus output record balances, in base units.
    /// Only a transaction that mints (a coinbase transaction) has it below
    /// zero.
    pub value_balance: i64,
}

/// A pending transaction as the memory pool stores it: the decoded
/// transaction and the length of the raw bytes it was decoded from.
#[derive(Clone, Copy, Debug, PartialEq, Eq, Structural)]
pub struct Entry {
    pub size_in_bytes: usize,
    pub transaction: Transaction,
}

/// Asks `snarkvm_dpc::AleoAmount::is_negative` whether an amount of the
/// given number of base units is below zero. Believed without proof: the
/// answer is `true` exactly for a negative number of units.
#[verifier::external_body]
fn amount_is_negative(units: i64) -> (negative: bool)
    ensures
        negative == (units < 0),
{
    snarkvm_dpc::AleoAmount(units).is_negative()
}

impl Transaction {
    /// Whether this transaction has the shape of a coinbase transaction.
    pub open spec fn is_coinbase_shaped(&self) -> bool {
        self.value_balance < 0
    }

    /// Tells whether this transaction mints value, which only a coinbase
    /// transaction may do.
    pub fn mints(&self) -> (minting: bool)
        ensures
            minting == self.is_coinbase_shaped(),
    {
        amount_is_negative(self.value_balance)
    }
}

} // verus!
