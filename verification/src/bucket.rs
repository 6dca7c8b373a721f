//! Quantities of a token handed over in a transaction.

use vstd::prelude::*;

verus! {

/// An amount (in attos) of one token, as handed over in a transaction.
/// A bucket never holds a negative amount.
#[derive(Debug, Clone, Copy, PartialEq, Eq, Structural)]
pub struct Bucket {
    pub resource: u64,
    pub amount: i128,
}

impl Bucket {
    /// A bucket of `amount` of `resource`.
    pub fn new(resource: u64, amount: i128) -> (b: Bucket)
        requires
            amount >= 0,
        ensures
            b.resource == resource,
            b.amount == amount,
    {
        Bucket { resource, amount }
    }

    /// Whether the bucket holds nothing.
    pub fn is_empty(&self) -> (r: bool)
        ensures r == (self.amount == 0),
    {
        self.amount == 0
    }
}

} // verus!
