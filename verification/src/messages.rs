//! The parts of the P2P messages that the transaction-relay tracker reads.

use vstd::prelude::*;

verus! {

/// What an inventory entry refers to.
#[derive(Debug, Clone, PartialEq, Eq)]
pub enum InventoryItemKind {
    /// A transaction by its wtxid (MSG_WTX)
    Wtx(Vec<u8>),
    /// A transaction by its txid (MSG_TX)
    Transaction(Vec<u8>),
    /// A transaction by its wtxid (MSG_WITNESS_TX)
    WitnessTransaction(Vec<u8>),
    /// Anything that is not a transaction (blocks and the like)
    Other,
}

/// One entry of an INV or GETDATA message.
#[derive(Debug, Clone, PartialEq, Eq)]
pub struct InventoryItem {
    pub item: Option<InventoryItemKind>,
}

/// The identifiers of a transaction.
#[derive(Debug, Clone, PartialEq, Eq)]
pub struct Transaction {
    pub txid: Vec<u8>,
    pub wtxid: Vec<u8>,
}

/// A TX message.
#[derive(Debug, Clone, PartialEq, Eq)]
pub struct Tx {
    pub tx: Transaction,
}

/// A copy of a byte string.
pub fn clone_bytes(v: &Vec<u8>) -> (r: Vec<u8>)
    ensures
        r@ == v@,
{
    let r = v.clone();
    assert(r@ =~= v@);
    r
}

} // verus!
