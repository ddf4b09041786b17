use vstd::prelude::*;

verus! {

/// A reference to one output of an earlier transaction.
#[derive(Clone, Copy, Debug, PartialEq, Eq)]
pub struct Outpoint {
    /// Transaction id in its on-wire byte order.
    pub txid: [u8; 32],
    /// Position of the output in that transaction.
    pub vout: u32,
}

/// One input of a transaction.
#[derive(Clone, Debug)]
pub struct TxInput {
    pub prev_out: Outpoint,
    pub script_sig: Vec<u8>,
    pub witness: Vec<Vec<u8>>,
}

/// One output of a transaction.
#[derive(Clone, Debug)]
pub struct TxOutput {
    pub script_pubkey: Vec<u8>,
}

/// A transaction as the scanner sees it.
#[derive(Clone, Debug)]
pub struct Transaction {
    pub inputs: Vec<TxInput>,
    pub outputs: Vec<TxOutput>,
    pub is_coinbase: bool,
}

impl TxInput {
    /// The witness stack as a sequence of byte sequences.
    pub open spec fn witness_view(self) -> Seq<Seq<u8>> {
        self.witness@.map_values(|w: Vec<u8>| w@)
    }
}

} // verus!
