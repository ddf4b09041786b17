use crate::aggregate::{aggregate, aggregate_spec};
use crate::classify::{classify, classify_spec, is_compressed_key};
use crate::outpoint::{smallest_of, smallest_outpoint, spent_outpoints};
use crate::script::{is_keypath, is_keypath_spec};
use crate::types::{Transaction, TxInput};
use vstd::prelude::*;

verus! {

/// A failure that stops the scan of a block.
#[derive(Debug, Clone, Copy, PartialEq, Eq, Structural)]
pub enum ScanError {
    /// The output that an input spends could not be looked up.
    PrevoutNotFound { tx_index: usize, input_index: usize },
    /// An input spends a key-path output whose key is not a curve point.
    InvalidKeypathKey { tx_index: usize, input_index: usize },
    /// The transaction has no inputs, or its least outpoint is spent twice.
    DegenerateOutpoints { tx_index: usize },
    /// The input hash of the transaction is not a usable scalar.
    TweakOutOfRange { tx_index: usize },
}

/// The transaction is not a coinbase and pays to at least one key-path output.
pub open spec fn needs_scan_spec(tx: Transaction) -> bool {
    !tx.is_coinbase && exists|j: int|
        0 <= j < tx.outputs@.len() && is_keypath_spec(#[trigger] tx.outputs@[j].script_pubkey@)
}

/// What was found for input `j`: the output scripts of the transaction it
/// spends from, or `None` when the lookup failed.
pub open spec fn lookup_at(lk: Seq<Option<Vec<Vec<u8>>>>, j: int) -> Option<Vec<Vec<u8>>> {
    if 0 <= j < lk.len() {
        lk[j]
    } else {
        None
    }
}

/// The locking script at position `vout` of the looked-up outputs.
pub open spec fn prev_script_spec(found: Option<Vec<Vec<u8>>>, vout: u32) -> Option<Seq<u8>> {
    match found {
        None => None,
        Some(outs) => if vout < outs@.len() {
            Some(outs@[vout as int]@)
        } else {
            None
        },
    }
}

/// The keys recovered from the first `n` inputs of transaction `tx_index`,
/// or the first failure among them.
pub open spec fn keys_upto(
    tx: Transaction,
    lk: Seq<Option<Vec<Vec<u8>>>>,
    tx_index: int,
    n: int,
) -> Result<Seq<Seq<u8>>, ScanError>
    decreases n,
{
    if n <= 0 {
        Ok(Seq::empty())
    } else {
        match keys_upto(tx, lk, tx_index, n - 1) {
            Err(e) => Err(e),
            Ok(ks) => {
                let inp = tx.inputs@[n - 1];
                match prev_script_spec(lookup_at(lk, n - 1), inp.prev_out.vout) {
                    None => Err(
                        ScanError::PrevoutNotFound {
                            tx_index: tx_index as usize,
                            input_index: (n - 1) as usize,
                        },
                    ),
                    Some(spk) => match classify_spec(inp.script_sig@, inp.witness_view(), spk) {
                        Err(_) => Err(
                            ScanError::InvalidKeypathKey {
                                tx_index: tx_index as usize,
                                input_index: (n - 1) as usize,
                            },
                        ),
                        Ok(None) => Ok(ks),
                        Ok(Some(k)) => Ok(ks.push(k)),
                    },
                }
            },
        }
    }
}

/// The tweak of transaction `tx_index`, given what was found for its inputs.
pub open spec fn tx_tweak_spec(tx: Transaction, lk: Seq<Option<Vec<Vec<u8>>>>, tx_index: int) -> Result<
    Option<Seq<u8>>,
    ScanError,
> {
    if !needs_scan_spec(tx) {
        Ok(None)
    } else {
        match keys_upto(tx, lk, tx_index, tx.inputs@.len() as int) {
            Err(e) => Err(e),
            Ok(ks) => match smallest_of(spent_outpoints(tx.inputs@)) {
                None => Err(ScanError::DegenerateOutpoints { tx_index: tx_index as usize }),
                Some(o) => match aggregate_spec(o, ks.to_multiset()) {
                    Err(_) => Err(ScanError::TweakOutOfRange { tx_index: tx_index as usize }),
                    Ok(r) => Ok(r),
                },
            },
        }
    }
}

/// What was found for the inputs of transaction `i`.
pub open spec fn tx_lookups(lks: Seq<Vec<Option<Vec<Vec<u8>>>>>, i: int) -> Seq<Option<Vec<Vec<u8>>>> {
    if 0 <= i < lks.len() {
        lks[i]@
    } else {
        Seq::empty()
    }
}

/// The tweaks of the first `n` transactions, in block order, or the first failure.
pub open spec fn scan_upto(txs: Seq<Transaction>, lks: Seq<Vec<Option<Vec<Vec<u8>>>>>, n: int) -> Result<
    Seq<Seq<u8>>,
    ScanError,
>
    decreases n,
{
    if n <= 0 {
        Ok(Seq::empty())
    } else {
        match scan_upto(txs, lks, n - 1) {
            Err(e) => Err(e),
            Ok(acc) => match tx_tweak_spec(txs[n - 1], tx_lookups(lks, n - 1), n - 1) {
                Err(e) => Err(e),
                Ok(None) => Ok(acc),
                Ok(Some(t)) => Ok(acc.push(t)),
            },
        }
    }
}

/// The tweaks of a block, in transaction order, or the first failure.
pub open spec fn scan_spec(txs: Seq<Transaction>, lks: Seq<Vec<Option<Vec<Vec<u8>>>>>) -> Result<
    Seq<Seq<u8>>,
    ScanError,
> {
    scan_upto(txs, lks, txs.len() as int)
}

/// A failure among the first `n` inputs is the failure of every longer prefix.
pub proof fn lemma_keys_error_persists(
    tx: Transaction,
    lk: Seq<Option<Vec<Vec<u8>>>>,
    tx_index: int,
    n: int,
    m: int,
)
    requires
        0 <= n <= m,
        keys_upto(tx, lk, tx_index, n) is Err,
    ensures
        keys_upto(tx, lk, tx_index, m) == keys_upto(tx, lk, tx_index, n),
    decreases m - n,
{
    if n < m {
        lemma_keys_error_persists(tx, lk, tx_index, n, m - 1);
    }
}

/// A failure in the first `n` transactions is the failure of every longer prefix.
pub proof fn lemma_scan_error_persists(
    txs: Seq<Transaction>,
    lks: Seq<Vec<Option<Vec<Vec<u8>>>>>,
    n: int,
    m: int,
)
    requires
        0 <= n <= m,
        scan_upto(txs, lks, n) is Err,
    ensures
        scan_upto(txs, lks, m) == scan_upto(txs, lks, n),
    decreases m - n,
{
    if n < m {
        lemma_scan_error_persists(txs, lks, n, m - 1);
    }
}

/// Whether the inputs of `tx` have to be looked up and classified at all.
pub fn needs_scan(tx: &Transaction) -> (r: bool)
    ensures
        r == needs_scan_spec(*tx),
{
    if tx.is_coinbase {
        return false;
    }
    let mut j: usize = 0;
    while j < tx.outputs.len()
        invariant
            !tx.is_coinbase,
            j <= tx.outputs@.len(),
            forall|k: int| 0 <= k < j ==> !is_keypath_spec(#[trigger] tx.outputs@[k].script_pubkey@),
        decreases tx.outputs.len() - j,
    {
        if is_keypath(tx.outputs[j].script_pubkey.as_slice()) {
            assert(is_keypath_spec(tx.outputs@[j as int].script_pubkey@));
            return true;
        }
        j = j + 1;
    }
    false
}

/// The locking script spent by input `j`, from what was found for it.
fn prev_script(lookups: &Vec<Option<Vec<Vec<u8>>>>, j: usize, vout: u32) -> (r: Option<Vec<u8>>)
    ensures
        r matches Some(s) ==> prev_script_spec(lookup_at(lookups@, j as int), vout) == Some(s@),
        r is None ==> prev_script_spec(lookup_at(lookups@, j as int), vout) is None,
{
    if j >= lookups.len() {
        return None;
    }
    match &lookups[j] {
        None => None,
        Some(outs) => {
            if (vout as usize) < outs.len() {
                Some(outs[vout as usize].clone())
            } else {
                None
            }
        },
    }
}

/// The tweak of one transaction, given the output scripts of the
/// transactions that its inputs spend from (`None` where a lookup failed).
pub fn tx_tweak(tx: &Transaction, lookups: &Vec<Option<Vec<Vec<u8>>>>, tx_index: usize) -> (r: Result<
    Option<Vec<u8>>,
    ScanError,
>)
    ensures
        match r {
            Ok(Some(t)) => tx_tweak_spec(*tx, lookups@, tx_index as int)
                == Ok::<Option<Seq<u8>>, ScanError>(Some(t@)),
            Ok(None) => tx_tweak_spec(*tx, lookups@, tx_index as int)
                == Ok::<Option<Seq<u8>>, ScanError>(None),
            Err(e) => tx_tweak_spec(*tx, lookups@, tx_index as int) == Err::<Option<Seq<u8>>, ScanError>(e),
        },
{
    if !needs_scan(tx) {
        return Ok(None);
    }
    let mut keys: Vec<Vec<u8>> = Vec::new();
    let mut i: usize = 0;
    assert(keys@.map_values(|k: Vec<u8>| k@) =~= Seq::<Seq<u8>>::empty());
    while i < tx.inputs.len()
        invariant
            needs_scan_spec(*tx),
            i <= tx.inputs@.len(),
            keys_upto(*tx, lookups@, tx_index as int, i as int) == Ok::<Seq<Seq<u8>>, ScanError>(
                keys@.map_values(|k: Vec<u8>| k@),
            ),
            forall|m: int| 0 <= m < keys@.len() ==> is_compressed_key(#[trigger] keys@[m]@),
        decreases tx.inputs.len() - i,
    {
        let inp: &TxInput = &tx.inputs[i];
        let spk = prev_script(lookups, i, inp.prev_out.vout);
        if spk.is_none() {
            proof {
                lemma_keys_error_persists(*tx, lookups@, tx_index as int, i + 1, tx.inputs@.len() as int);
            }
            return Err(ScanError::PrevoutNotFound { tx_index, input_index: i });
        }
        let spk = spk.unwrap();
        match classify(inp.script_sig.as_slice(), &inp.witness, spk.as_slice()) {
            Err(_) => {
                proof {
                    lemma_keys_error_persists(*tx, lookups@, tx_index as int, i + 1, tx.inputs@.len() as int);
                }
                return Err(ScanError::InvalidKeypathKey { tx_index, input_index: i });
            },
            Ok(None) => {},
            Ok(Some(k)) => {
                let ghost old_keys = keys@.map_values(|k: Vec<u8>| k@);
                keys.push(k);
                proof {
                    assert(keys@.map_values(|k: Vec<u8>| k@) =~= old_keys.push(k@));
                }
            },
        }
        i = i + 1;
    }
    let o = smallest_outpoint(&tx.inputs);
    if o.is_none() {
        return Err(ScanError::DegenerateOutpoints { tx_index });
    }
    let o = o.unwrap();
    match aggregate(&o, &keys) {
        Err(_) => Err(ScanError::TweakOutOfRange { tx_index }),
        Ok(r) => Ok(r),
    }
}

/// The tweaks of a block's transactions, in block order. `lookups[i][j]`
/// holds the output scripts of the transaction that input `j` of
/// transaction `i` spends from, or `None` where that lookup failed; it is
/// read only for transactions that need scanning.
pub fn scan_block(txs: &Vec<Transaction>, lookups: &Vec<Vec<Option<Vec<Vec<u8>>>>>) -> (r: Result<
    Vec<Vec<u8>>,
    ScanError,
>)
    ensures
        match r {
            Ok(v) => scan_spec(txs@, lookups@) == Ok::<Seq<Seq<u8>>, ScanError>(
                v@.map_values(|t: Vec<u8>| t@),
            ),
            Err(e) => scan_spec(txs@, lookups@) == Err::<Seq<Seq<u8>>, ScanError>(e),
        },
{
    let mut out: Vec<Vec<u8>> = Vec::new();
    let mut i: usize = 0;
    let empty: Vec<Option<Vec<Vec<u8>>>> = Vec::new();
    assert(out@.map_values(|t: Vec<u8>| t@) =~= Seq::<Seq<u8>>::empty());
    while i < txs.len()
        invariant
            i <= txs@.len(),
            empty@.len() == 0,
            scan_upto(txs@, lookups@, i as int) == Ok::<Seq<Seq<u8>>, ScanError>(
                out@.map_values(|t: Vec<u8>| t@),
            ),
        decreases txs.len() - i,
    {
        let lk: &Vec<Option<Vec<Vec<u8>>>> = if i < lookups.len() {
            &lookups[i]
        } else {
            &empty
        };
        assert(lk@ == tx_lookups(lookups@, i as int)) by {
            assert(empty@ =~= Seq::<Option<Vec<Vec<u8>>>>::empty());
        };
        match tx_tweak(&txs[i], lk, i) {
            Err(e) => {
                proof {
                    lemma_scan_error_persists(txs@, lookups@, i + 1, txs@.len() as int);
                }
                return Err(e);
            },
            Ok(None) => {},
            Ok(Some(t)) => {
                let ghost old_out = out@.map_values(|t: Vec<u8>| t@);
                out.push(t);
                proof {
                    assert(out@.map_values(|t: Vec<u8>| t@) =~= old_out.push(t@));
                }
            },
        }
        i = i + 1;
    }
    Ok(out)
}

} // verus!

verus! {

/// A transaction that pays to no key-path output is left out before any of
/// its inputs is looked up or classified: it yields no tweak and no failure,
/// whatever was found for its inputs.
pub proof fn lemma_no_keypath_output_skipped(tx: Transaction, lk: Seq<Option<Vec<Vec<u8>>>>, tx_index: int)
    requires
        forall|j: int| 0 <= j < tx.outputs@.len() ==> !is_keypath_spec(#[trigger] tx.outputs@[j].script_pubkey@),
    ensures
        tx_tweak_spec(tx, lk, tx_index) == Ok::<Option<Seq<u8>>, ScanError>(None),
{
}

/// A transaction from which no key is recovered yields no tweak, and the
/// scan adds nothing for it.
pub proof fn lemma_no_keys_no_record(txs: Seq<Transaction>, lks: Seq<Vec<Option<Vec<Vec<u8>>>>>, i: int)
    requires
        0 <= i < txs.len(),
        keys_upto(txs[i], tx_lookups(lks, i), i, txs[i].inputs@.len() as int) == Ok::<
            Seq<Seq<u8>>,
            ScanError,
        >(Seq::empty()),
        scan_upto(txs, lks, i) is Ok,
        tx_tweak_spec(txs[i], tx_lookups(lks, i), i) is Ok,
    ensures
        tx_tweak_spec(txs[i], tx_lookups(lks, i), i) == Ok::<Option<Seq<u8>>, ScanError>(None),
        scan_upto(txs, lks, i + 1) == scan_upto(txs, lks, i),
{
    broadcast use vstd::seq_lib::group_to_multiset_ensures;
    assert(Seq::<Seq<u8>>::empty().to_multiset().len() == 0);
}

/// A block whose transactions are all coinbase transactions has no tweaks.
pub proof fn lemma_coinbase_only_block(txs: Seq<Transaction>, lks: Seq<Vec<Option<Vec<Vec<u8>>>>>)
    requires
        forall|i: int| 0 <= i < txs.len() ==> (#[trigger] txs[i]).is_coinbase,
    ensures
        scan_spec(txs, lks) == Ok::<Seq<Seq<u8>>, ScanError>(Seq::empty()),
{
    lemma_coinbase_prefix(txs, lks, txs.len() as int);
}

proof fn lemma_coinbase_prefix(txs: Seq<Transaction>, lks: Seq<Vec<Option<Vec<Vec<u8>>>>>, n: int)
    requires
        n <= txs.len(),
        forall|i: int| 0 <= i < txs.len() ==> (#[trigger] txs[i]).is_coinbase,
    ensures
        scan_upto(txs, lks, n) == Ok::<Seq<Seq<u8>>, ScanError>(Seq::empty()),
    decreases n,
{
    if n > 0 {
        lemma_coinbase_prefix(txs, lks, n - 1);
        assert(txs[n - 1].is_coinbase);
    }
}

/// When the output spent by input `j` cannot be found, the first `m > j`
/// inputs end in a failure.
proof fn lemma_missing_prevout_fails_keys(
    tx: Transaction,
    lk: Seq<Option<Vec<Vec<u8>>>>,
    tx_index: int,
    j: int,
    m: int,
)
    requires
        0 <= j < m,
        prev_script_spec(lookup_at(lk, j), tx.inputs@[j].prev_out.vout) is None,
    ensures
        keys_upto(tx, lk, tx_index, m) is Err,
    decreases m,
{
    if m - 1 > j {
        lemma_missing_prevout_fails_keys(tx, lk, tx_index, j, m - 1);
    }
}

/// A scanned transaction with an input whose spent output cannot be found
/// makes the whole scan fail: no partial list of tweaks is returned.
pub proof fn lemma_missing_prevout_fails_scan(
    txs: Seq<Transaction>,
    lks: Seq<Vec<Option<Vec<Vec<u8>>>>>,
    i: int,
    j: int,
)
    requires
        0 <= i < txs.len(),
        needs_scan_spec(txs[i]),
        0 <= j < txs[i].inputs@.len(),
        prev_script_spec(lookup_at(tx_lookups(lks, i), j), txs[i].inputs@[j].prev_out.vout) is None,
    ensures
        scan_spec(txs, lks) is Err,
{
    lemma_missing_prevout_fails_keys(txs[i], tx_lookups(lks, i), i, j, txs[i].inputs@.len() as int);
    assert(tx_tweak_spec(txs[i], tx_lookups(lks, i), i) is Err);
    assert(scan_upto(txs, lks, i + 1) is Err);
    lemma_scan_error_persists(txs, lks, i + 1, txs.len() as int);
}

} // verus!
