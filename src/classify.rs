use crate::crypto::{is_valid_pubkey, lift_xonly_even, pubkey_valid, xonly_valid};
use crate::script::{
    is_keypath, is_keypath_spec, is_legacy_keyhash, is_legacy_keyhash_spec, is_script_hash,
    is_script_hash_spec, is_v0_keyhash, is_v0_keyhash_spec, parse_pushes, pushes,
};
use vstd::prelude::*;

verus! {

/// First byte of a taproot annex.
pub const ANNEX_TAG: u8 = 0x50;

/// Why an input could not be classified although its previous output is of
/// a recognised kind.
#[derive(Debug, Clone, Copy, PartialEq, Eq, Structural)]
pub enum ClassifyError {
    /// The 32-byte key of a key-path output is not the x coordinate of a curve point.
    InvalidKeypathKey,
}

/// A witness whose last element, of at least two, starts with the annex tag.
pub open spec fn has_annex(w: Seq<Seq<u8>>) -> bool {
    w.len() >= 2 && w.last().len() > 0 && w.last()[0] == ANNEX_TAG
}

/// The witness without its annex, if it has one.
pub open spec fn strip_annex(w: Seq<Seq<u8>>) -> Seq<Seq<u8>> {
    if has_annex(w) {
        w.drop_last()
    } else {
        w
    }
}

/// A 33-byte compressed encoding of a curve point.
pub open spec fn is_compressed_key(k: Seq<u8>) -> bool {
    k.len() == 33 && pubkey_valid(k)
}

/// The key of a `{signature, public key}` witness.
pub open spec fn witness_key(w: Seq<Seq<u8>>) -> Option<Seq<u8>> {
    if w.len() == 2 && is_compressed_key(w[1]) {
        Some(w[1])
    } else {
        None
    }
}

/// The even-Y point with x coordinate `x`, compressed.
pub open spec fn lift_even(x: Seq<u8>) -> Seq<u8> {
    seq![0x02u8] + x
}

/// The key that the spend of an output locked by `spk` reveals, given the
/// input's unlocking script `sig` and witness stack `wit`.
pub open spec fn classify_spec(sig: Seq<u8>, wit: Seq<Seq<u8>>, spk: Seq<u8>) -> Result<
    Option<Seq<u8>>,
    ClassifyError,
> {
    if is_keypath_spec(spk) {
        if strip_annex(wit).len() == 1 {
            let x = spk.subrange(2, 34);
            if xonly_valid(x) {
                Ok(Some(lift_even(x)))
            } else {
                Err(ClassifyError::InvalidKeypathKey)
            }
        } else {
            Ok(None)
        }
    } else if is_v0_keyhash_spec(spk) {
        Ok(witness_key(wit))
    } else if is_legacy_keyhash_spec(spk) {
        Ok(
            match pushes(sig) {
                Some(p) => if p.len() == 2 && is_compressed_key(p[1]) {
                    Some(p[1])
                } else {
                    None
                },
                None => None,
            },
        )
    } else if is_script_hash_spec(spk) {
        Ok(
            match pushes(sig) {
                Some(p) => if p.len() > 0 && is_v0_keyhash_spec(p.last()) {
                    witness_key(wit)
                } else {
                    None
                },
                None => None,
            },
        )
    } else {
        Ok(None)
    }
}

/// Every key that classification recovers is a valid compressed point.
pub open spec fn recovered_ok(r: Result<Option<Seq<u8>>, ClassifyError>) -> bool {
    r matches Ok(Some(k)) ==> is_compressed_key(k)
}

fn compressed_key(k: &Vec<u8>) -> (r: bool)
    ensures
        r == is_compressed_key(k@),
{
    k.len() == 33 && is_valid_pubkey(k.as_slice())
}

fn witness_key_of(wit: &Vec<Vec<u8>>) -> (r: Option<Vec<u8>>)
    ensures
        r matches Some(k) ==> witness_key(wit@.map_values(|w: Vec<u8>| w@)) == Some(k@),
        r is None ==> witness_key(wit@.map_values(|w: Vec<u8>| w@)) is None,
{
    if wit.len() == 2 && compressed_key(&wit[1]) {
        Some(wit[1].clone())
    } else {
        None
    }
}

/// Recovers the public key revealed by one input, if its spend is of a kind
/// that reveals exactly one key.
pub fn classify(script_sig: &[u8], witness: &Vec<Vec<u8>>, prev_script: &[u8]) -> (r: Result<
    Option<Vec<u8>>,
    ClassifyError,
>)
    ensures
        match r {
            Ok(Some(k)) => classify_spec(script_sig@, witness@.map_values(|w: Vec<u8>| w@), prev_script@)
                == Ok::<Option<Seq<u8>>, ClassifyError>(Some(k@)),
            Ok(None) => classify_spec(script_sig@, witness@.map_values(|w: Vec<u8>| w@), prev_script@)
                == Ok::<Option<Seq<u8>>, ClassifyError>(None),
            Err(e) => classify_spec(script_sig@, witness@.map_values(|w: Vec<u8>| w@), prev_script@)
                == Err::<Option<Seq<u8>>, ClassifyError>(e),
        },
        recovered_ok(classify_spec(script_sig@, witness@.map_values(|w: Vec<u8>| w@), prev_script@)),
{
    let ghost wv = witness@.map_values(|w: Vec<u8>| w@);
    if is_keypath(prev_script) {
        let n = witness.len();
        let annex = n >= 2 && witness[n - 1].len() > 0 && witness[n - 1][0] == ANNEX_TAG;
        let effective = if annex { n - 1 } else { n };
        proof {
            assert(annex == has_annex(wv));
            assert(strip_annex(wv).len() == effective);
        }
        if effective == 1 {
            let x = crate::script::copy_range(prev_script, 2, 34);
            match lift_xonly_even(x.as_slice()) {
                Some(k) => Ok(Some(k)),
                None => Err(ClassifyError::InvalidKeypathKey),
            }
        } else {
            Ok(None)
        }
    } else if is_v0_keyhash(prev_script) {
        Ok(witness_key_of(witness))
    } else if is_legacy_keyhash(prev_script) {
        match parse_pushes(script_sig) {
            Some(p) => {
                if p.len() == 2 && compressed_key(&p[1]) {
                    Ok(Some(p[1].clone()))
                } else {
                    Ok(None)
                }
            },
            None => Ok(None),
        }
    } else if is_script_hash(prev_script) {
        match parse_pushes(script_sig) {
            Some(p) => {
                if p.len() > 0 && is_v0_keyhash(p[p.len() - 1].as_slice()) {
                    Ok(witness_key_of(witness))
                } else {
                    Ok(None)
                }
            },
            None => Ok(None),
        }
    } else {
        Ok(None)
    }
}

} // verus!

verus! {

/// A spend of a witness key-hash output whose witness is a signature and a
/// valid compressed key recovers exactly that key.
pub proof fn lemma_v0_keyhash_recovers_witness_key(
    sig: Seq<u8>,
    spk: Seq<u8>,
    signature: Seq<u8>,
    key: Seq<u8>,
)
    requires
        is_v0_keyhash_spec(spk),
        is_compressed_key(key),
    ensures
        classify_spec(sig, seq![signature, key], spk) == Ok::<Option<Seq<u8>>, ClassifyError>(Some(key)),
{
}

/// A key-path spend with a single witness element recovers the even-Y lift
/// of the output's x-only key, provided that key is a curve point.
pub proof fn lemma_keypath_single_element(sig: Seq<u8>, spk: Seq<u8>, element: Seq<u8>)
    requires
        is_keypath_spec(spk),
        xonly_valid(spk.subrange(2, 34)),
    ensures
        classify_spec(sig, seq![element], spk) == Ok::<Option<Seq<u8>>, ClassifyError>(
            Some(lift_even(spk.subrange(2, 34))),
        ),
{
}

/// A spend of a key-path output with two or more witness elements and no
/// annex is a script-path spend and recovers nothing.
pub proof fn lemma_keypath_script_path(sig: Seq<u8>, spk: Seq<u8>, wit: Seq<Seq<u8>>)
    requires
        is_keypath_spec(spk),
        wit.len() >= 2,
        !has_annex(wit),
    ensures
        classify_spec(sig, wit, spk) == Ok::<Option<Seq<u8>>, ClassifyError>(None),
{
}

/// An annex after a single witness element is stripped before judging: the
/// spend is still a key-path spend.
pub proof fn lemma_keypath_single_element_with_annex(
    sig: Seq<u8>,
    spk: Seq<u8>,
    element: Seq<u8>,
    annex: Seq<u8>,
)
    requires
        is_keypath_spec(spk),
        xonly_valid(spk.subrange(2, 34)),
        annex.len() > 0,
        annex[0] == ANNEX_TAG,
    ensures
        classify_spec(sig, seq![element, annex], spk) == Ok::<Option<Seq<u8>>, ClassifyError>(
            Some(lift_even(spk.subrange(2, 34))),
        ),
{
    assert(seq![element, annex].drop_last() =~= seq![element]);
}

} // verus!
