use crate::crypto::{key_multiset, mul_tweak, point_sum, pubkey_valid, sha256, sha256_of, sum_keys, tweak_mul};
use crate::outpoint::{outpoint_bytes, serialize_outpoint};
use crate::types::Outpoint;
use vstd::multiset::Multiset;
use vstd::prelude::*;

verus! {

/// Why a transaction's recovered keys could not be turned into a tweak.
#[derive(Debug, Clone, Copy, PartialEq, Eq, Structural)]
pub enum AggregateError {
    /// The input hash, read as a scalar, is zero or not below the group order.
    TweakOutOfRange,
}

/// The domain tag of the input hash, `BIP0352/Inputs` in ASCII.
pub open spec fn inputs_tag() -> Seq<u8> {
    seq![0x42u8, 0x49, 0x50, 0x30, 0x33, 0x35, 0x32, 0x2f, 0x49, 0x6e, 0x70, 0x75, 0x74, 0x73]
}

/// SHA-256 of `msg` prefixed twice with the SHA-256 of the domain tag.
pub open spec fn tagged_hash(msg: Seq<u8>) -> Seq<u8> {
    let t = sha256_of(inputs_tag());
    sha256_of(t + t + msg)
}

/// The hash that binds a transaction's tweak to its smallest outpoint and
/// to the sum `a` of its recovered keys.
pub open spec fn input_hash(o: Outpoint, a: Seq<u8>) -> Seq<u8> {
    tagged_hash(outpoint_bytes(o) + a)
}

/// The tweak of a transaction whose smallest outpoint is `o` and whose
/// recovered keys are `keys`: none without keys or when they sum to the
/// point at infinity, otherwise the sum multiplied by the input hash.
pub open spec fn aggregate_spec(o: Outpoint, keys: Multiset<Seq<u8>>) -> Result<
    Option<Seq<u8>>,
    AggregateError,
> {
    if keys.len() == 0 {
        Ok(None)
    } else {
        match point_sum(keys) {
            None => Ok(None),
            Some(a) => match tweak_mul(a, input_hash(o, a)) {
                None => Err(AggregateError::TweakOutOfRange),
                Some(t) => Ok(Some(t)),
            },
        }
    }
}

/// The domain tag as bytes.
fn inputs_tag_bytes() -> (r: Vec<u8>)
    ensures
        r@ == inputs_tag(),
{
    let r: Vec<u8> = vec![0x42u8, 0x49, 0x50, 0x30, 0x33, 0x35, 0x32, 0x2f, 0x49, 0x6e, 0x70, 0x75, 0x74, 0x73];
    assert(r@ =~= inputs_tag());
    r
}

/// `a` followed by `b`.
fn concat(a: &Vec<u8>, b: &Vec<u8>) -> (r: Vec<u8>)
    ensures
        r@ == a@ + b@,
{
    let mut r = a.clone();
    let mut i: usize = 0;
    while i < b.len()
        invariant
            i <= b@.len(),
            r@ == a@ + b@.subrange(0, i as int),
        decreases b.len() - i,
    {
        r.push(b[i]);
        proof {
            assert(a@ + b@.subrange(0, i + 1) =~= (a@ + b@.subrange(0, i as int)).push(b@[i as int]));
        }
        i = i + 1;
    }
    assert(b@.subrange(0, b@.len() as int) =~= b@);
    r
}

/// The input hash of smallest outpoint `o` and key sum `a`.
pub fn compute_input_hash(o: &Outpoint, a: &Vec<u8>) -> (r: Vec<u8>)
    ensures
        r@ == input_hash(*o, a@),
        r@.len() == 32,
{
    let t = sha256(inputs_tag_bytes().as_slice());
    let prefix = concat(&t, &t);
    let msg = concat(&serialize_outpoint(o), a);
    let full = concat(&prefix, &msg);
    proof {
        assert(prefix@ + msg@ =~= t@ + t@ + (outpoint_bytes(*o) + a@));
    }
    sha256(full.as_slice())
}

/// Combines the recovered keys of a transaction with its smallest outpoint
/// `o` into the transaction's tweak.
pub fn aggregate(o: &Outpoint, keys: &Vec<Vec<u8>>) -> (r: Result<Option<Vec<u8>>, AggregateError>)
    requires
        forall|i: int| 0 <= i < keys@.len() ==> pubkey_valid(#[trigger] keys@[i]@),
    ensures
        match r {
            Ok(Some(t)) => aggregate_spec(*o, key_multiset(keys@))
                == Ok::<Option<Seq<u8>>, AggregateError>(Some(t@)) && t@.len() == 33,
            Ok(None) => aggregate_spec(*o, key_multiset(keys@))
                == Ok::<Option<Seq<u8>>, AggregateError>(None),
            Err(e) => aggregate_spec(*o, key_multiset(keys@)) == Err::<Option<Seq<u8>>, AggregateError>(e),
        },
{
    proof {
        broadcast use vstd::seq_lib::group_to_multiset_ensures;
        assert(key_multiset(keys@).len() == keys@.len());
    }
    if keys.len() == 0 {
        return Ok(None);
    }
    match sum_keys(keys) {
        None => Ok(None),
        Some(a) => {
            let h = compute_input_hash(o, &a);
            match mul_tweak(a.as_slice(), h.as_slice()) {
                None => Err(AggregateError::TweakOutOfRange),
                Some(t) => Ok(Some(t)),
            }
        },
    }
}

/// A transaction without recovered keys has no tweak.
pub proof fn lemma_no_keys_no_tweak(o: Outpoint)
    ensures
        aggregate_spec(o, Multiset::empty()) == Ok::<Option<Seq<u8>>, AggregateError>(None),
{
}

/// The tweak does not depend on the order of the recovered keys: two lists
/// that hold the same keys, each as often, give the same result.
pub proof fn lemma_aggregate_order_free(o: Outpoint, a: Seq<Seq<u8>>, b: Seq<Seq<u8>>)
    requires
        a.to_multiset() == b.to_multiset(),
    ensures
        aggregate_spec(o, a.to_multiset()) == aggregate_spec(o, b.to_multiset()),
{
}

/// Aggregating `[k1, k2]` and `[k2, k1]` gives the same result.
pub proof fn lemma_aggregate_swap(o: Outpoint, k1: Seq<u8>, k2: Seq<u8>)
    ensures
        aggregate_spec(o, seq![k1, k2].to_multiset()) == aggregate_spec(o, seq![k2, k1].to_multiset()),
{
    broadcast use vstd::seq_lib::group_to_multiset_ensures;
    assert(seq![k1, k2] == seq![k1].push(k2));
    assert(seq![k2, k1] == seq![k2].push(k1));
    assert(seq![k1] == Seq::<Seq<u8>>::empty().push(k1));
    assert(seq![k2] == Seq::<Seq<u8>>::empty().push(k2));
    assert(Seq::<Seq<u8>>::empty().to_multiset() =~= Multiset::empty());
    assert(seq![k1, k2].to_multiset() =~= seq![k2, k1].to_multiset());
}

} // verus!
