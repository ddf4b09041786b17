use silentpayments::bitcoin_hashes::sha256;
use silentpayments::secp256k1::{Parity, PublicKey, Scalar, Secp256k1, XOnlyPublicKey};
use vstd::multiset::Multiset;
use vstd::prelude::*;

verus! {

/// Whether `secp256k1` accepts these bytes as an encoded curve point.
pub uninterp spec fn pubkey_valid(b: Seq<u8>) -> bool;

/// Whether `secp256k1` accepts these 32 bytes as the x coordinate of a curve point.
pub uninterp spec fn xonly_valid(x: Seq<u8>) -> bool;

/// The compressed encoding of the sum of the given points, or `None` when
/// the sum is the point at infinity (or there is nothing to add).
pub uninterp spec fn point_sum(keys: Multiset<Seq<u8>>) -> Option<Seq<u8>>;

/// SHA-256 of a byte string.
pub uninterp spec fn sha256_of(b: Seq<u8>) -> Seq<u8>;

/// The compressed encoding of `key` multiplied by the big-endian scalar
/// `tweak`, or `None` when the scalar is zero or not below the group order.
pub uninterp spec fn tweak_mul(key: Seq<u8>, tweak: Seq<u8>) -> Option<Seq<u8>>;

/// The encodings of a list of keys, as a multiset.
pub open spec fn key_multiset(keys: Seq<Vec<u8>>) -> Multiset<Seq<u8>> {
    keys.map_values(|k: Vec<u8>| k@).to_multiset()
}

/// Relies on `secp256k1::PublicKey::from_slice`: it succeeds exactly on valid encodings.
#[verifier::external_body]
pub(crate) fn is_valid_pubkey(b: &[u8]) -> (r: bool)
    ensures
        r == pubkey_valid(b@),
{
    PublicKey::from_slice(b).is_ok()
}

/// Relies on `secp256k1::XOnlyPublicKey::from_slice`, which accepts exactly
/// the 32-byte x coordinates of curve points, and on
/// `secp256k1::PublicKey::from_x_only_public_key`, which with even parity
/// builds the key from the bytes `0x02 || x`.
#[verifier::external_body]
pub(crate) fn lift_xonly_even(x: &[u8]) -> (r: Option<Vec<u8>>)
    ensures
        r is Some <==> xonly_valid(x@),
        r matches Some(v) ==> v@ == seq![0x02u8] + x@ && pubkey_valid(v@),
{
    XOnlyPublicKey::from_slice(x).ok().map(
        |k| PublicKey::from_x_only_public_key(k, Parity::Even).serialize().to_vec(),
    )
}

/// Relies on `secp256k1::PublicKey::combine_keys`: the sum of the points,
/// which depends on their multiset only since point addition is commutative
/// and associative; it fails on an empty list and when the sum is infinity.
#[verifier::external_body]
pub(crate) fn sum_keys(keys: &Vec<Vec<u8>>) -> (r: Option<Vec<u8>>)
    requires
        forall|i: int| 0 <= i < keys@.len() ==> pubkey_valid(#[trigger] keys@[i]@),
    ensures
        r matches Some(v) ==> point_sum(key_multiset(keys@)) == Some(v@) && v@.len() == 33
            && pubkey_valid(v@),
        r is None ==> point_sum(key_multiset(keys@)) is None,
        keys@.len() == 0 ==> r is None,
{
    let parsed: Vec<PublicKey> = keys.iter().map(|k| PublicKey::from_slice(k).unwrap()).collect();
    let refs: Vec<&PublicKey> = parsed.iter().collect();
    PublicKey::combine_keys(&refs).ok().map(|p| p.serialize().to_vec())
}

/// Relies on `bitcoin_hashes::sha256::Hash::hash`: the 32-byte SHA-256 digest.
#[verifier::external_body]
pub(crate) fn sha256(b: &[u8]) -> (r: Vec<u8>)
    ensures
        r@ == sha256_of(b@),
        r@.len() == 32,
{
    let h = <sha256::Hash as silentpayments::bitcoin_hashes::Hash>::hash(b);
    <sha256::Hash as silentpayments::bitcoin_hashes::Hash>::to_byte_array(h).to_vec()
}

/// Relies on `secp256k1::PublicKey::mul_tweak` with the tweak read by
/// `secp256k1::Scalar::from_be_bytes`, which refuses values not below the
/// group order; `mul_tweak` refuses a zero tweak.
#[verifier::external_body]
pub(crate) fn mul_tweak(key: &[u8], tweak: &[u8]) -> (r: Option<Vec<u8>>)
    requires
        pubkey_valid(key@),
        tweak@.len() == 32,
    ensures
        r matches Some(v) ==> tweak_mul(key@, tweak@) == Some(v@) && v@.len() == 33,
        r is None ==> tweak_mul(key@, tweak@) is None,
{
    let k = PublicKey::from_slice(key).unwrap();
    let t = Scalar::from_be_bytes(tweak.try_into().unwrap()).ok()?;
    k.mul_tweak(&Secp256k1::verification_only(), &t).ok().map(|p| p.serialize().to_vec())
}

} // verus!
