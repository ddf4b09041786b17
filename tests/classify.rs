use sp_tweaks::classify::{classify, ClassifyError};
use sp_tweaks::script::parse_pushes;

const G_X: [u8; 32] = [
    0x79, 0xbe, 0x66, 0x7e, 0xf9, 0xdc, 0xbb, 0xac, 0x55, 0xa0, 0x62, 0x95, 0xce, 0x87, 0x0b, 0x07,
    0x02, 0x9b, 0xfc, 0xdb, 0x2d, 0xce, 0x28, 0xd9, 0x59, 0xf2, 0x81, 0x5b, 0x16, 0xf8, 0x17, 0x98,
];

fn g_compressed() -> Vec<u8> {
    let mut k = vec![0x02];
    k.extend_from_slice(&G_X);
    k
}

fn signature() -> Vec<u8> {
    vec![0x30; 71]
}

fn p2wpkh_script() -> Vec<u8> {
    let mut s = vec![0x00, 0x14];
    s.extend_from_slice(&[0x11; 20]);
    s
}

fn p2tr_script(x: &[u8; 32]) -> Vec<u8> {
    let mut s = vec![0x51, 0x20];
    s.extend_from_slice(x);
    s
}

fn p2pkh_script() -> Vec<u8> {
    let mut s = vec![0x76, 0xa9, 0x14];
    s.extend_from_slice(&[0x22; 20]);
    s.push(0x88);
    s.push(0xac);
    s
}

fn p2sh_script() -> Vec<u8> {
    let mut s = vec![0xa9, 0x14];
    s.extend_from_slice(&[0x33; 20]);
    s.push(0x87);
    s
}

#[test]
fn witness_keyhash_recovers_witness_key() {
    let witness = vec![signature(), g_compressed()];
    let r = classify(&[], &witness, &p2wpkh_script());
    assert_eq!(r, Ok(Some(g_compressed())));
}

#[test]
fn witness_keyhash_with_invalid_key_is_not_eligible() {
    let mut bad = vec![0x02];
    bad.extend_from_slice(&[0xff; 32]);
    let witness = vec![signature(), bad];
    assert_eq!(classify(&[], &witness, &p2wpkh_script()), Ok(None));
}

#[test]
fn witness_keyhash_with_three_elements_is_not_eligible() {
    let witness = vec![signature(), g_compressed(), vec![0x01]];
    assert_eq!(classify(&[], &witness, &p2wpkh_script()), Ok(None));
}

#[test]
fn keypath_single_element_lifts_even_key() {
    let witness = vec![vec![0x41; 64]];
    let r = classify(&[], &witness, &p2tr_script(&G_X));
    assert_eq!(r, Ok(Some(g_compressed())));
}

#[test]
fn keypath_with_annex_is_still_key_path() {
    let witness = vec![vec![0x41; 64], vec![0x50, 0x01, 0x02]];
    let r = classify(&[], &witness, &p2tr_script(&G_X));
    assert_eq!(r, Ok(Some(g_compressed())));
}

#[test]
fn keypath_script_path_is_not_eligible() {
    let witness = vec![vec![0x41; 64], vec![0x51], vec![0xc0; 33]];
    assert_eq!(classify(&[], &witness, &p2tr_script(&G_X)), Ok(None));
    let two = vec![vec![0x41; 64], vec![0x51]];
    assert_eq!(classify(&[], &two, &p2tr_script(&G_X)), Ok(None));
}

#[test]
fn keypath_empty_witness_is_not_eligible() {
    assert_eq!(classify(&[], &Vec::new(), &p2tr_script(&G_X)), Ok(None));
}

#[test]
fn keypath_with_invalid_key_fails() {
    let witness = vec![vec![0x41; 64]];
    let r = classify(&[], &witness, &p2tr_script(&[0xff; 32]));
    assert_eq!(r, Err(ClassifyError::InvalidKeypathKey));
}

#[test]
fn legacy_keyhash_recovers_pushed_key() {
    let mut sig = vec![71u8];
    sig.extend_from_slice(&signature());
    sig.push(33);
    sig.extend_from_slice(&g_compressed());
    assert_eq!(classify(&sig, &Vec::new(), &p2pkh_script()), Ok(Some(g_compressed())));
}

#[test]
fn legacy_keyhash_with_one_push_is_not_eligible() {
    let mut sig = vec![33u8];
    sig.extend_from_slice(&g_compressed());
    assert_eq!(classify(&sig, &Vec::new(), &p2pkh_script()), Ok(None));
}

#[test]
fn script_hash_wrapping_witness_keyhash_recovers_key() {
    let mut sig = vec![22u8];
    sig.extend_from_slice(&p2wpkh_script());
    let witness = vec![signature(), g_compressed()];
    assert_eq!(classify(&sig, &witness, &p2sh_script()), Ok(Some(g_compressed())));
}

#[test]
fn script_hash_with_other_redeem_script_is_not_eligible() {
    let sig = vec![0x03, 0x51, 0x52, 0x53];
    let witness = vec![signature(), g_compressed()];
    assert_eq!(classify(&sig, &witness, &p2sh_script()), Ok(None));
}

#[test]
fn script_hash_with_malformed_unlocking_script_is_not_eligible() {
    let sig = vec![0x05, 0x00];
    let witness = vec![signature(), g_compressed()];
    assert_eq!(classify(&sig, &witness, &p2sh_script()), Ok(None));
}

#[test]
fn other_scripts_are_not_eligible() {
    let mut bare_key = vec![33u8];
    bare_key.extend_from_slice(&g_compressed());
    bare_key.push(0xac);
    let witness = vec![signature(), g_compressed()];
    assert_eq!(classify(&[], &witness, &bare_key), Ok(None));
    assert_eq!(classify(&[], &witness, &[]), Ok(None));
}

#[test]
fn pushes_are_split() {
    let script = vec![0x02, 0xaa, 0xbb, 0x4c, 0x01, 0xcc, 0x4d, 0x02, 0x00, 0xdd, 0xee];
    let r = parse_pushes(&script);
    assert_eq!(r, Some(vec![vec![0xaa, 0xbb], vec![0xcc], vec![0xdd, 0xee]]));
    assert_eq!(parse_pushes(&[]), Some(Vec::new()));
}

#[test]
fn truncated_or_non_push_scripts_are_refused() {
    assert_eq!(parse_pushes(&[0x03, 0xaa]), None);
    assert_eq!(parse_pushes(&[0x4c]), None);
    assert_eq!(parse_pushes(&[0x4e, 0xff, 0xff, 0xff, 0xff, 0x00]), None);
    assert_eq!(parse_pushes(&[0x76]), None);
}
