use silentpayments::bitcoin_hashes::sha256;
use silentpayments::secp256k1::PublicKey;
use silentpayments::utils::receiving::calculate_tweak_data;
use silentpayments::utils::OutPoint as SpOutPoint;
use sp_tweaks::aggregate::{aggregate, compute_input_hash, AggregateError};
use sp_tweaks::outpoint::{serialize_outpoint, smallest_outpoint};
use sp_tweaks::scan::{needs_scan, scan_block, tx_tweak, ScanError};
use sp_tweaks::types::{Outpoint, Transaction, TxInput, TxOutput};

const G: [u8; 33] = [
    0x02, 0x79, 0xbe, 0x66, 0x7e, 0xf9, 0xdc, 0xbb, 0xac, 0x55, 0xa0, 0x62, 0x95, 0xce, 0x87, 0x0b,
    0x07, 0x02, 0x9b, 0xfc, 0xdb, 0x2d, 0xce, 0x28, 0xd9, 0x59, 0xf2, 0x81, 0x5b, 0x16, 0xf8, 0x17,
    0x98,
];
const G2: [u8; 33] = [
    0x02, 0xc6, 0x04, 0x7f, 0x94, 0x41, 0xed, 0x7d, 0x6d, 0x30, 0x45, 0x40, 0x6e, 0x95, 0xc0, 0x7c,
    0xd8, 0x5c, 0x77, 0x8e, 0x4b, 0x8c, 0xef, 0x3c, 0xa7, 0xab, 0xac, 0x09, 0xb9, 0x5c, 0x70, 0x9e,
    0xe5,
];

fn neg_g() -> Vec<u8> {
    let mut k = G.to_vec();
    k[0] = 0x03;
    k
}

fn outpoint(first: u8, vout: u32) -> Outpoint {
    let mut txid = [0x10u8; 32];
    txid[0] = first;
    Outpoint { txid, vout }
}

fn p2wpkh_script() -> Vec<u8> {
    let mut s = vec![0x00, 0x14];
    s.extend_from_slice(&[0x11; 20]);
    s
}

fn p2tr_output() -> TxOutput {
    let mut s = vec![0x51, 0x20];
    s.extend_from_slice(&G[1..]);
    TxOutput { script_pubkey: s }
}

fn wpkh_input(prev: Outpoint, key: &[u8]) -> TxInput {
    TxInput { prev_out: prev, script_sig: Vec::new(), witness: vec![vec![0x30; 71], key.to_vec()] }
}

fn coinbase() -> Transaction {
    Transaction {
        inputs: vec![TxInput {
            prev_out: Outpoint { txid: [0; 32], vout: u32::MAX },
            script_sig: vec![0x03, 0x01, 0x02, 0x03],
            witness: Vec::new(),
        }],
        outputs: vec![p2tr_output()],
        is_coinbase: true,
    }
}

fn expected_tweak(keys: &[&[u8]], smallest: &Outpoint) -> Vec<u8> {
    let parsed: Vec<PublicKey> = keys.iter().map(|k| PublicKey::from_slice(k).unwrap()).collect();
    let refs: Vec<&PublicKey> = parsed.iter().collect();
    let op = SpOutPoint::from_txid_bytes_and_vout(smallest.txid, smallest.vout);
    calculate_tweak_data(&refs, &[op]).unwrap().serialize().to_vec()
}

fn sha256_bytes(data: &[u8]) -> [u8; 32] {
    let h = <sha256::Hash as silentpayments::bitcoin_hashes::Hash>::hash(data);
    <sha256::Hash as silentpayments::bitcoin_hashes::Hash>::to_byte_array(h)
}

#[test]
fn outpoint_encoding_is_txid_then_little_endian_index() {
    let o = outpoint(0xab, 0x01020304);
    let mut expected = o.txid.to_vec();
    expected.extend_from_slice(&[0x04, 0x03, 0x02, 0x01]);
    assert_eq!(serialize_outpoint(&o), expected);
}

#[test]
fn smallest_outpoint_compares_bytes() {
    let inputs = vec![
        wpkh_input(outpoint(0x20, 0), &G),
        wpkh_input(outpoint(0x10, 5), &G),
        wpkh_input(outpoint(0x10, 256), &G),
    ];
    // index 256 encodes as 00 01 00 00, below 05 00 00 00
    assert_eq!(smallest_outpoint(&inputs), Some(outpoint(0x10, 256)));
}

#[test]
fn smallest_outpoint_ignores_input_order() {
    let a = vec![
        wpkh_input(outpoint(0x30, 1), &G),
        wpkh_input(outpoint(0x05, 9), &G),
        wpkh_input(outpoint(0x05, 2), &G),
    ];
    let b = vec![a[2].clone(), a[0].clone(), a[1].clone()];
    assert_eq!(smallest_outpoint(&a), smallest_outpoint(&b));
    assert_eq!(smallest_outpoint(&a), Some(outpoint(0x05, 2)));
}

#[test]
fn smallest_outpoint_of_degenerate_sets() {
    assert_eq!(smallest_outpoint(&Vec::new()), None);
    let dup = vec![wpkh_input(outpoint(0x05, 2), &G), wpkh_input(outpoint(0x05, 2), &G)];
    assert_eq!(smallest_outpoint(&dup), None);
    let dup_above = vec![
        wpkh_input(outpoint(0x07, 2), &G),
        wpkh_input(outpoint(0x05, 2), &G),
        wpkh_input(outpoint(0x07, 2), &G),
    ];
    assert_eq!(smallest_outpoint(&dup_above), Some(outpoint(0x05, 2)));
}

#[test]
fn input_hash_is_tagged_sha256() {
    let o = outpoint(0x42, 7);
    let tag = sha256_bytes(b"BIP0352/Inputs");
    let mut msg = tag.to_vec();
    msg.extend_from_slice(&tag);
    msg.extend_from_slice(&serialize_outpoint(&o));
    msg.extend_from_slice(&G);
    let expected = sha256_bytes(&msg).to_vec();
    assert_eq!(compute_input_hash(&o, &G.to_vec()), expected);
}

#[test]
fn aggregate_without_keys_is_none() {
    assert_eq!(aggregate(&outpoint(1, 0), &Vec::new()), Ok(None));
}

#[test]
fn aggregate_matches_reference_tweak() {
    let o = outpoint(0x42, 7);
    let r = aggregate(&o, &vec![G.to_vec()]).unwrap().unwrap();
    assert_eq!(r, expected_tweak(&[&G], &o));
    assert_ne!(r, G.to_vec());
}

#[test]
fn aggregate_ignores_key_order() {
    let o = outpoint(0x42, 7);
    let a = aggregate(&o, &vec![G.to_vec(), G2.to_vec()]);
    let b = aggregate(&o, &vec![G2.to_vec(), G.to_vec()]);
    assert_eq!(a, b);
    assert_eq!(a.unwrap().unwrap(), expected_tweak(&[&G, &G2], &o));
}

#[test]
fn aggregate_of_opposite_keys_is_none() {
    let o = outpoint(0x42, 7);
    assert_eq!(aggregate(&o, &vec![G.to_vec(), neg_g()]), Ok(None));
    let err: Result<Option<Vec<u8>>, AggregateError> = Ok(None);
    assert_eq!(aggregate(&o, &vec![neg_g(), G.to_vec()]), err);
}

#[test]
fn coinbase_only_block_has_no_tweaks() {
    let txs = vec![coinbase()];
    assert!(!needs_scan(&txs[0]));
    assert_eq!(scan_block(&txs, &Vec::new()), Ok(Vec::new()));
}

#[test]
fn single_witness_keyhash_input_gives_one_tweak() {
    let prev = outpoint(0x42, 1);
    let tx = Transaction {
        inputs: vec![wpkh_input(prev, &G)],
        outputs: vec![p2tr_output()],
        is_coinbase: false,
    };
    assert!(needs_scan(&tx));
    let lookups = vec![Vec::new(), vec![Some(vec![vec![0x6a], p2wpkh_script()])]];
    let r = scan_block(&vec![coinbase(), tx], &lookups).unwrap();
    assert_eq!(r, vec![expected_tweak(&[&G], &prev)]);
}

#[test]
fn transaction_without_keypath_output_is_skipped() {
    let tx = Transaction {
        inputs: vec![wpkh_input(outpoint(1, 0), &G), wpkh_input(outpoint(2, 0), &G2)],
        outputs: vec![TxOutput { script_pubkey: p2wpkh_script() }],
        is_coinbase: false,
    };
    assert!(!needs_scan(&tx));
    assert_eq!(tx_tweak(&tx, &Vec::new(), 0), Ok(None));
    assert_eq!(scan_block(&vec![tx], &vec![Vec::new()]), Ok(Vec::new()));
}

#[test]
fn missing_previous_output_fails_the_scan() {
    let tx = Transaction {
        inputs: vec![wpkh_input(outpoint(1, 0), &G), wpkh_input(outpoint(2, 3), &G2)],
        outputs: vec![p2tr_output()],
        is_coinbase: false,
    };
    let lookups = vec![Vec::new(), vec![Some(vec![p2wpkh_script()]), None]];
    assert_eq!(
        scan_block(&vec![coinbase(), tx.clone()], &lookups),
        Err(ScanError::PrevoutNotFound { tx_index: 1, input_index: 1 })
    );
    let short = vec![Vec::new(), vec![Some(vec![p2wpkh_script()]), Some(vec![p2wpkh_script()])]];
    assert_eq!(
        scan_block(&vec![coinbase(), tx], &short),
        Err(ScanError::PrevoutNotFound { tx_index: 1, input_index: 1 })
    );
}

#[test]
fn transaction_without_eligible_inputs_gives_no_tweak() {
    let tx = Transaction {
        inputs: vec![TxInput {
            prev_out: outpoint(1, 0),
            script_sig: Vec::new(),
            witness: vec![vec![0x01], vec![0x02], vec![0x03]],
        }],
        outputs: vec![p2tr_output()],
        is_coinbase: false,
    };
    let lookups = vec![vec![Some(vec![vec![0x52, 0xae]])]];
    assert_eq!(scan_block(&vec![tx], &lookups), Ok(Vec::new()));
}

#[test]
fn duplicate_outpoints_fail_the_scan() {
    let tx = Transaction {
        inputs: vec![wpkh_input(outpoint(1, 0), &G), wpkh_input(outpoint(1, 0), &G2)],
        outputs: vec![p2tr_output()],
        is_coinbase: false,
    };
    let lookups = vec![vec![Some(vec![p2wpkh_script()]), Some(vec![p2wpkh_script()])]];
    assert_eq!(scan_block(&vec![tx], &lookups), Err(ScanError::DegenerateOutpoints { tx_index: 0 }));
}

#[test]
fn invalid_keypath_key_fails_the_scan() {
    let mut bad = vec![0x51, 0x20];
    bad.extend_from_slice(&[0xff; 32]);
    let tx = Transaction {
        inputs: vec![TxInput {
            prev_out: outpoint(1, 0),
            script_sig: Vec::new(),
            witness: vec![vec![0x41; 64]],
        }],
        outputs: vec![p2tr_output()],
        is_coinbase: false,
    };
    let lookups = vec![vec![Some(vec![bad])]];
    assert_eq!(
        scan_block(&vec![tx], &lookups),
        Err(ScanError::InvalidKeypathKey { tx_index: 0, input_index: 0 })
    );
}

#[test]
fn tweaks_follow_block_order() {
    let mk = |first: u8, key: &[u8]| Transaction {
        inputs: vec![wpkh_input(outpoint(first, 0), key)],
        outputs: vec![p2tr_output()],
        is_coinbase: false,
    };
    let txs = vec![coinbase(), mk(9, &G2), mk(3, &G)];
    let lookups = vec![
        Vec::new(),
        vec![Some(vec![p2wpkh_script()])],
        vec![Some(vec![p2wpkh_script()])],
    ];
    let r = scan_block(&txs, &lookups).unwrap();
    assert_eq!(r, vec![expected_tweak(&[&G2], &outpoint(9, 0)), expected_tweak(&[&G], &outpoint(3, 0))]);
}
