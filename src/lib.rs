//! Silent-payment tweak extraction for the transactions of a block.
//!
//! The library decides, input by input, whether a public key can be
//! recovered from a spend, picks the smallest outpoint of each transaction,
//! and combines the recovered keys into one tweak per transaction.
//! Elliptic-curve arithmetic and hashing are delegated to `secp256k1` and
//! `bitcoin_hashes` through the small trusted interface in [`crypto`].

pub mod aggregate;
pub mod bytes;
pub mod classify;
pub mod config;
pub mod crypto;
pub mod outpoint;
pub mod scan;
pub mod script;
pub mod types;
