//! A peer-to-peer token-ledger node: named users with Ed25519 signing
//! keys and wallets, a two-phase transfer workflow (propose, then
//! confirm or reject), a per-user append-only chain of records, and a
//! shared DAG of committed blocks packed from the current tips.
//!
//! Contracts are stated over views and spec functions; the calls into
//! ring, sha2 and uuid stand behind trusted wrappers whose contracts
//! name what those crates compute.

use vstd::prelude::*;

pub mod errors;
pub mod numfmt;
pub mod hashing;
pub mod crypto;
pub mod clock;
pub mod block;
pub mod genesis;
pub mod blockchain;
pub mod base;
pub mod chains;
pub mod mainchain;
pub mod strutil;
pub mod local_chain;
pub mod pool;
pub mod dag;
pub mod engine;
pub mod wallet;
pub mod peer;
pub mod snapshot;
pub mod transfer;
pub mod commands;
