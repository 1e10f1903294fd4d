//! Persistence core of a cryptocurrency full node: a canonical,
//! tag-dispatched binary codec for consensus records, and a
//! transactional, partitioned key-value store built on the
//! `sanakirja` tree engine.

pub mod codec;
pub mod crypto;
pub mod kv;
pub mod store;
pub mod tx_in;
