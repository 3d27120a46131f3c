//! Change-data-capture core for a sharded MySQL cluster: schema catalog,
//! shard topology decisions, wire-row decoding, change classification and
//! conversion of row changes into flat output records.

pub mod names;
pub mod schema;
pub mod decoder;
pub mod events;
pub mod converter;
pub mod shards;
pub mod listener;
