//! Bitcoin anchoring of a BFT blockchain: committee configuration, wire
//! formats and the rules that drive the anchoring chain.

pub mod binary_map;
pub mod btc;
pub mod bytes;
pub mod config;
pub mod config_codec;
pub mod crypto;
pub mod dto;
pub mod handlers;
pub mod keypairs;
pub mod laws;
pub mod message_codec;
pub mod payload;
pub mod proposal;
pub mod schema;
pub mod service;
pub mod signing;
pub mod sync;
pub mod transaction;
pub mod wire;
