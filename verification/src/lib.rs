//! Zephyr: per-zone consensus, mempool and storage logic of the Grid
//! payment service, with verified contracts.
pub mod types;
pub mod bytes;
pub mod hashing;
pub mod hexcode;
pub mod config;
pub mod consensus;
pub mod mempool;
pub mod shared_mempool;
pub mod gossip;
pub mod display;
pub mod hexdump;
pub mod block_map;
pub mod publishing;
pub mod zone_task;
pub mod node_start;
pub mod storage;
pub mod identity;
pub mod crypto;
pub mod committee;
pub mod sector;
pub mod errors;
pub mod messages;
pub mod service;
pub mod cbor;
pub mod text;
pub mod zchat;
pub mod zode_events;
