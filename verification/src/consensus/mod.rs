//! Per-zone consensus: block building, leader rotation, vote collection,
//! the zone state machine and the buffer of out-of-order certificates.
pub mod block;
pub mod leader;
pub mod vote;
pub mod engine;
pub mod laws;
pub mod pending_certs;
