# zephyr_grid

The Zephyr payment service of the Grid, as a Verus-verified library: per-zone
BFT consensus, mempools, the zone tasks that drive them, and the supporting
Grid pieces (canonical encodings, service descriptors, sector handling, the
Interlink chat program, log events and dashboard helpers).

- `src/` — the verified library. Every function carries a contract; the
  calls into outside crates (`sha2`, `hex`, `ed25519-dalek`, `rand`,
  `rand_chacha`, and a few std functions) sit behind small trusted wrappers
  whose contracts say what the crate's documentation promises.
  - `consensus/` — the zone consensus engine, leader choice, vote
    collection, block hashing, the buffer of out-of-order certificates, and
    the engine's laws (`consensus/laws.rs`).
  - `mempool.rs`, `shared_mempool.rs` — per-zone spend pools.
  - `zone_task.rs` — what a zone task does with each proposal, vote,
    certificate and round tick; `node_start.rs` — the start-up decisions.
  - `publishing.rs`, `block_map.rs`, `storage.rs` — finalization side
    effects, block caches, zone heads and nullifier sets.
  - `gossip.rs`, `messages.rs`, `types.rs` — topics, routing, wire types.
  - `cbor.rs`, `zchat.rs`, `service.rs`, `sector.rs` — canonical encodings,
    the Interlink program, service descriptors and identities, sectors.
  - `display.rs`, `hexdump.rs`, `zode_events.rs`, `text.rs` — text helpers.
- `tests/` — tests run against the compiled library.
- `app/` — the unverified shell: wire encoding with serde, gossip delivery,
  the zone task loops on threads, service start-up, and the metrics view.
