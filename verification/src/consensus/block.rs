//! Block construction and block hashing.
use vstd::prelude::*;
use crate::hashing::{push_bytes, push_u32_be, push_u64_be, sha256, sha256_spec, u32_be, u64_be};
use crate::types::{
    nullifiers_of, spends_model, Block, BlockHeader, BlockModel, EpochId, Nullifier, SpendModel,
    SpendTransaction, ZoneId,
};

verus! {

/// Parameters for building a new block.
pub struct BlockParams {
    pub zone_id: ZoneId,
    pub epoch: EpochId,
    pub height: u64,
    pub parent_hash: [u8; 32],
    pub timestamp_ms: u64,
    pub proposer_id: [u8; 32],
}

/// The bytes of a block header that its hash covers: every field in
/// declaration order at a fixed width, integers big-endian, hashes as their
/// 32 raw bytes.
pub open spec fn header_bytes(h: BlockHeader) -> Seq<u8> {
    u32_be(h.zone_id) + u64_be(h.epoch) + u64_be(h.height) + h.parent_hash@
        + h.transactions_root@ + u64_be(h.timestamp_ms) + h.proposer_id@
}

/// The big-endian encoding of a 32-bit integer determines it.
proof fn lemma_u32_be_injective(x: u32, y: u32)
    requires
        u32_be(x) == u32_be(y),
    ensures
        x == y,
{
    assert(u32_be(x)[0] == u32_be(y)[0]);
    assert(u32_be(x)[1] == u32_be(y)[1]);
    assert(u32_be(x)[2] == u32_be(y)[2]);
    assert(u32_be(x)[3] == u32_be(y)[3]);
    assert((x / 0x100_0000) % 256 == (y / 0x100_0000) % 256);
    assert((x / 0x1_0000) % 256 == (y / 0x1_0000) % 256);
    assert((x / 0x100) % 256 == (y / 0x100) % 256);
    assert(x % 256 == y % 256);
    assert(x == y) by (bit_vector)
        requires
            (x / 0x100_0000) % 256 == (y / 0x100_0000) % 256,
            (x / 0x1_0000) % 256 == (y / 0x1_0000) % 256,
            (x / 0x100) % 256 == (y / 0x100) % 256,
            x % 256 == y % 256,
    ;
}

/// The big-endian encoding of a 64-bit integer determines it.
proof fn lemma_u64_be_injective(x: u64, y: u64)
    requires
        u64_be(x) == u64_be(y),
    ensures
        x == y,
{
    let hx = (x / 0x1_0000_0000) as u32;
    let lx = (x % 0x1_0000_0000) as u32;
    let hy = (y / 0x1_0000_0000) as u32;
    let ly = (y % 0x1_0000_0000) as u32;
    assert(u64_be(x).subrange(0, 4) =~= u32_be(hx));
    assert(u64_be(y).subrange(0, 4) =~= u32_be(hy));
    assert(u64_be(x).subrange(4, 8) =~= u32_be(lx));
    assert(u64_be(y).subrange(4, 8) =~= u32_be(ly));
    lemma_u32_be_injective(hx, hy);
    lemma_u32_be_injective(lx, ly);
    assert(x / 0x1_0000_0000 == y / 0x1_0000_0000);
    assert(x % 0x1_0000_0000 == y % 0x1_0000_0000);
    assert(x == y) by (bit_vector)
        requires
            x / 0x1_0000_0000 == y / 0x1_0000_0000,
            x % 0x1_0000_0000 == y % 0x1_0000_0000,
    ;
}

/// Where each field sits in the hashed encoding of a header: 124 bytes,
/// the parent hash at bytes 20 to 52.
pub proof fn law_header_layout(h: BlockHeader)
    ensures
        header_bytes(h).len() == 124,
        header_bytes(h).subrange(0, 4) == u32_be(h.zone_id),
        header_bytes(h).subrange(4, 12) == u64_be(h.epoch),
        header_bytes(h).subrange(12, 20) == u64_be(h.height),
        header_bytes(h).subrange(20, 52) == h.parent_hash@,
        header_bytes(h).subrange(52, 84) == h.transactions_root@,
        header_bytes(h).subrange(84, 92) == u64_be(h.timestamp_ms),
        header_bytes(h).subrange(92, 124) == h.proposer_id@,
{
    let b = header_bytes(h);
    assert(b.subrange(0, 4) =~= u32_be(h.zone_id));
    assert(b.subrange(4, 12) =~= u64_be(h.epoch));
    assert(b.subrange(12, 20) =~= u64_be(h.height));
    assert(b.subrange(20, 52) =~= h.parent_hash@);
    assert(b.subrange(52, 84) =~= h.transactions_root@);
    assert(b.subrange(84, 92) =~= u64_be(h.timestamp_ms));
    assert(b.subrange(92, 124) =~= h.proposer_id@);
}

/// Two headers with the same hashed encoding are the same header: every
/// field, the parent hash included, is covered by the hash input, so
/// blocks on different parents never share a hash input.
pub proof fn law_header_bytes_injective(h1: BlockHeader, h2: BlockHeader)
    requires
        header_bytes(h1) == header_bytes(h2),
    ensures
        h1 == h2,
{
    broadcast use vstd::array::group_array_axioms;
    law_header_layout(h1);
    law_header_layout(h2);
    lemma_u32_be_injective(h1.zone_id, h2.zone_id);
    lemma_u64_be_injective(h1.epoch, h2.epoch);
    lemma_u64_be_injective(h1.height, h2.height);
    lemma_u64_be_injective(h1.timestamp_ms, h2.timestamp_ms);
    assert(h1.parent_hash =~= h2.parent_hash) by {
        assert forall|i: int| 0 <= i < 32 implies h1.parent_hash[i] == h2.parent_hash[i] by {
            assert(h1.parent_hash@[i] == h2.parent_hash@[i]);
        }
    }
    assert(h1.transactions_root =~= h2.transactions_root) by {
        assert forall|i: int| 0 <= i < 32 implies h1.transactions_root[i] == h2.transactions_root[i] by {
            assert(h1.transactions_root@[i] == h2.transactions_root@[i]);
        }
    }
    assert(h1.proposer_id =~= h2.proposer_id) by {
        assert forall|i: int| 0 <= i < 32 implies h1.proposer_id[i] == h2.proposer_id[i] by {
            assert(h1.proposer_id@[i] == h2.proposer_id@[i]);
        }
    }
}

/// `block_hash = SHA-256(header_bytes(header))`.
pub open spec fn spec_block_hash(h: BlockHeader) -> Seq<u8> {
    sha256_spec(header_bytes(h))
}

/// Concatenation of the bytes of a list of nullifiers.
pub open spec fn nullifier_bytes(ns: Seq<Nullifier>) -> Seq<u8>
    decreases ns.len(),
{
    if ns.len() == 0 {
        Seq::empty()
    } else {
        nullifier_bytes(ns.drop_last()) + ns.last().0@
    }
}

/// The bytes hashed into a transactions root: the nullifiers one after
/// the other, 32 bytes each, in block order.
pub proof fn law_nullifier_bytes_layout(ns: Seq<Nullifier>)
    ensures
        nullifier_bytes(ns).len() == 32 * ns.len(),
        forall|i: int| 0 <= i < ns.len() ==> #[trigger] nullifier_bytes(ns).subrange(32 * i, 32 * i + 32) == ns[i].0@,
    decreases ns.len(),
{
    if ns.len() > 0 {
        let front = ns.drop_last();
        law_nullifier_bytes_layout(front);
        let b = nullifier_bytes(ns);
        let bf = nullifier_bytes(front);
        assert forall|i: int| 0 <= i < ns.len() implies #[trigger] nullifier_bytes(ns).subrange(32 * i, 32 * i + 32)
            == ns[i].0@ by {
            if i < ns.len() - 1 {
                assert(b.subrange(32 * i, 32 * i + 32) =~= bf.subrange(32 * i, 32 * i + 32));
                assert(front[i] == ns[i]);
            } else {
                assert(b.subrange(32 * i, 32 * i + 32) =~= ns.last().0@);
            }
        }
    }
}

/// Flat hash of nullifiers: `SHA-256(n_0 || n_1 || ... || n_k)`.
pub open spec fn spec_transactions_root(ns: Seq<Nullifier>) -> Seq<u8> {
    sha256_spec(nullifier_bytes(ns))
}

/// Encodes a header for hashing (see [`header_bytes`]).
pub fn encode_header(header: &BlockHeader) -> (r: Vec<u8>)
    ensures
        r@ == header_bytes(*header),
{
    let mut out: Vec<u8> = Vec::new();
    push_u32_be(&mut out, header.zone_id);
    push_u64_be(&mut out, header.epoch);
    push_u64_be(&mut out, header.height);
    push_bytes(&mut out, header.parent_hash.as_slice());
    push_bytes(&mut out, header.transactions_root.as_slice());
    push_u64_be(&mut out, header.timestamp_ms);
    push_bytes(&mut out, header.proposer_id.as_slice());
    assert(out@ =~= header_bytes(*header));
    out
}

/// `block_hash = SHA-256(header_bytes(header))`
pub fn compute_block_hash(header: &BlockHeader) -> (r: [u8; 32])
    ensures
        r@ == spec_block_hash(*header),
{
    let bytes = encode_header(header);
    sha256(bytes.as_slice())
}

/// Flat hash of nullifiers: `SHA-256(n_0 || n_1 || ... || n_k)`.
pub fn compute_transactions_root(nullifiers: &[Nullifier]) -> (r: [u8; 32])
    ensures
        r@ == spec_transactions_root(nullifiers@),
{
    let mut buf: Vec<u8> = Vec::new();
    let mut i: usize = 0;
    while i < nullifiers.len()
        invariant
            i <= nullifiers.len(),
            buf@ == nullifier_bytes(nullifiers@.subrange(0, i as int)),
        decreases nullifiers.len() - i,
    {
        push_bytes(&mut buf, nullifiers[i].as_ref());
        proof {
            let s = nullifiers@.subrange(0, i + 1);
            assert(s.drop_last() =~= nullifiers@.subrange(0, i as int));
        }
        i += 1;
    }
    assert(nullifiers@.subrange(0, nullifiers@.len() as int) =~= nullifiers@);
    sha256(buf.as_slice())
}

/// The nullifiers of `spends`, in order.
pub fn collect_nullifiers(spends: &Vec<SpendTransaction>) -> (r: Vec<Nullifier>)
    ensures
        r@ == nullifiers_of(spends_model(spends@)),
{
    let mut r: Vec<Nullifier> = Vec::new();
    let mut i: usize = 0;
    while i < spends.len()
        invariant
            i <= spends.len(),
            r@.len() == i,
            forall|j: int| 0 <= j < i ==> #[trigger] r@[j] == spends@[j].nullifier,
        decreases spends.len() - i,
    {
        r.push(spends[i].nullifier);
        i += 1;
    }
    assert(r@ =~= nullifiers_of(spends_model(spends@)));
    r
}

/// The header that [`build_block`] assembles from `params` and the
/// nullifiers of the block's spends.
pub open spec fn params_header(params: BlockParams, root: [u8; 32]) -> BlockHeader {
    BlockHeader {
        zone_id: params.zone_id,
        epoch: params.epoch,
        height: params.height,
        parent_hash: params.parent_hash,
        transactions_root: root,
        timestamp_ms: params.timestamp_ms,
        proposer_id: params.proposer_id,
    }
}

/// Whether `b` is the block that [`build_block`] makes from `params` and
/// spends whose model is `spends`: the header carries the parameters and the
/// root of the spends' nullifiers, the hash is that of the header, and the
/// transactions are the spends in order.
pub open spec fn is_built_block(b: BlockModel, params: BlockParams, spends: Seq<SpendModel>) -> bool {
    &&& b.header == params_header(params, b.header.transactions_root)
    &&& b.header.transactions_root@ == spec_transactions_root(nullifiers_of(spends))
    &&& b.block_hash@ == spec_block_hash(b.header)
    &&& b.transactions == spends
}

/// Construct a block from a set of verified spends.
///
/// The block hash is `SHA-256(header_bytes(header))`. Since `parent_hash`
/// is embedded in the header, the hash inherently chains blocks. The
/// proposer signature is `sign_fn` applied to the block hash.
pub fn build_block<F: FnOnce(&[u8]) -> Vec<u8>>(
    params: BlockParams,
    spends: Vec<SpendTransaction>,
    sign_fn: F,
) -> (block: Block)
    requires
        forall|d: &[u8]| #[trigger] sign_fn.requires((d,)),
    ensures
        is_built_block(block@, params, spends_model(spends@)),
        exists|d: &[u8]| d@ == block.block_hash@ && #[trigger] sign_fn.ensures((d,), block.proposer_sig),
{
    let nullifiers = collect_nullifiers(&spends);
    let transactions_root = compute_transactions_root(nullifiers.as_slice());
    let header = BlockHeader {
        zone_id: params.zone_id,
        epoch: params.epoch,
        height: params.height,
        parent_hash: params.parent_hash,
        transactions_root,
        timestamp_ms: params.timestamp_ms,
        proposer_id: params.proposer_id,
    };
    let block_hash = compute_block_hash(&header);
    let msg = block_hash.as_slice();
    let proposer_sig = sign_fn(msg);
    Block { header, transactions: spends, block_hash, proposer_sig }
}

} // verus!
