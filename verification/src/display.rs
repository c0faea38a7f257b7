//! Pure helpers of the dashboards: stable string hashes, shortened
//! sender names, block ages, and the associated data of encrypted sectors.
use vstd::prelude::*;
use vstd::string::*;
use vstd::utf8::{decode_utf8, encode_utf8, encode_utf8_decode_utf8, is_char_boundary};
use crate::hashing::push_bytes;
use crate::sector::{ProgramId, SectorId};

verus! {

/// The djb2 hash of a byte string: start at 5381, then for each byte
/// multiply by 33 and add the byte, wrapping at 2^64.
pub open spec fn djb2_spec(b: Seq<u8>) -> u64
    decreases b.len(),
{
    if b.len() == 0 {
        5381
    } else {
        vstd::wrapping::u64_specs::wrapping_add(
            vstd::wrapping::u64_specs::wrapping_mul(djb2_spec(b.drop_last()), 33),
            b.last() as u64,
        )
    }
}

/// The djb2 hash of the UTF-8 bytes of `s`, used to place peers stably on
/// the topology view.
pub fn djb2(s: &str) -> (r: u64)
    ensures
        r == djb2_spec(s.spec_bytes()),
{
    let bytes = s.as_bytes();
    let mut h: u64 = 5381;
    let mut i: usize = 0;
    while i < bytes.len()
        invariant
            i <= bytes@.len(),
            h == djb2_spec(bytes@.subrange(0, i as int)),
        decreases bytes@.len() - i,
    {
        proof {
            assert(bytes@.subrange(0, i + 1).drop_last() =~= bytes@.subrange(0, i as int));
        }
        h = h.wrapping_mul(33).wrapping_add(bytes[i] as u64);
        i += 1;
    }
    proof {
        assert(bytes@.subrange(0, bytes@.len() as int) =~= bytes@);
    }
    h
}

/// The last six bytes of a long sender name may be cut out without
/// splitting a character.
pub open spec fn sender_cut_ok(did: Seq<char>) -> bool {
    encode_utf8(did).len() > 6 ==> is_char_boundary(encode_utf8(did), encode_utf8(did).len() - 6)
}

/// The shown name of a sender: names longer than six bytes become `...`
/// and their last six bytes.
pub open spec fn short_sender_spec(did: Seq<char>) -> Seq<char> {
    let b = encode_utf8(did);
    if b.len() > 6 {
        "..."@ + decode_utf8(b.subrange(b.len() - 6, b.len() as int))
    } else {
        did
    }
}

/// Shorten a sender DID for the chat view.
pub fn short_sender(did: &str) -> (r: String)
    requires
        sender_cut_ok(did@),
    ensures
        r@ == short_sender_spec(did@),
{
    let len = did.as_bytes().len();
    if len > 6 {
        let (_, tail) = did.split_at(len - 6);
        proof {
            encode_utf8_decode_utf8(tail@);
        }
        String::from_str("...").concat(tail)
    } else {
        String::from_str(did)
    }
}

/// Stage of a block on the block-flow view, by age.
#[derive(Debug, Clone, Copy, PartialEq, Eq)]
pub enum BlockStatus {
    Proposed,
    Voting,
    Certified,
}

/// Milliseconds a block is shown as proposed.
pub const PROPOSED_THRESHOLD_MS: u128 = 300;

/// Milliseconds after which a block is shown as certified.
pub const VOTING_THRESHOLD_MS: u128 = 600;

/// The stage of a block that appeared `age_ms` milliseconds ago.
pub fn block_status(age_ms: u128) -> (r: BlockStatus)
    ensures
        r == if age_ms < PROPOSED_THRESHOLD_MS {
            BlockStatus::Proposed
        } else if age_ms < VOTING_THRESHOLD_MS {
            BlockStatus::Voting
        } else {
            BlockStatus::Certified
        },
{
    if age_ms < PROPOSED_THRESHOLD_MS {
        BlockStatus::Proposed
    } else if age_ms < VOTING_THRESHOLD_MS {
        BlockStatus::Voting
    } else {
        BlockStatus::Certified
    }
}

/// The associated data that binds an encrypted sector to its slot:
/// `program_id || sector_id`.
pub fn build_sector_aad(program_id: &ProgramId, sector_id: &SectorId) -> (r: Vec<u8>)
    ensures
        r@ == program_id.0@ + sector_id.0@,
{
    let mut aad: Vec<u8> = Vec::new();
    push_bytes(&mut aad, program_id.0.as_slice());
    push_bytes(&mut aad, sector_id.as_bytes());
    assert(aad@ =~= program_id.0@ + sector_id.0@);
    aad
}

/// How many of the first `n` entries of `zones` are `z`.
pub open spec fn count_zone(zones: Seq<u32>, n: int, z: u32) -> nat
    decreases n,
{
    if n <= 0 {
        0
    } else {
        count_zone(zones, n - 1, z) + if zones[n - 1] == z { 1nat } else { 0nat }
    }
}

/// Which blocks of the flow view stay when each zone keeps at most
/// `max_per_zone` blocks: for the blocks of the zones `zones`, oldest
/// first, a block stays exactly when fewer than `max_per_zone` earlier
/// blocks are of its zone.
pub fn keep_first_per_zone(zones: &Vec<u32>, max_per_zone: usize) -> (r: Vec<bool>)
    ensures
        r@.len() == zones@.len(),
        forall|i: int| 0 <= i < zones@.len() ==> #[trigger] r@[i] == (count_zone(zones@, i, zones@[i]) < max_per_zone),
{
    let mut r: Vec<bool> = Vec::new();
    let mut i: usize = 0;
    while i < zones.len()
        invariant
            i <= zones@.len(),
            r@.len() == i,
            forall|k: int| 0 <= k < i ==> #[trigger] r@[k] == (count_zone(zones@, k, zones@[k]) < max_per_zone),
        decreases zones@.len() - i,
    {
        let z = zones[i];
        let mut c: usize = 0;
        let mut j: usize = 0;
        while j < i
            invariant
                j <= i,
                i < zones@.len(),
                z == zones@[i as int],
                c == count_zone(zones@, j as int, z),
                c <= j,
            decreases i - j,
        {
            if zones[j] == z {
                c += 1;
            }
            j += 1;
        }
        r.push(c < max_per_zone);
        i += 1;
    }
    r
}

} // verus!
