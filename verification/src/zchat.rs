//! Interlink chat program: the program descriptor, channel and message
//! types, their canonical encodings, and the sector ids that messages are
//! stored under.
use vstd::prelude::*;
use vstd::string::*;
use crate::cbor::{
    cbor_bool, cbor_bytes, cbor_key, cbor_map, cbor_text, cbor_uint, expect_head, expect_key,
    lemma_bool_unique, lemma_bytes_unique, lemma_prefix_concat, lemma_text_unique, lemma_uint_unique, prefix_at, push_bool, push_byte_string, push_head, push_map, push_text,
    push_uint, read_bool, read_byte_string, read_text, read_uint,
};
use crate::errors::ZfsError;
use crate::hashing::{push_bytes, push_u64_le, sha256, sha256_spec, u64_le};
use crate::hexcode::hex_spec;
use crate::sector::{program_topic, topic_prefix, ProgramId, SectorId};
use crate::text::{dec_chars, push_decimal};

verus! {

/// Maximum Interlink message size (64 KiB).
pub const MAX_MESSAGE_SIZE: usize = 65536;

/// Reserved test channel ID for zode-app test traffic.
pub const TEST_CHANNEL_ID: &'static str = "INTERLINK-MAIN";

/// ASCII `name`.
pub open spec fn name_key() -> Seq<u8> {
    seq![0x6e, 0x61, 0x6d, 0x65]
}

/// ASCII `version`.
pub open spec fn version_key() -> Seq<u8> {
    seq![0x76, 0x65, 0x72, 0x73, 0x69, 0x6f, 0x6e]
}

/// ASCII `proof_required`.
pub open spec fn proof_required_key() -> Seq<u8> {
    seq![0x70, 0x72, 0x6f, 0x6f, 0x66, 0x5f, 0x72, 0x65, 0x71, 0x75, 0x69, 0x72, 0x65, 0x64]
}

/// ASCII `content`.
pub open spec fn content_key() -> Seq<u8> {
    seq![0x63, 0x6f, 0x6e, 0x74, 0x65, 0x6e, 0x74]
}

/// ASCII `channel_id`.
pub open spec fn channel_id_key() -> Seq<u8> {
    seq![0x63, 0x68, 0x61, 0x6e, 0x6e, 0x65, 0x6c, 0x5f, 0x69, 0x64]
}

/// ASCII `sender_did`.
pub open spec fn sender_did_key() -> Seq<u8> {
    seq![0x73, 0x65, 0x6e, 0x64, 0x65, 0x72, 0x5f, 0x64, 0x69, 0x64]
}

/// ASCII `timestamp_ms`.
pub open spec fn timestamp_ms_key() -> Seq<u8> {
    seq![0x74, 0x69, 0x6d, 0x65, 0x73, 0x74, 0x61, 0x6d, 0x70, 0x5f, 0x6d, 0x73]
}

/// ASCII `zchat/channel/`.
pub open spec fn channel_sector_prefix() -> Seq<u8> {
    seq![0x7a, 0x63, 0x68, 0x61, 0x74, 0x2f, 0x63, 0x68, 0x61, 0x6e, 0x6e, 0x65, 0x6c, 0x2f]
}

/// ASCII `zchat/msg/`.
pub open spec fn message_sector_prefix() -> Seq<u8> {
    seq![0x7a, 0x63, 0x68, 0x61, 0x74, 0x2f, 0x6d, 0x73, 0x67, 0x2f]
}

fn name_key_bytes() -> (r: [u8; 4])
    ensures
        r@ == name_key(),
{
    let r = [0x6e, 0x61, 0x6d, 0x65];
    assert(r@ =~= name_key());
    r
}

fn version_key_bytes() -> (r: [u8; 7])
    ensures
        r@ == version_key(),
{
    let r = [0x76, 0x65, 0x72, 0x73, 0x69, 0x6f, 0x6e];
    assert(r@ =~= version_key());
    r
}

fn proof_required_key_bytes() -> (r: [u8; 14])
    ensures
        r@ == proof_required_key(),
{
    let r = [0x70, 0x72, 0x6f, 0x6f, 0x66, 0x5f, 0x72, 0x65, 0x71, 0x75, 0x69, 0x72, 0x65, 0x64];
    assert(r@ =~= proof_required_key());
    r
}

fn content_key_bytes() -> (r: [u8; 7])
    ensures
        r@ == content_key(),
{
    let r = [0x63, 0x6f, 0x6e, 0x74, 0x65, 0x6e, 0x74];
    assert(r@ =~= content_key());
    r
}

fn channel_id_key_bytes() -> (r: [u8; 10])
    ensures
        r@ == channel_id_key(),
{
    let r = [0x63, 0x68, 0x61, 0x6e, 0x6e, 0x65, 0x6c, 0x5f, 0x69, 0x64];
    assert(r@ =~= channel_id_key());
    r
}

fn sender_did_key_bytes() -> (r: [u8; 10])
    ensures
        r@ == sender_did_key(),
{
    let r = [0x73, 0x65, 0x6e, 0x64, 0x65, 0x72, 0x5f, 0x64, 0x69, 0x64];
    assert(r@ =~= sender_did_key());
    r
}

fn timestamp_ms_key_bytes() -> (r: [u8; 12])
    ensures
        r@ == timestamp_ms_key(),
{
    let r = [0x74, 0x69, 0x6d, 0x65, 0x73, 0x74, 0x61, 0x6d, 0x70, 0x5f, 0x6d, 0x73];
    assert(r@ =~= timestamp_ms_key());
    r
}

/// Appends a key item.
fn push_key(out: &mut Vec<u8>, k: &[u8])
    requires
        k@.len() < 24,
    ensures
        final(out)@ == old(out)@ + cbor_key(k@),
{
    push_head(out, 3, k.len() as u64);
    push_bytes(out, k);
    assert(out@ =~= old(out)@ + cbor_key(k@));
}

/// Model of a [`ZChatDescriptor`].
pub struct ZChatDescriptorModel {
    pub name: Seq<char>,
    pub version: u32,
    pub proof_required: bool,
}

/// Interlink program descriptor. Its program id is the SHA-256 hash of its
/// canonical encoding.
#[derive(Debug, Clone, PartialEq, Eq)]
pub struct ZChatDescriptor {
    pub name: String,
    pub version: u32,
    pub proof_required: bool,
}

impl View for ZChatDescriptor {
    type V = ZChatDescriptorModel;

    open spec fn view(&self) -> ZChatDescriptorModel {
        ZChatDescriptorModel {
            name: self.name@,
            version: self.version,
            proof_required: self.proof_required,
        }
    }
}

/// The canonical encoding of a descriptor: a map of three entries, keyed
/// `name`, `version`, `proof_required` (shortest key first).
pub open spec fn descriptor_cbor(d: ZChatDescriptorModel) -> Seq<u8> {
    cbor_map(3) + cbor_key(name_key()) + cbor_text(d.name) + cbor_key(version_key()) + cbor_uint(
        d.version as u64,
    ) + cbor_key(proof_required_key()) + cbor_bool(d.proof_required)
}

/// Where each entry of a descriptor's encoding stands.
proof fn lemma_descriptor_pieces(bytes: Seq<u8>, d: ZChatDescriptorModel)
    requires
        bytes == descriptor_cbor(d),
    ensures
        ({
            let a0 = cbor_map(3);
            let a1 = cbor_key(name_key());
            let a2 = cbor_text(d.name);
            let a3 = cbor_key(version_key());
            let a4 = cbor_uint(d.version as u64);
            let a5 = cbor_key(proof_required_key());
            let a6 = cbor_bool(d.proof_required);
            let o1 = a0.len() as int;
            let o2: int = o1 + a1.len();
            let o3 = o2 + a2.len();
            let o4: int = o3 + a3.len();
            let o5 = o4 + a4.len();
            let o6: int = o5 + a5.len();
            &&& prefix_at(bytes, 0, a0)
            &&& prefix_at(bytes, o1, a1)
            &&& prefix_at(bytes, o2, a2)
            &&& prefix_at(bytes, o3, a3)
            &&& prefix_at(bytes, o4, a4)
            &&& prefix_at(bytes, o5, a5)
            &&& prefix_at(bytes, o6, a6)
            &&& bytes.len() == o6 + a6.len()
        }),
{
    let a0 = cbor_map(3);
    let a1 = cbor_key(name_key());
    let a2 = cbor_text(d.name);
    let a3 = cbor_key(version_key());
    let a4 = cbor_uint(d.version as u64);
    let a5 = cbor_key(proof_required_key());
    let a6 = cbor_bool(d.proof_required);
    assert(bytes.subrange(0, bytes.len() as int) =~= bytes);
    lemma_prefix_concat(bytes, 0, a0 + a1 + a2 + a3 + a4 + a5, a6);
    lemma_prefix_concat(bytes, 0, a0 + a1 + a2 + a3 + a4, a5);
    lemma_prefix_concat(bytes, 0, a0 + a1 + a2 + a3, a4);
    lemma_prefix_concat(bytes, 0, a0 + a1 + a2, a3);
    lemma_prefix_concat(bytes, 0, a0 + a1, a2);
    lemma_prefix_concat(bytes, 0, a0, a1);
}

/// The decoding error for bytes that are no canonical encoding.
fn decode_error() -> (e: ZfsError)
    ensures
        e matches ZfsError::Decode(m) && m@ == "bytes are not a canonical encoding"@,
{
    ZfsError::Decode(String::from_str("bytes are not a canonical encoding"))
}

impl ZChatDescriptor {
    /// The canonical v1 Interlink descriptor: `zchat`, version 1, no proof
    /// required.
    pub fn v1() -> (r: Self)
        ensures
            r@.name == seq!['z', 'c', 'h', 'a', 't'],
            r@.version == 1,
            !r@.proof_required,
    {
        proof {
            reveal_strlit("zchat");
        }
        ZChatDescriptor { name: String::from_str("zchat"), version: 1, proof_required: false }
    }

    /// Encode to canonical bytes; this never fails.
    pub fn encode_canonical(&self) -> (r: Result<Vec<u8>, ZfsError>)
        ensures
            r matches Ok(b) && b@ == descriptor_cbor(self@),
    {
        let mut out: Vec<u8> = Vec::new();
        push_map(&mut out, 3);
        let k = name_key_bytes();
        push_key(&mut out, k.as_slice());
        push_text(&mut out, self.name.as_str());
        let k = version_key_bytes();
        push_key(&mut out, k.as_slice());
        push_uint(&mut out, self.version as u64);
        let k = proof_required_key_bytes();
        push_key(&mut out, k.as_slice());
        push_bool(&mut out, self.proof_required);
        assert(out@ =~= descriptor_cbor(self@));
        Ok(out)
    }

    /// Decode from canonical bytes: succeeds exactly on the encodings of
    /// descriptors.
    #[verifier::spinoff_prover]
    #[verifier::rlimit(40)]
    pub fn decode_canonical(bytes: &[u8]) -> (r: Result<Self, ZfsError>)
        ensures
            match r {
                Ok(d) => bytes@ == descriptor_cbor(d@),
                Err(e) => e is Decode && forall|m: ZChatDescriptorModel|
                    descriptor_cbor(m) != bytes@,
            },
    {
        let p0 = match expect_head(bytes, 0, 5, 3) {
            Some(p) => p,
            None => {
                proof {
                    assert forall|m: ZChatDescriptorModel| descriptor_cbor(m) != bytes@ by {
                        if descriptor_cbor(m) == bytes@ {
                            lemma_descriptor_pieces(bytes@, m);
                        }
                    }
                }
                return Err(decode_error());
            },
        };
        let k = name_key_bytes();
        let p1 = match expect_key(bytes, p0, k.as_slice()) {
            Some(p) => p,
            None => {
                proof {
                    assert forall|m: ZChatDescriptorModel| descriptor_cbor(m) != bytes@ by {
                        if descriptor_cbor(m) == bytes@ {
                            lemma_descriptor_pieces(bytes@, m);
                        }
                    }
                }
                return Err(decode_error());
            },
        };
        let (name, p2) = match read_text(bytes, p1) {
            Some(x) => x,
            None => {
                proof {
                    assert forall|m: ZChatDescriptorModel| descriptor_cbor(m) != bytes@ by {
                        if descriptor_cbor(m) == bytes@ {
                            lemma_descriptor_pieces(bytes@, m);
                        }
                    }
                }
                return Err(decode_error());
            },
        };
        let k = version_key_bytes();
        let p3 = match expect_key(bytes, p2, k.as_slice()) {
            Some(p) => p,
            None => {
                proof {
                    assert forall|m: ZChatDescriptorModel| descriptor_cbor(m) != bytes@ by {
                        if descriptor_cbor(m) == bytes@ {
                            lemma_descriptor_pieces(bytes@, m);
                            assert(prefix_at(bytes@, p1 as int, cbor_text(m.name)));
                        }
                    }
                }
                return Err(decode_error());
            },
        };
        let (v, p4) = match read_uint(bytes, p3) {
            Some(x) => x,
            None => {
                proof {
                    assert forall|m: ZChatDescriptorModel| descriptor_cbor(m) != bytes@ by {
                        if descriptor_cbor(m) == bytes@ {
                            lemma_descriptor_pieces(bytes@, m);
                            assert(prefix_at(bytes@, p1 as int, cbor_text(m.name)));
                        }
                    }
                }
                return Err(decode_error());
            },
        };
        if v > 0xffff_ffff {
            proof {
                assert forall|m: ZChatDescriptorModel| descriptor_cbor(m) != bytes@ by {
                    if descriptor_cbor(m) == bytes@ {
                        lemma_descriptor_pieces(bytes@, m);
                        assert(prefix_at(bytes@, p1 as int, cbor_text(m.name)));
                        assert(prefix_at(bytes@, p3 as int, cbor_uint(m.version as u64)));
                    }
                }
            }
            return Err(decode_error());
        }
        let k = proof_required_key_bytes();
        let p5 = match expect_key(bytes, p4, k.as_slice()) {
            Some(p) => p,
            None => {
                proof {
                    assert forall|m: ZChatDescriptorModel| descriptor_cbor(m) != bytes@ by {
                        if descriptor_cbor(m) == bytes@ {
                            lemma_descriptor_pieces(bytes@, m);
                            assert(prefix_at(bytes@, p1 as int, cbor_text(m.name)));
                            assert(prefix_at(bytes@, p3 as int, cbor_uint(m.version as u64)));
                        }
                    }
                }
                return Err(decode_error());
            },
        };
        let (b, p6) = match read_bool(bytes, p5) {
            Some(x) => x,
            None => {
                proof {
                    assert forall|m: ZChatDescriptorModel| descriptor_cbor(m) != bytes@ by {
                        if descriptor_cbor(m) == bytes@ {
                            lemma_descriptor_pieces(bytes@, m);
                            assert(prefix_at(bytes@, p1 as int, cbor_text(m.name)));
                            assert(prefix_at(bytes@, p3 as int, cbor_uint(m.version as u64)));
                        }
                    }
                }
                return Err(decode_error());
            },
        };
        if p6 != bytes.len() {
            proof {
                assert forall|m: ZChatDescriptorModel| descriptor_cbor(m) != bytes@ by {
                    if descriptor_cbor(m) == bytes@ {
                        lemma_descriptor_pieces(bytes@, m);
                        assert(prefix_at(bytes@, p1 as int, cbor_text(m.name)));
                        assert(prefix_at(bytes@, p3 as int, cbor_uint(m.version as u64)));
                        assert(prefix_at(bytes@, p5 as int, cbor_bool(m.proof_required)));
                    }
                }
            }
            return Err(decode_error());
        }
        let d = ZChatDescriptor { name, version: v as u32, proof_required: b };
        proof {
            let a0 = cbor_map(3);
            let a1 = cbor_key(name_key());
            let a2 = cbor_text(d.name@);
            let a3 = cbor_key(version_key());
            let a4 = cbor_uint(d.version as u64);
            let a5 = cbor_key(proof_required_key());
            let a6 = cbor_bool(d.proof_required);
            lemma_prefix_concat(bytes@, 0, a0, a1);
            lemma_prefix_concat(bytes@, 0, a0 + a1, a2);
            lemma_prefix_concat(bytes@, 0, a0 + a1 + a2, a3);
            lemma_prefix_concat(bytes@, 0, a0 + a1 + a2 + a3, a4);
            lemma_prefix_concat(bytes@, 0, a0 + a1 + a2 + a3 + a4, a5);
            lemma_prefix_concat(bytes@, 0, a0 + a1 + a2 + a3 + a4 + a5, a6);
            assert(bytes@.subrange(0, bytes@.len() as int) =~= bytes@);
        }
        Ok(d)
    }

    /// Derive the program id: the SHA-256 hash of the canonical encoding.
    pub fn program_id(&self) -> (r: Result<ProgramId, ZfsError>)
        ensures
            r matches Ok(pid) && pid.0@ == sha256_spec(descriptor_cbor(self@)),
    {
        let canonical = match self.encode_canonical() {
            Ok(b) => b,
            Err(e) => return Err(e),
        };
        Ok(ProgramId::from_descriptor_bytes(canonical.as_slice()))
    }

    /// The gossip topic of this program: `prog/` and the hex form of its id.
    pub fn topic(&self) -> (r: Result<String, ZfsError>)
        ensures
            r matches Ok(t) && t@ == topic_prefix() + hex_spec(sha256_spec(descriptor_cbor(self@))),
    {
        let pid = match self.program_id() {
            Ok(p) => p,
            Err(e) => return Err(e),
        };
        Ok(program_topic(&pid))
    }
}

/// Logical channel identifier for Interlink: an arbitrary byte string.
#[derive(Debug, Clone, PartialEq, Eq, Hash)]
pub struct ChannelId(Vec<u8>);

impl View for ChannelId {
    type V = Seq<u8>;

    closed spec fn view(&self) -> Seq<u8> {
        self.0@
    }
}

/// The bytes hashed into the sector id of a channel:
/// `zchat/channel/` followed by the channel id.
pub open spec fn channel_sector_input(channel: Seq<u8>) -> Seq<u8> {
    channel_sector_prefix() + channel
}

/// The bytes hashed into the sector id of a message:
/// `zchat/msg/`, the channel id, `/`, the timestamp (little-endian), `/`,
/// and the sender's DID.
pub open spec fn message_sector_input(channel: Seq<u8>, timestamp_ms: u64, sender: Seq<u8>) -> Seq<
    u8,
> {
    message_sector_prefix() + channel + seq![0x2f] + u64_le(timestamp_ms) + seq![0x2f] + sender
}

impl ChannelId {
    pub fn new(bytes: Vec<u8>) -> (r: Self)
        ensures
            r@ == bytes@,
    {
        ChannelId(bytes)
    }

    /// The channel whose id is the UTF-8 bytes of `s`.
    pub fn from_str_id(s: &str) -> (r: Self)
        ensures
            r@ == s.spec_bytes(),
    {
        ChannelId(vstd::slice::slice_to_vec(s.as_bytes()))
    }

    pub fn as_bytes(&self) -> (r: &[u8])
        ensures
            r@ == self@,
    {
        self.0.as_slice()
    }

    /// The sector id of this channel:
    /// `SHA-256("zchat/channel/" || channel_id_bytes)`.
    pub fn sector_id(&self) -> (r: SectorId)
        ensures
            r.0@ == sha256_spec(channel_sector_input(self@)),
            r.0@.len() == 32,
    {
        sector_id_for_channel(self)
    }
}

/// Derive the sector id of a channel:
/// `SHA-256("zchat/channel/" || channel_id_bytes)`.
pub fn sector_id_for_channel(channel_id: &ChannelId) -> (r: SectorId)
    ensures
        r.0@ == sha256_spec(channel_sector_input(channel_id@)),
        r.0@.len() == 32,
{
    let prefix: [u8; 14] = [
        0x7a,
        0x63,
        0x68,
        0x61,
        0x74,
        0x2f,
        0x63,
        0x68,
        0x61,
        0x6e,
        0x6e,
        0x65,
        0x6c,
        0x2f,
    ];
    assert(prefix@ =~= channel_sector_prefix());
    let mut input: Vec<u8> = Vec::new();
    push_bytes(&mut input, prefix.as_slice());
    push_bytes(&mut input, channel_id.as_bytes());
    let hash = sha256(input.as_slice());
    SectorId::from_bytes(vstd::slice::slice_to_vec(hash.as_slice()))
}

/// Derive the write-once sector id of a single chat message:
/// `SHA-256("zchat/msg/" || channel_id || "/" || timestamp_ms_le || "/" || sender_did)`.
pub fn sector_id_for_message(channel_id: &ChannelId, timestamp_ms: u64, sender_did: &str) -> (r:
    SectorId)
    ensures
        r.0@ == sha256_spec(
            message_sector_input(channel_id@, timestamp_ms, sender_did.spec_bytes()),
        ),
        r.0@.len() == 32,
{
    let prefix: [u8; 10] = [0x7a, 0x63, 0x68, 0x61, 0x74, 0x2f, 0x6d, 0x73, 0x67, 0x2f];
    assert(prefix@ =~= message_sector_prefix());
    let mut input: Vec<u8> = Vec::new();
    push_bytes(&mut input, prefix.as_slice());
    push_bytes(&mut input, channel_id.as_bytes());
    input.push(0x2f);
    push_u64_le(&mut input, timestamp_ms);
    input.push(0x2f);
    push_bytes(&mut input, sender_did.as_bytes());
    assert(input@ =~= message_sector_input(channel_id@, timestamp_ms, sender_did.spec_bytes()));
    let hash = sha256(input.as_slice());
    SectorId::from_bytes(vstd::slice::slice_to_vec(hash.as_slice()))
}

/// Model of a [`ZChatMessage`].
pub struct ZChatMessageModel {
    pub sender_did: Seq<char>,
    pub channel_id: Seq<u8>,
    pub content: Seq<char>,
    pub timestamp_ms: u64,
}

/// An Interlink message. Its canonical encoding may be at most
/// [`MAX_MESSAGE_SIZE`] bytes long.
#[derive(Debug, Clone, PartialEq, Eq)]
pub struct ZChatMessage {
    /// DID of the sender.
    pub sender_did: String,
    /// Channel this message belongs to.
    pub channel_id: ChannelId,
    /// Message content (UTF-8 text).
    pub content: String,
    /// Timestamp (milliseconds since epoch).
    pub timestamp_ms: u64,
}

impl View for ZChatMessage {
    type V = ZChatMessageModel;

    open spec fn view(&self) -> ZChatMessageModel {
        ZChatMessageModel {
            sender_did: self.sender_did@,
            channel_id: self.channel_id@,
            content: self.content@,
            timestamp_ms: self.timestamp_ms,
        }
    }
}

/// The canonical encoding of a message: a map of four entries, keyed
/// `content`, `channel_id`, `sender_did`, `timestamp_ms` (shortest key
/// first, then bytewise).
pub open spec fn message_cbor(m: ZChatMessageModel) -> Seq<u8> {
    cbor_map(4) + cbor_key(content_key()) + cbor_text(m.content) + cbor_key(channel_id_key())
        + cbor_bytes(m.channel_id) + cbor_key(sender_did_key()) + cbor_text(m.sender_did) + cbor_key(
        timestamp_ms_key(),
    ) + cbor_uint(m.timestamp_ms)
}

/// The message of the error for an encoding of `len` bytes.
pub open spec fn oversize_text(len: nat) -> Seq<char> {
    "ZChatMessage exceeds max size: "@ + dec_chars(len) + " > "@ + dec_chars(
        MAX_MESSAGE_SIZE as nat,
    )
}

/// Where each entry of a message's encoding stands.
proof fn lemma_message_pieces(bytes: Seq<u8>, m: ZChatMessageModel)
    requires
        bytes == message_cbor(m),
    ensures
        ({
            let a0 = cbor_map(4);
            let a1 = cbor_key(content_key());
            let a2 = cbor_text(m.content);
            let a3 = cbor_key(channel_id_key());
            let a4 = cbor_bytes(m.channel_id);
            let a5 = cbor_key(sender_did_key());
            let a6 = cbor_text(m.sender_did);
            let a7 = cbor_key(timestamp_ms_key());
            let a8 = cbor_uint(m.timestamp_ms);
            let o1 = a0.len() as int;
            let o2: int = o1 + a1.len();
            let o3 = o2 + a2.len();
            let o4: int = o3 + a3.len();
            let o5 = o4 + a4.len();
            let o6: int = o5 + a5.len();
            let o7 = o6 + a6.len();
            let o8: int = o7 + a7.len();
            &&& prefix_at(bytes, 0, a0)
            &&& prefix_at(bytes, o1, a1)
            &&& prefix_at(bytes, o2, a2)
            &&& prefix_at(bytes, o3, a3)
            &&& prefix_at(bytes, o4, a4)
            &&& prefix_at(bytes, o5, a5)
            &&& prefix_at(bytes, o6, a6)
            &&& prefix_at(bytes, o7, a7)
            &&& prefix_at(bytes, o8, a8)
            &&& bytes.len() == o8 + a8.len()
        }),
{
    let a0 = cbor_map(4);
    let a1 = cbor_key(content_key());
    let a2 = cbor_text(m.content);
    let a3 = cbor_key(channel_id_key());
    let a4 = cbor_bytes(m.channel_id);
    let a5 = cbor_key(sender_did_key());
    let a6 = cbor_text(m.sender_did);
    let a7 = cbor_key(timestamp_ms_key());
    let a8 = cbor_uint(m.timestamp_ms);
    assert(bytes.subrange(0, bytes.len() as int) =~= bytes);
    lemma_prefix_concat(bytes, 0, a0 + a1 + a2 + a3 + a4 + a5 + a6 + a7, a8);
    lemma_prefix_concat(bytes, 0, a0 + a1 + a2 + a3 + a4 + a5 + a6, a7);
    lemma_prefix_concat(bytes, 0, a0 + a1 + a2 + a3 + a4 + a5, a6);
    lemma_prefix_concat(bytes, 0, a0 + a1 + a2 + a3 + a4, a5);
    lemma_prefix_concat(bytes, 0, a0 + a1 + a2 + a3, a4);
    lemma_prefix_concat(bytes, 0, a0 + a1 + a2, a3);
    lemma_prefix_concat(bytes, 0, a0 + a1, a2);
    lemma_prefix_concat(bytes, 0, a0, a1);
}

impl ZChatMessage {
    /// Encode to canonical bytes; an encoding longer than
    /// [`MAX_MESSAGE_SIZE`] is refused.
    pub fn encode_canonical(&self) -> (r: Result<Vec<u8>, ZfsError>)
        ensures
            match r {
                Ok(b) => b@ == message_cbor(self@) && b@.len() <= MAX_MESSAGE_SIZE,
                Err(e) => {
                    &&& message_cbor(self@).len() > MAX_MESSAGE_SIZE
                    &&& e matches ZfsError::InvalidPayload(t)
                    &&& t@ == oversize_text(message_cbor(self@).len())
                },
            },
    {
        let mut out: Vec<u8> = Vec::new();
        push_map(&mut out, 4);
        let k = content_key_bytes();
        push_key(&mut out, k.as_slice());
        push_text(&mut out, self.content.as_str());
        let k = channel_id_key_bytes();
        push_key(&mut out, k.as_slice());
        push_byte_string(&mut out, self.channel_id.as_bytes());
        let k = sender_did_key_bytes();
        push_key(&mut out, k.as_slice());
        push_text(&mut out, self.sender_did.as_str());
        let k = timestamp_ms_key_bytes();
        push_key(&mut out, k.as_slice());
        push_uint(&mut out, self.timestamp_ms);
        assert(out@ =~= message_cbor(self@));
        if out.len() > MAX_MESSAGE_SIZE {
            let mut t = String::from_str("ZChatMessage exceeds max size: ");
            push_decimal(&mut t, out.len() as u64);
            t.append(" > ");
            push_decimal(&mut t, MAX_MESSAGE_SIZE as u64);
            assert(t@ =~= oversize_text(message_cbor(self@).len()));
            return Err(ZfsError::InvalidPayload(t));
        }
        Ok(out)
    }

    /// Decode from canonical bytes: succeeds exactly on the encodings of
    /// messages (of any size).
    #[verifier::spinoff_prover]
    #[verifier::rlimit(40)]
    pub fn decode_canonical(bytes: &[u8]) -> (r: Result<Self, ZfsError>)
        ensures
            match r {
                Ok(m) => bytes@ == message_cbor(m@),
                Err(e) => e is Decode && forall|m: ZChatMessageModel| message_cbor(m) != bytes@,
            },
    {
        let p0 = match expect_head(bytes, 0, 5, 4) {
            Some(p) => p,
            None => {
                proof {
                    assert forall|m: ZChatMessageModel| message_cbor(m) != bytes@ by {
                        if message_cbor(m) == bytes@ {
                            lemma_message_pieces(bytes@, m);
                        }
                    }
                }
                return Err(decode_error());
            },
        };
        let k = content_key_bytes();
        let p1 = match expect_key(bytes, p0, k.as_slice()) {
            Some(p) => p,
            None => {
                proof {
                    assert forall|m: ZChatMessageModel| message_cbor(m) != bytes@ by {
                        if message_cbor(m) == bytes@ {
                            lemma_message_pieces(bytes@, m);
                        }
                    }
                }
                return Err(decode_error());
            },
        };
        let (content, p2) = match read_text(bytes, p1) {
            Some(x) => x,
            None => {
                proof {
                    assert forall|m: ZChatMessageModel| message_cbor(m) != bytes@ by {
                        if message_cbor(m) == bytes@ {
                            lemma_message_pieces(bytes@, m);
                        }
                    }
                }
                return Err(decode_error());
            },
        };
        let k = channel_id_key_bytes();
        let p3 = match expect_key(bytes, p2, k.as_slice()) {
            Some(p) => p,
            None => {
                proof {
                    assert forall|m: ZChatMessageModel| message_cbor(m) != bytes@ by {
                        if message_cbor(m) == bytes@ {
                            lemma_message_pieces(bytes@, m);
                            assert(prefix_at(bytes@, p1 as int, cbor_text(m.content)));
                        }
                    }
                }
                return Err(decode_error());
            },
        };
        let (channel, p4) = match read_byte_string(bytes, p3) {
            Some(x) => x,
            None => {
                proof {
                    assert forall|m: ZChatMessageModel| message_cbor(m) != bytes@ by {
                        if message_cbor(m) == bytes@ {
                            lemma_message_pieces(bytes@, m);
                            assert(prefix_at(bytes@, p1 as int, cbor_text(m.content)));
                        }
                    }
                }
                return Err(decode_error());
            },
        };
        let k = sender_did_key_bytes();
        let p5 = match expect_key(bytes, p4, k.as_slice()) {
            Some(p) => p,
            None => {
                proof {
                    assert forall|m: ZChatMessageModel| message_cbor(m) != bytes@ by {
                        if message_cbor(m) == bytes@ {
                            lemma_message_pieces(bytes@, m);
                            assert(prefix_at(bytes@, p1 as int, cbor_text(m.content)));
                            assert(prefix_at(bytes@, p3 as int, cbor_bytes(m.channel_id)));
                        }
                    }
                }
                return Err(decode_error());
            },
        };
        let (sender, p6) = match read_text(bytes, p5) {
            Some(x) => x,
            None => {
                proof {
                    assert forall|m: ZChatMessageModel| message_cbor(m) != bytes@ by {
                        if message_cbor(m) == bytes@ {
                            lemma_message_pieces(bytes@, m);
                            assert(prefix_at(bytes@, p1 as int, cbor_text(m.content)));
                            assert(prefix_at(bytes@, p3 as int, cbor_bytes(m.channel_id)));
                        }
                    }
                }
                return Err(decode_error());
            },
        };
        let k = timestamp_ms_key_bytes();
        let p7 = match expect_key(bytes, p6, k.as_slice()) {
            Some(p) => p,
            None => {
                proof {
                    assert forall|m: ZChatMessageModel| message_cbor(m) != bytes@ by {
                        if message_cbor(m) == bytes@ {
                            lemma_message_pieces(bytes@, m);
                            assert(prefix_at(bytes@, p1 as int, cbor_text(m.content)));
                            assert(prefix_at(bytes@, p3 as int, cbor_bytes(m.channel_id)));
                            assert(prefix_at(bytes@, p5 as int, cbor_text(m.sender_did)));
                        }
                    }
                }
                return Err(decode_error());
            },
        };
        let (ts, p8) = match read_uint(bytes, p7) {
            Some(x) => x,
            None => {
                proof {
                    assert forall|m: ZChatMessageModel| message_cbor(m) != bytes@ by {
                        if message_cbor(m) == bytes@ {
                            lemma_message_pieces(bytes@, m);
                            assert(prefix_at(bytes@, p1 as int, cbor_text(m.content)));
                            assert(prefix_at(bytes@, p3 as int, cbor_bytes(m.channel_id)));
                            assert(prefix_at(bytes@, p5 as int, cbor_text(m.sender_did)));
                        }
                    }
                }
                return Err(decode_error());
            },
        };
        if p8 != bytes.len() {
            proof {
                assert forall|m: ZChatMessageModel| message_cbor(m) != bytes@ by {
                    if message_cbor(m) == bytes@ {
                        lemma_message_pieces(bytes@, m);
                        assert(prefix_at(bytes@, p1 as int, cbor_text(m.content)));
                        assert(prefix_at(bytes@, p3 as int, cbor_bytes(m.channel_id)));
                        assert(prefix_at(bytes@, p5 as int, cbor_text(m.sender_did)));
                        assert(prefix_at(bytes@, p7 as int, cbor_uint(m.timestamp_ms)));
                    }
                }
            }
            return Err(decode_error());
        }
        let msg = ZChatMessage {
            sender_did: sender,
            channel_id: ChannelId::new(channel),
            content,
            timestamp_ms: ts,
        };
        proof {
            let a0 = cbor_map(4);
            let a1 = cbor_key(content_key());
            let a2 = cbor_text(msg@.content);
            let a3 = cbor_key(channel_id_key());
            let a4 = cbor_bytes(msg@.channel_id);
            let a5 = cbor_key(sender_did_key());
            let a6 = cbor_text(msg@.sender_did);
            let a7 = cbor_key(timestamp_ms_key());
            let a8 = cbor_uint(msg@.timestamp_ms);
            lemma_prefix_concat(bytes@, 0, a0, a1);
            lemma_prefix_concat(bytes@, 0, a0 + a1, a2);
            lemma_prefix_concat(bytes@, 0, a0 + a1 + a2, a3);
            lemma_prefix_concat(bytes@, 0, a0 + a1 + a2 + a3, a4);
            lemma_prefix_concat(bytes@, 0, a0 + a1 + a2 + a3 + a4, a5);
            lemma_prefix_concat(bytes@, 0, a0 + a1 + a2 + a3 + a4 + a5, a6);
            lemma_prefix_concat(bytes@, 0, a0 + a1 + a2 + a3 + a4 + a5 + a6, a7);
            lemma_prefix_concat(bytes@, 0, a0 + a1 + a2 + a3 + a4 + a5 + a6 + a7, a8);
            assert(bytes@.subrange(0, bytes@.len() as int) =~= bytes@);
        }
        Ok(msg)
    }
}

/// Decoding inverts encoding for descriptors: two descriptors with the
/// same canonical encoding are equal. With the contracts of
/// `encode_canonical` and `decode_canonical`, decoding the encoding of a
/// descriptor gives that descriptor back.
pub proof fn law_descriptor_decode_inverts_encode(a: ZChatDescriptorModel, b: ZChatDescriptorModel)
    requires
        descriptor_cbor(a) == descriptor_cbor(b),
        descriptor_cbor(a).len() <= usize::MAX,
    ensures
        a == b,
{
    let s = descriptor_cbor(a);
    lemma_descriptor_pieces(s, a);
    lemma_descriptor_pieces(s, b);
    let o2: int = cbor_map(3).len() as int + cbor_key(name_key()).len();
    lemma_text_unique(s, o2, a.name, b.name);
    let o4: int = o2 + cbor_text(a.name).len() + cbor_key(version_key()).len();
    lemma_uint_unique(s, o4, a.version as u64, b.version as u64);
    let o6: int = o4 + cbor_uint(a.version as u64).len() + cbor_key(proof_required_key()).len();
    lemma_bool_unique(s, o6, a.proof_required, b.proof_required);
}

/// Decoding inverts encoding for messages: two messages with the same
/// canonical encoding are equal. With the contracts of `encode_canonical`
/// and `decode_canonical`, decoding the encoding of a message gives that
/// message back.
pub proof fn law_message_decode_inverts_encode(a: ZChatMessageModel, b: ZChatMessageModel)
    requires
        message_cbor(a) == message_cbor(b),
        message_cbor(a).len() <= usize::MAX,
    ensures
        a == b,
{
    let s = message_cbor(a);
    lemma_message_pieces(s, a);
    lemma_message_pieces(s, b);
    let o2: int = cbor_map(4).len() as int + cbor_key(content_key()).len();
    lemma_text_unique(s, o2, a.content, b.content);
    let o4: int = o2 + cbor_text(a.content).len() + cbor_key(channel_id_key()).len();
    lemma_bytes_unique(s, o4, a.channel_id, b.channel_id);
    let o6: int = o4 + cbor_bytes(a.channel_id).len() + cbor_key(sender_did_key()).len();
    lemma_text_unique(s, o6, a.sender_did, b.sender_did);
    let o8: int = o6 + cbor_text(a.sender_did).len() + cbor_key(timestamp_ms_key()).len();
    lemma_uint_unique(s, o8, a.timestamp_ms, b.timestamp_ms);
}

} // verus!
