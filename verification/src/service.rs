//! Service descriptors and identities, per-service configuration schema,
//! and the WASM host configuration.
use std::path::{Path, PathBuf};
use std::time::Duration;
use vstd::prelude::*;
use vstd::string::*;
use crate::errors::{GridError, ServiceError};
use crate::hexcode::{hex_decode, hex_decode_spec, hex_encode, hex_spec, lemma_hex_roundtrip};
use vstd::utf8::encode_utf8;
use crate::sector::ProgramId;
use crate::cbor::{cbor_bytes, cbor_head, cbor_map, cbor_text, push_byte_string, push_head, push_map, push_text};
use crate::hashing::{sha256, sha256_spec};

verus! {

#[verifier::external_type_specification]
#[verifier::external_body]
pub struct ExPathBuf(PathBuf);

#[verifier::external_type_specification]
#[verifier::external_body]
pub struct ExPath(Path);

/// A single configurable field exposed by a service.
#[derive(Debug, Clone)]
pub struct ConfigField {
    /// Machine-readable key used in the persisted JSON (e.g. `"self_validate"`).
    pub key: &'static str,
    /// Human-readable label shown in the UI.
    pub label: &'static str,
    /// Tooltip / help text.
    pub description: &'static str,
    /// Type and default value.
    pub field_type: ConfigFieldType,
}

/// The value type and default for a [`ConfigField`].
#[derive(Debug, Clone)]
pub enum ConfigFieldType {
    Bool { default: bool },
    String { default: &'static str },
    U64 { default: u64, min: Option<u64>, max: Option<u64> },
}

/// A program owned by a service, pairing the authoritative [`ProgramId`]
/// with display metadata for the UI.
#[derive(Debug, Clone)]
pub struct OwnedProgram {
    pub name: String,
    pub version: String,
    pub program_id: ProgramId,
}

/// Descriptor of a Grid service: the programs it depends on and the
/// programs it owns.
#[derive(Debug, Clone)]
pub struct ServiceDescriptor {
    /// Human-readable service name (e.g. `"IDENTITY"`).
    pub name: String,
    /// SemVer version string for this service descriptor.
    pub version: String,
    /// Programs this service reads/writes (must already exist on the Zode).
    pub required_programs: Vec<ProgramId>,
    /// Programs this service defines and owns.
    pub owned_programs: Vec<OwnedProgram>,
    /// Short human-readable summary shown in the ZODE UI.
    pub summary: String,
}

/// The ids of a list of owned programs, in order.
pub open spec fn owned_ids(v: Seq<OwnedProgram>) -> Seq<ProgramId> {
    v.map_values(|o: OwnedProgram| o.program_id)
}

impl ServiceDescriptor {
    /// All program IDs this service needs: the required ones, then the
    /// owned ones, each list in its own order.
    pub fn all_program_ids(&self) -> (r: Vec<ProgramId>)
        ensures
            r@ == self.required_programs@ + owned_ids(self.owned_programs@),
    {
        let mut ids: Vec<ProgramId> = Vec::new();
        let mut i: usize = 0;
        while i < self.required_programs.len()
            invariant
                i <= self.required_programs.len(),
                ids@ == self.required_programs@.subrange(0, i as int),
            decreases self.required_programs.len() - i,
        {
            ids.push(self.required_programs[i]);
            i += 1;
            assert(ids@ =~= self.required_programs@.subrange(0, i as int));
        }
        let mut j: usize = 0;
        while j < self.owned_programs.len()
            invariant
                j <= self.owned_programs.len(),
                ids@ == self.required_programs@ + owned_ids(self.owned_programs@).subrange(0, j as int),
            decreases self.owned_programs.len() - j,
        {
            ids.push(self.owned_programs[j].program_id);
            j += 1;
            assert(ids@ =~= self.required_programs@ + owned_ids(self.owned_programs@).subrange(0, j as int));
        }
        assert(owned_ids(self.owned_programs@).subrange(0, j as int) =~= owned_ids(self.owned_programs@));
        ids
    }
}

/// 32-byte service identity: the SHA-256 hash of the canonical service
/// descriptor.
#[derive(Clone, Copy, PartialEq, Eq, Hash, Debug)]
pub struct ServiceId([u8; 32]);

impl View for ServiceId {
    type V = Seq<u8>;

    closed spec fn view(&self) -> Seq<u8> {
        self.0@
    }
}

/// What [`ServiceId::from_hex`] decodes `text` to, when it is the hex form
/// of exactly 32 bytes.
pub open spec fn service_id_hex_bytes(text: Seq<u8>) -> Option<Seq<u8>> {
    match hex_decode_spec(text) {
        Some(b) => if b.len() == 32 { Some(b) } else { None },
        None => None,
    }
}

impl ServiceId {
    /// Every id holds exactly 32 bytes.
    pub proof fn lemma_len(&self)
        ensures
            self@.len() == 32,
    {
    }

    /// Return the raw 32-byte hash.
    pub fn as_bytes(&self) -> (r: &[u8; 32])
        ensures
            r@ == self@,
    {
        &self.0
    }

    /// Hex-encode the 32-byte id (64 lower-case digits).
    pub fn to_hex(&self) -> (r: String)
        ensures
            r@ == hex_spec(self@),
    {
        hex_encode(self.0.as_slice())
    }

    /// Parse a [`ServiceId`] from a 64-char hex string.
    pub fn from_hex(s: &str) -> (r: Result<Self, GridError>)
        ensures
            match r {
                Ok(id) => service_id_hex_bytes(s.spec_bytes()) == Some(id@),
                Err(e) => service_id_hex_bytes(s.spec_bytes()) is None && e is Decode,
            },
    {
        match hex_decode(s) {
            Err(msg) => Err(GridError::Decode(msg)),
            Ok(bytes) => {
                if bytes.len() != 32 {
                    return Err(
                        GridError::Decode(
                            String::from_str("ServiceId hex must decode to exactly 32 bytes"),
                        ),
                    );
                }
                let mut arr = [0u8; 32];
                let mut i: usize = 0;
                while i < 32
                    invariant
                        bytes@.len() == 32,
                        i <= 32,
                        forall|j: int| 0 <= j < i ==> arr@[j] == bytes@[j],
                    decreases 32 - i,
                {
                    arr[i] = bytes[i];
                    i += 1;
                }
                assert(arr@ =~= bytes@);
                Ok(ServiceId(arr))
            },
        }
    }
}

impl From<[u8; 32]> for ServiceId {
    fn from(bytes: [u8; 32]) -> (r: Self)
        ensures
            r@ == bytes@,
    {
        ServiceId(bytes)
    }
}

impl vstd::std_specs::convert::FromSpecImpl<[u8; 32]> for ServiceId {
    open spec fn obeys_from_spec() -> bool {
        true
    }

    closed spec fn from_spec(bytes: [u8; 32]) -> Self {
        ServiceId(bytes)
    }
}

/// The canonical encodings of program ids, one byte string each, in order.
pub open spec fn program_ids_cbor(ids: Seq<ProgramId>) -> Seq<u8>
    decreases ids.len(),
{
    if ids.len() == 0 {
        Seq::empty()
    } else {
        program_ids_cbor(ids.drop_last()) + cbor_bytes(ids.last().0@)
    }
}

/// The canonical encoding of a service descriptor: a map of its name,
/// version and required programs (shortest key first); the owned programs
/// and the summary do not take part.
pub open spec fn service_descriptor_cbor(name: Seq<char>, version: Seq<char>, required: Seq<ProgramId>) -> Seq<u8> {
    cbor_map(3) + cbor_text(seq!['n', 'a', 'm', 'e']) + cbor_text(name) + cbor_text(
        seq!['v', 'e', 'r', 's', 'i', 'o', 'n'],
    ) + cbor_text(version) + cbor_text(
        seq!['r', 'e', 'q', 'u', 'i', 'r', 'e', 'd', '_', 'p', 'r', 'o', 'g', 'r', 'a', 'm', 's'],
    ) + cbor_head(4, required.len() as u64) + program_ids_cbor(required)
}

/// The gossip topic prefix of services, `svc/`.
pub open spec fn service_topic_prefix() -> Seq<char> {
    seq!['s', 'v', 'c', '/']
}

impl ServiceDescriptor {
    /// The canonical encoding of this descriptor.
    pub fn encode_canonical(&self) -> (r: Vec<u8>)
        ensures
            r@ == service_descriptor_cbor(self.name@, self.version@, self.required_programs@),
    {
        let mut out: Vec<u8> = Vec::new();
        push_map(&mut out, 3);
        push_text(&mut out, "name");
        push_text(&mut out, self.name.as_str());
        push_text(&mut out, "version");
        push_text(&mut out, self.version.as_str());
        push_text(&mut out, "required_programs");
        push_head(&mut out, 4, self.required_programs.len() as u64);
        let ghost head = out@;
        let mut i: usize = 0;
        while i < self.required_programs.len()
            invariant
                i <= self.required_programs@.len(),
                out@ == head + program_ids_cbor(self.required_programs@.subrange(0, i as int)),
            decreases self.required_programs@.len() - i,
        {
            push_byte_string(&mut out, self.required_programs[i].0.as_slice());
            proof {
                let s = self.required_programs@.subrange(0, i + 1);
                assert(s.drop_last() =~= self.required_programs@.subrange(0, i as int));
            }
            i += 1;
        }
        proof {
            reveal_strlit("name");
            reveal_strlit("version");
            reveal_strlit("required_programs");
            assert("name"@ =~= seq!['n', 'a', 'm', 'e']);
            assert("version"@ =~= seq!['v', 'e', 'r', 's', 'i', 'o', 'n']);
            assert("required_programs"@ =~= seq![
                'r', 'e', 'q', 'u', 'i', 'r', 'e', 'd', '_', 'p', 'r', 'o', 'g', 'r', 'a', 'm', 's'
            ]);
            assert(self.required_programs@.subrange(0, i as int) =~= self.required_programs@);
            assert(out@ =~= service_descriptor_cbor(self.name@, self.version@, self.required_programs@));
        }
        out
    }

    /// The deterministic service id: the SHA-256 hash of the canonical
    /// encoding. Encoding cannot fail, so this is always `Ok`.
    pub fn service_id(&self) -> (r: Result<ServiceId, GridError>)
        ensures
            r matches Ok(id) && id@ == sha256_spec(
                service_descriptor_cbor(self.name@, self.version@, self.required_programs@),
            ),
    {
        let bytes = self.encode_canonical();
        let hash = sha256(bytes.as_slice());
        Ok(ServiceId(hash))
    }

    /// The gossip topic for service discovery: `svc/` and the hex form of
    /// the service id.
    pub fn topic(&self) -> (r: Result<String, GridError>)
        ensures
            r matches Ok(t) && t@ == service_topic_prefix() + hex_spec(
                sha256_spec(service_descriptor_cbor(self.name@, self.version@, self.required_programs@)),
            ),
    {
        let id = match self.service_id() {
            Ok(id) => id,
            Err(e) => return Err(e),
        };
        let hex = id.to_hex();
        let mut t = String::from_str("svc/");
        t.append(hex.as_str());
        proof {
            reveal_strlit("svc/");
            assert("svc/"@ =~= service_topic_prefix());
        }
        Ok(t)
    }
}

/// The service id depends on the name, the version and the required
/// programs alone: descriptors that agree on those have the same id,
/// whatever their owned programs and summaries.
pub proof fn law_service_id_ignores_display_fields(a: ServiceDescriptor, b: ServiceDescriptor)
    requires
        a.name@ == b.name@,
        a.version@ == b.version@,
        a.required_programs@ == b.required_programs@,
    ensures
        sha256_spec(service_descriptor_cbor(a.name@, a.version@, a.required_programs@)) == sha256_spec(
            service_descriptor_cbor(b.name@, b.version@, b.required_programs@),
        ),
{
}

/// Parsing the hex form of a service id gives the id back: with the
/// contracts of [`ServiceId::to_hex`] and [`ServiceId::from_hex`],
/// `ServiceId::from_hex(&id.to_hex())` is `Ok` of an id with the same bytes.
pub proof fn law_service_id_hex_roundtrip(id: ServiceId)
    ensures
        service_id_hex_bytes(encode_utf8(hex_spec(id@))) == Some(id@),
{
    id.lemma_len();
    lemma_hex_roundtrip(id@);
}

/// Snapshot info about a registered service.
#[derive(Debug, Clone)]
pub struct ServiceInfo {
    pub id: ServiceId,
    pub descriptor: ServiceDescriptor,
    pub running: bool,
}

/// Allows a service to intercept gossip messages on topics it owns.
///
/// The Zode dispatches incoming gossip to registered handlers before
/// falling through to its default sector path. A handler that returns
/// `true` from `handles_topic` receives the raw bytes of every message on
/// that topic; the default handler is skipped for that message. Delivery
/// itself is done by the runtime.
pub trait ServiceGossipHandler {
    /// Return `true` if this handler should receive messages on `topic`.
    fn handles_topic(&self, topic: &str) -> bool;
}

/// Resource limits for WASM service instances.
#[derive(Debug)]
pub struct WasmResourceLimits {
    /// Max fuel (CPU instructions) per request.
    pub max_fuel_per_request: u64,
    /// Max memory the WASM instance can allocate.
    pub max_memory_bytes: usize,
    /// Max wall-clock time per request.
    pub max_request_duration: Duration,
}

/// Calls `std::time::Duration::from_secs`; the duration value is opaque here.
#[verifier::external_body]
fn duration_from_secs(secs: u64) -> Duration {
    Duration::from_secs(secs)
}

impl Default for WasmResourceLimits {
    /// One billion units of fuel, 64 MiB of memory and 30 seconds per
    /// request.
    fn default() -> (r: Self)
        ensures
            r.max_fuel_per_request == 1_000_000_000,
            r.max_memory_bytes == 64 * 1024 * 1024,
    {
        WasmResourceLimits {
            max_fuel_per_request: 1_000_000_000,
            max_memory_bytes: 64 * 1024 * 1024,
            max_request_duration: duration_from_secs(30),
        }
    }
}

/// Configuration for loading a WASM service module.
#[derive(Debug)]
pub struct WasmServiceConfig {
    pub path: PathBuf,
    pub enabled: bool,
}

/// Load a WASM service component descriptor from disk.
///
/// The WASM runtime is not built into this library, so every call is
/// answered with [`ServiceError::Other`].
pub fn load_descriptor(_path: &Path) -> (r: Result<ServiceDescriptor, ServiceError>)
    ensures
        r matches Err(ServiceError::Other(m)) && m@ == "WASM runtime not enabled — compile with `--features wasm`"@,
{
    Err(ServiceError::Other(String::from_str("WASM runtime not enabled — compile with `--features wasm`")))
}

} // verus!
