//! Core data types of the Zephyr payment protocol: notes, spends, blocks,
//! votes and finality certificates, each with a mathematical model.
use vstd::prelude::*;

verus! {

/// Zone identifier.
pub type ZoneId = u32;

/// Epoch identifier.
pub type EpochId = u64;

/// A note commitment: `C = Poseidon(value || owner_pubkey || r)`.
#[derive(Debug, Clone, Copy, PartialEq, Eq, Hash)]
pub struct NoteCommitment(pub [u8; 32]);

/// A nullifier: `N = Poseidon(owner_secret || C)`.
#[derive(Debug, Clone, Copy, PartialEq, Eq, Hash)]
pub struct Nullifier(pub [u8; 32]);

impl Nullifier {
    /// The raw nullifier bytes.
    pub fn as_ref(&self) -> (r: &[u8])
        ensures
            r@ == self.0@,
    {
        self.0.as_slice()
    }
}

impl NoteCommitment {
    /// The raw commitment bytes.
    pub fn as_ref(&self) -> (r: &[u8])
        ensures
            r@ == self.0@,
    {
        self.0.as_slice()
    }
}

/// Copies a vector of 32-byte words.
pub fn copy_words(v: &Vec<[u8; 32]>) -> (r: Vec<[u8; 32]>)
    ensures
        r@ == v@,
{
    let mut r: Vec<[u8; 32]> = Vec::new();
    let mut i: usize = 0;
    while i < v.len()
        invariant
            i <= v.len(),
            r@ == v@.subrange(0, i as int),
        decreases v.len() - i,
    {
        r.push(v[i]);
        i += 1;
    }
    assert(r@ =~= v@);
    r
}

/// Copies a byte vector.
pub fn copy_bytes(v: &Vec<u8>) -> (r: Vec<u8>)
    ensures
        r@ == v@,
{
    let r = v.clone();
    assert(r@ =~= v@);
    r
}

/// Model of a [`NoteOutput`].
pub struct NoteOutputModel {
    pub commitment: NoteCommitment,
    pub encrypted_data: Seq<u8>,
}

/// An output note in a spend transaction.
#[derive(Debug, PartialEq, Eq)]
pub struct NoteOutput {
    pub commitment: NoteCommitment,
    pub encrypted_data: Vec<u8>,
}

impl View for NoteOutput {
    type V = NoteOutputModel;

    open spec fn view(&self) -> NoteOutputModel {
        NoteOutputModel { commitment: self.commitment, encrypted_data: self.encrypted_data@ }
    }
}

impl Clone for NoteOutput {
    fn clone(&self) -> (res: Self)
        ensures
            res@ == self@,
    {
        NoteOutput { commitment: self.commitment, encrypted_data: copy_bytes(&self.encrypted_data) }
    }
}

/// Model of a list of note outputs.
pub open spec fn outputs_model(v: Seq<NoteOutput>) -> Seq<NoteOutputModel> {
    v.map_values(|o: NoteOutput| o@)
}

/// Copies a vector of note outputs.
pub fn copy_outputs(v: &Vec<NoteOutput>) -> (r: Vec<NoteOutput>)
    ensures
        outputs_model(r@) == outputs_model(v@),
{
    let mut r: Vec<NoteOutput> = Vec::new();
    let mut i: usize = 0;
    while i < v.len()
        invariant
            i <= v.len(),
            r@.len() == i,
            forall|j: int| 0 <= j < i ==> #[trigger] r@[j]@ == v@[j]@,
        decreases v.len() - i,
    {
        let x = v[i].clone();
        r.push(x);
        i += 1;
    }
    assert(outputs_model(r@) =~= outputs_model(v@));
    r
}

/// Model of a [`SpendTransaction`].
pub struct SpendModel {
    pub input_commitment: NoteCommitment,
    pub nullifier: Nullifier,
    pub outputs: Seq<NoteOutputModel>,
    pub proof: Seq<u8>,
    pub public_signals: Seq<[u8; 32]>,
}

/// A spend transaction with ZK proof.
#[derive(Debug, PartialEq, Eq)]
pub struct SpendTransaction {
    pub input_commitment: NoteCommitment,
    pub nullifier: Nullifier,
    pub outputs: Vec<NoteOutput>,
    pub proof: Vec<u8>,
    pub public_signals: Vec<[u8; 32]>,
}

impl View for SpendTransaction {
    type V = SpendModel;

    open spec fn view(&self) -> SpendModel {
        SpendModel {
            input_commitment: self.input_commitment,
            nullifier: self.nullifier,
            outputs: outputs_model(self.outputs@),
            proof: self.proof@,
            public_signals: self.public_signals@,
        }
    }
}

impl Clone for SpendTransaction {
    fn clone(&self) -> (res: Self)
        ensures
            res@ == self@,
    {
        SpendTransaction {
            input_commitment: self.input_commitment,
            nullifier: self.nullifier,
            outputs: copy_outputs(&self.outputs),
            proof: copy_bytes(&self.proof),
            public_signals: copy_words(&self.public_signals),
        }
    }
}

/// Model of a list of spends.
pub open spec fn spends_model(v: Seq<SpendTransaction>) -> Seq<SpendModel> {
    v.map_values(|s: SpendTransaction| s@)
}

/// The nullifiers of a list of spend models, in order.
pub open spec fn nullifiers_of(v: Seq<SpendModel>) -> Seq<Nullifier> {
    v.map_values(|s: SpendModel| s.nullifier)
}

/// Copies a vector of spends.
pub fn copy_spends(v: &Vec<SpendTransaction>) -> (r: Vec<SpendTransaction>)
    ensures
        spends_model(r@) == spends_model(v@),
{
    let mut r: Vec<SpendTransaction> = Vec::new();
    let mut i: usize = 0;
    while i < v.len()
        invariant
            i <= v.len(),
            r@.len() == i,
            forall|j: int| 0 <= j < i ==> #[trigger] r@[j]@ == v@[j]@,
        decreases v.len() - i,
    {
        let x = v[i].clone();
        r.push(x);
        i += 1;
    }
    assert(spends_model(r@) =~= spends_model(v@));
    r
}

/// Model of a [`ValidatorInfo`].
pub struct ValidatorModel {
    pub validator_id: [u8; 32],
    pub pubkey: [u8; 32],
    pub p2p_endpoint: Seq<char>,
}

/// A validator in the global pool.
#[derive(Debug, PartialEq, Eq)]
pub struct ValidatorInfo {
    pub validator_id: [u8; 32],
    pub pubkey: [u8; 32],
    pub p2p_endpoint: String,
}

impl View for ValidatorInfo {
    type V = ValidatorModel;

    open spec fn view(&self) -> ValidatorModel {
        ValidatorModel {
            validator_id: self.validator_id,
            pubkey: self.pubkey,
            p2p_endpoint: self.p2p_endpoint@,
        }
    }
}

impl Clone for ValidatorInfo {
    fn clone(&self) -> (res: Self)
        ensures
            res@ == self@,
    {
        ValidatorInfo {
            validator_id: self.validator_id,
            pubkey: self.pubkey,
            p2p_endpoint: self.p2p_endpoint.clone(),
        }
    }
}

/// Model of a committee: the validators' models in order.
pub open spec fn validators_model(v: Seq<ValidatorInfo>) -> Seq<ValidatorModel> {
    v.map_values(|x: ValidatorInfo| x@)
}

/// The validator ids of a committee, in order.
pub open spec fn validator_ids(v: Seq<ValidatorInfo>) -> Seq<[u8; 32]> {
    v.map_values(|x: ValidatorInfo| x.validator_id)
}

/// Copies a list of validators.
pub fn copy_validators(v: &[ValidatorInfo]) -> (r: Vec<ValidatorInfo>)
    ensures
        validators_model(r@) == validators_model(v@),
        validator_ids(r@) == validator_ids(v@),
{
    let mut r: Vec<ValidatorInfo> = Vec::new();
    let mut i: usize = 0;
    while i < v.len()
        invariant
            i <= v.len(),
            r@.len() == i,
            forall|j: int| 0 <= j < i ==> #[trigger] r@[j]@ == v@[j]@,
            forall|j: int| 0 <= j < i ==> #[trigger] r@[j].validator_id == v@[j].validator_id,
        decreases v.len() - i,
    {
        let x = v[i].clone();
        r.push(x);
        i += 1;
    }
    assert(validators_model(r@) =~= validators_model(v@));
    assert(validator_ids(r@) =~= validator_ids(v@));
    r
}

/// Header of a finalized block in a zone chain.
///
/// `block_hash = SHA-256(canonical(BlockHeader))`: since `parent_hash` is in
/// the header, the hash inherently chains blocks.
#[derive(Debug, Clone, Copy, PartialEq, Eq)]
pub struct BlockHeader {
    pub zone_id: ZoneId,
    pub epoch: EpochId,
    pub height: u64,
    pub parent_hash: [u8; 32],
    pub transactions_root: [u8; 32],
    pub timestamp_ms: u64,
    pub proposer_id: [u8; 32],
}

/// Model of a [`Block`].
pub struct BlockModel {
    pub header: BlockHeader,
    pub transactions: Seq<SpendModel>,
    pub block_hash: [u8; 32],
    pub proposer_sig: Seq<u8>,
}

/// A block proposed by a committee leader.
#[derive(Debug, PartialEq, Eq)]
pub struct Block {
    pub header: BlockHeader,
    pub transactions: Vec<SpendTransaction>,
    pub block_hash: [u8; 32],
    pub proposer_sig: Vec<u8>,
}

impl View for Block {
    type V = BlockModel;

    open spec fn view(&self) -> BlockModel {
        BlockModel {
            header: self.header,
            transactions: spends_model(self.transactions@),
            block_hash: self.block_hash,
            proposer_sig: self.proposer_sig@,
        }
    }
}

impl Clone for Block {
    fn clone(&self) -> (res: Self)
        ensures
            res@ == self@,
    {
        Block {
            header: self.header,
            transactions: copy_spends(&self.transactions),
            block_hash: self.block_hash,
            proposer_sig: copy_bytes(&self.proposer_sig),
        }
    }
}

/// Model of a [`BlockVote`].
pub struct VoteModel {
    pub zone_id: ZoneId,
    pub epoch: EpochId,
    pub block_hash: [u8; 32],
    pub voter_id: [u8; 32],
    pub signature: Seq<u8>,
}

/// A vote on a block proposal.
#[derive(Debug, PartialEq, Eq)]
pub struct BlockVote {
    pub zone_id: ZoneId,
    pub epoch: EpochId,
    pub block_hash: [u8; 32],
    pub voter_id: [u8; 32],
    pub signature: Vec<u8>,
}

impl View for BlockVote {
    type V = VoteModel;

    open spec fn view(&self) -> VoteModel {
        VoteModel {
            zone_id: self.zone_id,
            epoch: self.epoch,
            block_hash: self.block_hash,
            voter_id: self.voter_id,
            signature: self.signature@,
        }
    }
}

impl Clone for BlockVote {
    fn clone(&self) -> (res: Self)
        ensures
            res@ == self@,
    {
        BlockVote {
            zone_id: self.zone_id,
            epoch: self.epoch,
            block_hash: self.block_hash,
            voter_id: self.voter_id,
            signature: copy_bytes(&self.signature),
        }
    }
}

/// Model of a [`CertSignature`].
pub struct CertSignatureModel {
    pub validator_id: [u8; 32],
    pub signature: Seq<u8>,
}

/// A validator's signature in a finality certificate.
#[derive(Debug, PartialEq, Eq)]
pub struct CertSignature {
    pub validator_id: [u8; 32],
    pub signature: Vec<u8>,
}

impl View for CertSignature {
    type V = CertSignatureModel;

    open spec fn view(&self) -> CertSignatureModel {
        CertSignatureModel { validator_id: self.validator_id, signature: self.signature@ }
    }
}

impl Clone for CertSignature {
    fn clone(&self) -> (res: Self)
        ensures
            res@ == self@,
    {
        CertSignature { validator_id: self.validator_id, signature: copy_bytes(&self.signature) }
    }
}

/// Model of a list of certificate signatures.
pub open spec fn signatures_model(v: Seq<CertSignature>) -> Seq<CertSignatureModel> {
    v.map_values(|s: CertSignature| s@)
}

/// Copies a list of certificate signatures.
pub fn copy_signatures(v: &Vec<CertSignature>) -> (r: Vec<CertSignature>)
    ensures
        signatures_model(r@) == signatures_model(v@),
{
    let mut r: Vec<CertSignature> = Vec::new();
    let mut i: usize = 0;
    while i < v.len()
        invariant
            i <= v.len(),
            r@.len() == i,
            forall|j: int| 0 <= j < i ==> #[trigger] r@[j]@ == v@[j]@,
        decreases v.len() - i,
    {
        let x = v[i].clone();
        r.push(x);
        i += 1;
    }
    assert(signatures_model(r@) =~= signatures_model(v@));
    r
}

/// Model of a [`FinalityCertificate`].
pub struct CertificateModel {
    pub zone_id: ZoneId,
    pub epoch: EpochId,
    pub height: u64,
    pub parent_hash: [u8; 32],
    pub block_hash: [u8; 32],
    pub signatures: Seq<CertSignatureModel>,
}

/// A finality certificate for a block. The certified `block_hash` is the
/// new zone head; `height` is the height of the certified block.
#[derive(Debug, PartialEq, Eq)]
pub struct FinalityCertificate {
    pub zone_id: ZoneId,
    pub epoch: EpochId,
    pub height: u64,
    pub parent_hash: [u8; 32],
    pub block_hash: [u8; 32],
    pub signatures: Vec<CertSignature>,
}

impl View for FinalityCertificate {
    type V = CertificateModel;

    open spec fn view(&self) -> CertificateModel {
        CertificateModel {
            zone_id: self.zone_id,
            epoch: self.epoch,
            height: self.height,
            parent_hash: self.parent_hash,
            block_hash: self.block_hash,
            signatures: signatures_model(self.signatures@),
        }
    }
}

impl Clone for FinalityCertificate {
    fn clone(&self) -> (res: Self)
        ensures
            res@ == self@,
    {
        FinalityCertificate {
            zone_id: self.zone_id,
            epoch: self.epoch,
            height: self.height,
            parent_hash: self.parent_hash,
            block_hash: self.block_hash,
            signatures: copy_signatures(&self.signatures),
        }
    }
}

/// Model of an optional certificate.
pub open spec fn opt_cert_model(c: Option<FinalityCertificate>) -> Option<CertificateModel> {
    match c {
        Some(c) => Some(c@),
        None => None,
    }
}

/// Model of a list of certificates.
pub open spec fn certs_model(v: Seq<FinalityCertificate>) -> Seq<CertificateModel> {
    v.map_values(|c: FinalityCertificate| c@)
}

} // verus!
