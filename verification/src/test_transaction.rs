use vstd::prelude::*;

use blake2::Digest;

use crate::bytes::{byte_lists, copy_bytes};
use crate::decimal::{decimal_string, push_decimal};
use crate::native_addresses::{ED25519_SIGNATURE_VIRTUAL_BADGE, SECP256K1_SIGNATURE_VIRTUAL_BADGE};
use crate::transaction_model::{
    blobs_view, bytes_lt, global_ids_view, is_global_id_set, AuthZoneParams, Decimal, Executable,
    ExecutionContext,
    InstructionV1, NonFungibleGlobalId, TransactionCostingParameters, TransactionIntentHash,
};
use crate::types::{HashBytes, NodeId};

verus! {

/// The tip that a transaction pays when it chooses none.
pub const DEFAULT_TIP_PERCENTAGE: u16 = 0;

/// What the BLAKE2b-256 hash of `data` is.
pub uninterp spec fn blake2b_256_hash(data: Seq<u8>) -> Seq<u8>;

/// Hashes `data` with `blake2::Blake2b<U32>` (BLAKE2b with a 32-byte
/// digest), the hash of transaction ids. The contract ties the digest to the
/// data through `blake2b_256_hash`; the hash function itself is not stated.
#[verifier::external_body]
fn blake2b_256(data: &[u8]) -> (r: HashBytes)
    ensures
        r.0@ == blake2b_256_hash(data@),
{
    HashBytes(blake2::Blake2b::<blake2::digest::consts::U32>::digest(data).into())
}

/// The text whose hash identifies the test transaction of a nonce.
pub open spec fn nonce_message(nonce: u32) -> Seq<char> {
    "Test transaction: "@ + decimal_string(nonce as nat)
}

/// Options of a test transaction.
#[derive(Debug, Clone, Copy, PartialEq, Eq)]
pub struct TestTransactionFlags {
    /// Whether every signature proof is assumed present.
    pub assume_all_signature_proofs: bool,
}

impl Default for TestTransactionFlags {
    fn default() -> (r: Self)
        ensures
            !r.assume_all_signature_proofs,
    {
        TestTransactionFlags { assume_all_signature_proofs: false }
    }
}

/// A transaction manifest: its instructions and its blobs by hash.
#[derive(Debug, Clone, PartialEq, Eq)]
pub struct TransactionManifestV1 {
    pub instructions: Vec<InstructionV1>,
    /// The blobs by their hash, in insertion order.
    pub blobs: Vec<(HashBytes, Vec<u8>)>,
}

/// The contents of the blobs, without their hashes.
pub open spec fn blob_values(v: Seq<(HashBytes, Vec<u8>)>) -> Seq<Seq<u8>> {
    Seq::new(v.len(), |i: int| v[i].1@)
}

impl TransactionManifestV1 {
    /// The instructions and the blob contents, in order, for an intent.
    pub fn for_intent(self) -> (r: (Vec<InstructionV1>, Vec<Vec<u8>>))
        ensures
            r.0 == self.instructions,
            byte_lists(r.1@) == blob_values(self.blobs@),
    {
        let mut blobs: Vec<Vec<u8>> = Vec::new();
        let mut i: usize = 0;
        while i < self.blobs.len()
            invariant
                i <= self.blobs@.len(),
                byte_lists(blobs@) == blob_values(self.blobs@).take(i as int),
            decreases self.blobs@.len() - i,
        {
            let ghost prev = blobs@;
            blobs.push(copy_bytes(&self.blobs[i].1));
            assert(byte_lists(blobs@) =~= byte_lists(prev).push(self.blobs@[i as int].1@));
            assert(byte_lists(blobs@) =~= blob_values(self.blobs@).take(i + 1));
            i = i + 1;
        }
        assert(blob_values(self.blobs@).take(i as int) =~= blob_values(self.blobs@));
        (self.instructions, blobs)
    }
}

/// A transaction for tests: instructions and blobs, identified by a hash.
#[derive(Debug, Clone, PartialEq, Eq)]
pub struct TestTransaction {
    pub instructions: Vec<InstructionV1>,
    pub blobs: Vec<Vec<u8>>,
    pub hash: HashBytes,
    pub flags: TestTransactionFlags,
}

impl TestTransaction {
    /// The test transaction of a manifest, identified by the hash of
    /// `Test transaction: <nonce>`. The nonce needs to be unique amongst the
    /// test transactions of a ledger.
    pub fn new_from_nonce(manifest: TransactionManifestV1, nonce: u32) -> (r: Self)
        ensures
            r.instructions == manifest.instructions,
            byte_lists(r.blobs@) == blob_values(manifest.blobs@),
            r.hash.0@ == blake2b_256_hash(vstd::utf8::encode_utf8(nonce_message(nonce))),
            !r.flags.assume_all_signature_proofs,
    {
        let mut message = String::from_str("Test transaction: ");
        push_decimal(&mut message, nonce);
        let bytes = message.as_str().as_bytes_vec();
        let hash = blake2b_256(bytes.as_slice());
        Self::new(manifest, hash)
    }

    /// The test transaction of a manifest, identified by `hash`.
    pub fn new(manifest: TransactionManifestV1, hash: HashBytes) -> (r: Self)
        ensures
            r.instructions == manifest.instructions,
            byte_lists(r.blobs@) == blob_values(manifest.blobs@),
            r.hash == hash,
            !r.flags.assume_all_signature_proofs,
    {
        let (instructions, blobs) = manifest.for_intent();
        TestTransaction { instructions, blobs, hash, flags: TestTransactionFlags::default() }
    }

    /// The transaction with other flags.
    pub fn with_flags(self, flags: TestTransactionFlags) -> (r: Self)
        ensures
            r == (TestTransaction { flags, ..self }),
    {
        let mut t = self;
        t.flags = flags;
        t
    }
}

/// A test transaction with its instructions encoded and its blobs hashed.
#[derive(Debug, Clone, PartialEq, Eq)]
pub struct PreparedTestTransaction {
    pub encoded_instructions: Vec<u8>,
    /// The nodes the instructions reference, without repeats.
    pub references: Vec<NodeId>,
    /// The blobs by hash, in insertion order.
    pub blobs: Vec<(HashBytes, Vec<u8>)>,
    pub hash: HashBytes,
    pub flags: TestTransactionFlags,
}

/// The total length of the blobs.
pub open spec fn blobs_total_len(v: Seq<(HashBytes, Vec<u8>)>) -> nat
    decreases v.len(),
{
    if v.len() == 0 {
        0
    } else {
        blobs_total_len(v.drop_last()) + v.last().1@.len()
    }
}

/// The resources whose signature proofs a test transaction assumes: both
/// signature badges, in ascending order, where its flags say so.
pub open spec fn assumed_virtual_resources(flags: TestTransactionFlags) -> Seq<[u8; 3]> {
    if flags.assume_all_signature_proofs {
        seq![SECP256K1_SIGNATURE_VIRTUAL_BADGE, ED25519_SIGNATURE_VIRTUAL_BADGE]
    } else {
        Seq::empty()
    }
}

impl PreparedTestTransaction {
    /// The size of the payload: the encoded instructions and the blobs.
    pub open spec fn payload_size(&self) -> nat {
        self.encoded_instructions@.len() + blobs_total_len(self.blobs@)
    }

    /// The executable of the transaction with the given initial proofs (in
    /// ascending order, without repeats). The intent is not checked for
    /// replay, there is no epoch range, no tip and no free credit, and one
    /// signature validation more than there are initial proofs is assumed.
    pub fn get_executable<'a>(&'a self, initial_proofs: Vec<NonFungibleGlobalId>) -> (r: Executable<
        'a,
    >)
        requires
            self.payload_size() <= usize::MAX,
            initial_proofs@.len() < usize::MAX,
            is_global_id_set(global_ids_view(initial_proofs@)),
        ensures
            r.encoded_instructions@ == self.encoded_instructions@,
            r.references == &self.references,
            r.blobs == &self.blobs,
            r.context.intent_hash == (TransactionIntentHash::NotToCheck { intent_hash: self.hash }),
            r.context.epoch_range is None,
            r.context.payload_size == self.payload_size(),
            r.context.num_of_signature_validations == initial_proofs@.len() + 1,
            r.context.auth_zone_params.initial_proofs == initial_proofs,
            r.context.auth_zone_params.virtual_resources@ == assumed_virtual_resources(self.flags),
            r.context.auth_zone_params.wf(),
            r.context.costing_parameters.tip_percentage == DEFAULT_TIP_PERCENTAGE,
            r.context.costing_parameters.free_credit_in_xrd == Decimal(0),
            r.context.pre_allocated_addresses@.len() == 0,
    {
        let mut virtual_resources: Vec<[u8; 3]> = Vec::new();
        if self.flags.assume_all_signature_proofs {
            virtual_resources.push(SECP256K1_SIGNATURE_VIRTUAL_BADGE);
            virtual_resources.push(ED25519_SIGNATURE_VIRTUAL_BADGE);
        }
        assert(virtual_resources@ =~= assumed_virtual_resources(self.flags));
        proof {
            let a = SECP256K1_SIGNATURE_VIRTUAL_BADGE@;
            let b = ED25519_SIGNATURE_VIRTUAL_BADGE@;
            assert(a.drop_first().drop_first() =~= seq![1u8]);
            assert(b.drop_first().drop_first() =~= seq![2u8]);
            assert(bytes_lt(a.drop_first().drop_first(), b.drop_first().drop_first()));
            assert(bytes_lt(a.drop_first(), b.drop_first()));
            assert(bytes_lt(a, b));
        }
        let mut blobs_len: usize = 0;
        let mut i: usize = 0;
        while i < self.blobs.len()
            invariant
                i <= self.blobs@.len(),
                self.payload_size() <= usize::MAX,
                blobs_len == blobs_total_len(self.blobs@.take(i as int)),
            decreases self.blobs@.len() - i,
        {
            assert(self.blobs@.take(i + 1).drop_last() =~= self.blobs@.take(i as int));
            proof {
                lemma_blobs_total_len_prefix(self.blobs@, i + 1);
            }
            blobs_len = blobs_len + self.blobs[i].1.len();
            i = i + 1;
        }
        assert(self.blobs@.take(i as int) =~= self.blobs@);
        let payload_size = self.encoded_instructions.len() + blobs_len;
        let num_of_signature_validations = initial_proofs.len() + 1;
        Executable::new(
            self.encoded_instructions.as_slice(),
            &self.references,
            &self.blobs,
            ExecutionContext {
                intent_hash: TransactionIntentHash::NotToCheck { intent_hash: self.hash },
                epoch_range: None,
                payload_size,
                num_of_signature_validations,
                auth_zone_params: AuthZoneParams { initial_proofs, virtual_resources },
                costing_parameters: TransactionCostingParameters {
                    tip_percentage: DEFAULT_TIP_PERCENTAGE,
                    free_credit_in_xrd: Decimal::zero(),
                },
                pre_allocated_addresses: Vec::new(),
            },
        )
    }
}

/// The blobs of a prefix are no longer than all of them.
proof fn lemma_blobs_total_len_prefix(v: Seq<(HashBytes, Vec<u8>)>, n: int)
    requires
        0 <= n <= v.len(),
    ensures
        blobs_total_len(v.take(n)) <= blobs_total_len(v),
    decreases v.len(),
{
    if n < v.len() {
        assert(v.drop_last().take(n) =~= v.take(n));
        lemma_blobs_total_len_prefix(v.drop_last(), n);
    } else {
        assert(v.take(n) =~= v);
    }
}

} // verus!
