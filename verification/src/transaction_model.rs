use vstd::prelude::*;

use crate::native_addresses::SYSTEM_TRANSACTION_BADGE;
use crate::bytes::{byte_lists, copy_byte_lists, copy_bytes};
use crate::types::{HashBytes, NodeId};

verus! {

/// A fixed-point decimal, counted in units of `10^-18`.
#[derive(Debug, Clone, Copy, PartialEq, Eq)]
pub struct Decimal(pub i128);

impl Decimal {
    /// The decimal zero.
    pub fn zero() -> (r: Self)
        ensures
            r.0 == 0,
    {
        Decimal(0)
    }
}

/// The local id of a non-fungible unit within its resource.
#[derive(Debug, Clone, PartialEq, Eq)]
pub enum NonFungibleLocalId {
    String(String),
    Integer(u64),
    Bytes(Vec<u8>),
    RUID([u8; 32]),
}

/// The value of a local id.
pub enum LocalIdView {
    String(Seq<char>),
    Integer(u64),
    Bytes(Seq<u8>),
    RUID([u8; 32]),
}

impl View for NonFungibleLocalId {
    type V = LocalIdView;

    open spec fn view(&self) -> LocalIdView {
        match self {
            NonFungibleLocalId::String(s) => LocalIdView::String(s@),
            NonFungibleLocalId::Integer(n) => LocalIdView::Integer(*n),
            NonFungibleLocalId::Bytes(b) => LocalIdView::Bytes(b@),
            NonFungibleLocalId::RUID(r) => LocalIdView::RUID(*r),
        }
    }
}

/// Whether byte string `a` sorts before `b`: the first differing byte
/// decides, and a proper prefix sorts first.
pub open spec fn bytes_lt(a: Seq<u8>, b: Seq<u8>) -> bool
    decreases a.len(),
{
    if a.len() == 0 {
        b.len() > 0
    } else if b.len() == 0 {
        false
    } else if a[0] != b[0] {
        a[0] < b[0]
    } else {
        bytes_lt(a.drop_first(), b.drop_first())
    }
}

/// Whether string `a` sorts before `b`, character by character (the order
/// of their UTF-8 bytes).
pub open spec fn chars_lt(a: Seq<char>, b: Seq<char>) -> bool
    decreases a.len(),
{
    if a.len() == 0 {
        b.len() > 0
    } else if b.len() == 0 {
        false
    } else if a[0] != b[0] {
        (a[0] as u32) < (b[0] as u32)
    } else {
        chars_lt(a.drop_first(), b.drop_first())
    }
}

/// A byte string does not sort before itself.
pub proof fn lemma_bytes_lt_irreflexive(a: Seq<u8>)
    ensures
        !bytes_lt(a, a),
    decreases a.len(),
{
    if a.len() > 0 {
        lemma_bytes_lt_irreflexive(a.drop_first());
    }
}

/// A string does not sort before itself.
pub proof fn lemma_chars_lt_irreflexive(a: Seq<char>)
    ensures
        !chars_lt(a, a),
    decreases a.len(),
{
    if a.len() > 0 {
        lemma_chars_lt_irreflexive(a.drop_first());
    }
}

/// The position of a local id's kind in the order of kinds.
pub open spec fn local_id_rank(id: LocalIdView) -> int {
    match id {
        LocalIdView::String(_) => 0,
        LocalIdView::Integer(_) => 1,
        LocalIdView::Bytes(_) => 2,
        LocalIdView::RUID(_) => 3,
    }
}

/// Whether local id `a` sorts before `b`: by kind (string, integer, bytes,
/// RUID), then by value.
pub open spec fn local_id_lt(a: LocalIdView, b: LocalIdView) -> bool {
    match (a, b) {
        (LocalIdView::String(x), LocalIdView::String(y)) => chars_lt(x, y),
        (LocalIdView::Integer(x), LocalIdView::Integer(y)) => x < y,
        (LocalIdView::Bytes(x), LocalIdView::Bytes(y)) => bytes_lt(x, y),
        (LocalIdView::RUID(x), LocalIdView::RUID(y)) => bytes_lt(x@, y@),
        _ => local_id_rank(a) < local_id_rank(b),
    }
}

/// A local id does not sort before itself.
pub proof fn lemma_local_id_lt_irreflexive(a: LocalIdView)
    ensures
        !local_id_lt(a, a),
{
    match a {
        LocalIdView::String(x) => lemma_chars_lt_irreflexive(x),
        LocalIdView::Bytes(x) => lemma_bytes_lt_irreflexive(x),
        LocalIdView::RUID(x) => lemma_bytes_lt_irreflexive(x@),
        _ => {},
    }
}

/// Whether local ids are in ascending order, as a set of them holds them:
/// each sorts before every later one, so none occurs twice.
pub open spec fn is_id_set(s: Seq<LocalIdView>) -> bool {
    forall|i: int, j: int| 0 <= i < j < s.len() ==> local_id_lt(#[trigger] s[i], #[trigger] s[j])
}

/// The ids of a set occur once each.
pub proof fn lemma_id_set_no_repeats(s: Seq<LocalIdView>)
    requires
        is_id_set(s),
    ensures
        forall|i: int, j: int| 0 <= i < j < s.len() ==> s[i] != s[j],
{
    assert forall|i: int, j: int| 0 <= i < j < s.len() implies s[i] != s[j] by {
        lemma_local_id_lt_irreflexive(s[i]);
    }
}

/// A copy of a local id.
pub fn clone_local_id(id: &NonFungibleLocalId) -> (r: NonFungibleLocalId)
    ensures
        r@ == id@,
{
    match id {
        NonFungibleLocalId::String(s) => NonFungibleLocalId::String(s.clone()),
        NonFungibleLocalId::Integer(n) => NonFungibleLocalId::Integer(*n),
        NonFungibleLocalId::Bytes(b) => NonFungibleLocalId::Bytes(copy_bytes(b)),
        NonFungibleLocalId::RUID(r) => NonFungibleLocalId::RUID(*r),
    }
}

/// The global id of a non-fungible unit: its resource and its local id.
#[derive(Debug, Clone, PartialEq, Eq)]
pub struct NonFungibleGlobalId {
    pub resource_address: [u8; 3],
    pub local_id: NonFungibleLocalId,
}

/// The value of a global id.
pub struct GlobalIdView {
    pub resource_address: [u8; 3],
    pub local_id: LocalIdView,
}

impl View for NonFungibleGlobalId {
    type V = GlobalIdView;

    open spec fn view(&self) -> GlobalIdView {
        GlobalIdView { resource_address: self.resource_address, local_id: self.local_id@ }
    }
}

/// The values of a list of global ids.
pub open spec fn global_ids_view(v: Seq<NonFungibleGlobalId>) -> Seq<GlobalIdView> {
    Seq::new(v.len(), |i: int| v[i]@)
}

/// Whether global id `a` sorts before `b`: by resource address, then by
/// local id.
pub open spec fn global_id_lt(a: GlobalIdView, b: GlobalIdView) -> bool {
    if a.resource_address@ != b.resource_address@ {
        bytes_lt(a.resource_address@, b.resource_address@)
    } else {
        local_id_lt(a.local_id, b.local_id)
    }
}

/// Whether global ids are in ascending order, as a set of them holds them.
pub open spec fn is_global_id_set(s: Seq<GlobalIdView>) -> bool {
    forall|i: int, j: int| 0 <= i < j < s.len() ==> global_id_lt(#[trigger] s[i], #[trigger] s[j])
}

/// A copy of a global id.
pub fn clone_global_id(id: &NonFungibleGlobalId) -> (r: NonFungibleGlobalId)
    ensures
        r@ == id@,
{
    NonFungibleGlobalId { resource_address: id.resource_address, local_id: clone_local_id(&id.local_id) }
}

/// A copy of a list of global ids.
pub fn clone_global_ids(v: &Vec<NonFungibleGlobalId>) -> (r: Vec<NonFungibleGlobalId>)
    ensures
        global_ids_view(r@) == global_ids_view(v@),
{
    let mut r: Vec<NonFungibleGlobalId> = Vec::new();
    let mut i: usize = 0;
    while i < v.len()
        invariant
            i <= v@.len(),
            r@.len() == i,
            forall|k: int| 0 <= k < i ==> #[trigger] r@[k]@ == v@[k]@,
        decreases v@.len() - i,
    {
        r.push(clone_global_id(&v[i]));
        i = i + 1;
    }
    assert(global_ids_view(r@) =~= global_ids_view(v@));
    r
}

/// The id of the proof that marks a transaction as a full-authority system
/// transaction: the system transaction badge with integer id 0.
pub open spec fn is_system_role(id: GlobalIdView) -> bool {
    &&& id.resource_address@ == SYSTEM_TRANSACTION_BADGE@
    &&& id.local_id == LocalIdView::Integer(0)
}

/// Whether the id is the system role.
pub fn global_id_is_system_role(id: &NonFungibleGlobalId) -> (r: bool)
    ensures
        r == is_system_role(id@),
{
    let a = id.resource_address;
    let same_resource = a[0] == SYSTEM_TRANSACTION_BADGE[0] && a[1] == SYSTEM_TRANSACTION_BADGE[1]
        && a[2] == SYSTEM_TRANSACTION_BADGE[2];
    proof {
        if same_resource {
            assert(a@ =~= SYSTEM_TRANSACTION_BADGE@);
        }
    }
    match &id.local_id {
        NonFungibleLocalId::Integer(n) => same_resource && *n == 0,
        _ => false,
    }
}

/// A value of the manifest value model, as instruction arguments.
#[derive(Debug, Clone, PartialEq, Eq)]
pub enum ManifestValue {
    /// A string value.
    String { value: String },
    /// The recorded runtime calls of an invocation: each call's function id
    /// and its encoded arguments.
    CallLog { calls: Vec<(u8, Vec<Vec<u8>>)> },
    /// Any other value, by its encoding.
    Encoded { bytes: Vec<u8> },
}

/// The contents of a list of recorded calls.
pub open spec fn call_log_view(v: Seq<(u8, Vec<Vec<u8>>)>) -> Seq<(u8, Seq<Seq<u8>>)> {
    Seq::new(v.len(), |i: int| (v[i].0, byte_lists(v[i].1@)))
}

/// The value of a manifest value.
pub enum ManifestValueView {
    String(Seq<char>),
    CallLog(Seq<(u8, Seq<Seq<u8>>)>),
    Encoded(Seq<u8>),
}

impl View for ManifestValue {
    type V = ManifestValueView;

    open spec fn view(&self) -> ManifestValueView {
        match self {
            ManifestValue::String { value } => ManifestValueView::String(value@),
            ManifestValue::CallLog { calls } => ManifestValueView::CallLog(call_log_view(calls@)),
            ManifestValue::Encoded { bytes } => ManifestValueView::Encoded(bytes@),
        }
    }
}

/// A copy of a list of recorded calls.
pub fn clone_call_log(v: &Vec<(u8, Vec<Vec<u8>>)>) -> (r: Vec<(u8, Vec<Vec<u8>>)>)
    ensures
        call_log_view(r@) == call_log_view(v@),
{
    let mut r: Vec<(u8, Vec<Vec<u8>>)> = Vec::new();
    let mut i: usize = 0;
    while i < v.len()
        invariant
            i <= v@.len(),
            r@.len() == i,
            forall|k: int|
                0 <= k < i ==> #[trigger] r@[k].0 == v@[k].0 && byte_lists(r@[k].1@) == byte_lists(
                    v@[k].1@,
                ),
        decreases v@.len() - i,
    {
        let entry = (v[i].0, copy_byte_lists(&v[i].1));
        r.push(entry);
        i = i + 1;
    }
    assert(call_log_view(r@) =~= call_log_view(v@));
    r
}

/// A copy of a manifest value.
pub fn clone_manifest_value(v: &ManifestValue) -> (r: ManifestValue)
    ensures
        r@ == v@,
{
    match v {
        ManifestValue::String { value } => ManifestValue::String { value: value.clone() },
        ManifestValue::CallLog { calls } => ManifestValue::CallLog { calls: clone_call_log(calls) },
        ManifestValue::Encoded { bytes } => ManifestValue::Encoded { bytes: copy_bytes(bytes) },
    }
}

/// A transaction manifest instruction. The two call instructions carry their
/// arguments; every other instruction is kept by its encoding.
#[derive(Debug, Clone, PartialEq, Eq)]
pub enum InstructionV1 {
    CallFunction {
        package_address: NodeId,
        blueprint_name: String,
        function_name: String,
        args: ManifestValue,
    },
    CallMethod { address: NodeId, method_name: String, args: ManifestValue },
    Other { encoded: Vec<u8> },
}

/// The value of an instruction.
pub enum InstructionView {
    CallFunction {
        package_address: NodeId,
        blueprint_name: Seq<char>,
        function_name: Seq<char>,
        args: ManifestValueView,
    },
    CallMethod { address: NodeId, method_name: Seq<char>, args: ManifestValueView },
    Other { encoded: Seq<u8> },
}

impl View for InstructionV1 {
    type V = InstructionView;

    open spec fn view(&self) -> InstructionView {
        match self {
            InstructionV1::CallFunction { package_address, blueprint_name, function_name, args } =>
                InstructionView::CallFunction {
                package_address: *package_address,
                blueprint_name: blueprint_name@,
                function_name: function_name@,
                args: args@,
            },
            InstructionV1::CallMethod { address, method_name, args } => InstructionView::CallMethod {
                address: *address,
                method_name: method_name@,
                args: args@,
            },
            InstructionV1::Other { encoded } => InstructionView::Other { encoded: encoded@ },
        }
    }
}

/// The values of a list of instructions.
pub open spec fn instructions_view(v: Seq<InstructionV1>) -> Seq<InstructionView> {
    Seq::new(v.len(), |i: int| v[i]@)
}

impl InstructionView {
    /// Whether the instruction is a call with arguments.
    pub open spec fn is_call(self) -> bool {
        self is CallFunction || self is CallMethod
    }

    /// The instruction with its call arguments replaced.
    pub open spec fn with_args(self, args: ManifestValueView) -> InstructionView {
        match self {
            InstructionView::CallFunction { package_address, blueprint_name, function_name, .. } =>
                InstructionView::CallFunction { package_address, blueprint_name, function_name, args },
            InstructionView::CallMethod { address, method_name, .. } => InstructionView::CallMethod {
                address,
                method_name,
                args,
            },
            InstructionView::Other { encoded } => InstructionView::Other { encoded },
        }
    }
}

/// Replaces the arguments of a call instruction.
pub fn set_call_args(instruction: &mut InstructionV1, args: ManifestValue)
    requires
        old(instruction)@.is_call(),
    ensures
        final(instruction)@ == old(instruction)@.with_args(args@),
{
    match instruction {
        InstructionV1::CallFunction { args: a, .. } => {
            *a = args;
        },
        InstructionV1::CallMethod { args: a, .. } => {
            *a = args;
        },
        InstructionV1::Other { .. } => {},
    }
}

/// How the intent of a transaction is checked for replay.
#[derive(Debug, Clone, Copy, PartialEq, Eq)]
pub enum TransactionIntentHash {
    ToCheck { intent_hash: HashBytes, expiry_epoch: u64 },
    NotToCheck { intent_hash: HashBytes },
}

/// The proofs a transaction starts with.
#[derive(Debug, Clone, PartialEq, Eq)]
pub struct AuthZoneParams {
    /// The initial proofs, in ascending order without repeats.
    pub initial_proofs: Vec<NonFungibleGlobalId>,
    /// The resources of which any non-fungible may be virtually proven, in
    /// ascending order without repeats.
    pub virtual_resources: Vec<[u8; 3]>,
}

/// Whether addresses are in ascending order, as a set of them holds them.
pub open spec fn is_address_set(s: Seq<[u8; 3]>) -> bool {
    forall|i: int, j: int| 0 <= i < j < s.len() ==> bytes_lt((#[trigger] s[i])@, (#[trigger] s[j])@)
}

impl AuthZoneParams {
    /// Whether the proofs and the resources are sets, in ascending order.
    pub open spec fn wf(&self) -> bool {
        &&& is_global_id_set(global_ids_view(self.initial_proofs@))
        &&& is_address_set(self.virtual_resources@)
    }
}

/// The fee parameters a transaction chose.
#[derive(Debug, Clone, PartialEq, Eq)]
pub struct TransactionCostingParameters {
    pub tip_percentage: u16,
    pub free_credit_in_xrd: Decimal,
}

/// Everything the engine needs to know of a transaction besides its
/// instructions and blobs.
#[derive(Debug, Clone, PartialEq, Eq)]
pub struct ExecutionContext {
    pub intent_hash: TransactionIntentHash,
    pub epoch_range: Option<(u64, u64)>,
    pub payload_size: usize,
    pub num_of_signature_validations: usize,
    pub auth_zone_params: AuthZoneParams,
    pub costing_parameters: TransactionCostingParameters,
    pub pre_allocated_addresses: Vec<NodeId>,
}

/// The value of an execution context.
pub struct ContextView {
    pub intent_hash: TransactionIntentHash,
    pub epoch_range: Option<(u64, u64)>,
    pub payload_size: usize,
    pub num_of_signature_validations: usize,
    pub initial_proofs: Seq<GlobalIdView>,
    pub virtual_resources: Seq<[u8; 3]>,
    pub tip_percentage: u16,
    pub free_credit_in_xrd: Decimal,
    pub pre_allocated_addresses: Seq<NodeId>,
}

impl View for ExecutionContext {
    type V = ContextView;

    open spec fn view(&self) -> ContextView {
        ContextView {
            intent_hash: self.intent_hash,
            epoch_range: self.epoch_range,
            payload_size: self.payload_size,
            num_of_signature_validations: self.num_of_signature_validations,
            initial_proofs: global_ids_view(self.auth_zone_params.initial_proofs@),
            virtual_resources: self.auth_zone_params.virtual_resources@,
            tip_percentage: self.costing_parameters.tip_percentage,
            free_credit_in_xrd: self.costing_parameters.free_credit_in_xrd,
            pre_allocated_addresses: self.pre_allocated_addresses@,
        }
    }
}

/// A copy of a list of three-byte addresses.
pub fn clone_addresses(v: &Vec<[u8; 3]>) -> (r: Vec<[u8; 3]>)
    ensures
        r@ == v@,
{
    let mut r: Vec<[u8; 3]> = Vec::new();
    let mut i: usize = 0;
    while i < v.len()
        invariant
            i <= v@.len(),
            r@ == v@.subrange(0, i as int),
        decreases v@.len() - i,
    {
        r.push(v[i]);
        i = i + 1;
        assert(r@ =~= v@.subrange(0, i as int));
    }
    assert(v@.subrange(0, v@.len() as int) =~= v@);
    r
}

/// A copy of a list of node ids.
pub fn clone_node_ids(v: &Vec<NodeId>) -> (r: Vec<NodeId>)
    ensures
        r@ == v@,
{
    let mut r: Vec<NodeId> = Vec::new();
    let mut i: usize = 0;
    while i < v.len()
        invariant
            i <= v@.len(),
            r@ == v@.subrange(0, i as int),
        decreases v@.len() - i,
    {
        r.push(v[i]);
        i = i + 1;
        assert(r@ =~= v@.subrange(0, i as int));
    }
    assert(v@.subrange(0, v@.len() as int) =~= v@);
    r
}

/// A copy of an execution context.
pub fn clone_context(c: &ExecutionContext) -> (r: ExecutionContext)
    ensures
        r@ == c@,
{
    ExecutionContext {
        intent_hash: c.intent_hash,
        epoch_range: c.epoch_range,
        payload_size: c.payload_size,
        num_of_signature_validations: c.num_of_signature_validations,
        auth_zone_params: AuthZoneParams {
            initial_proofs: clone_global_ids(&c.auth_zone_params.initial_proofs),
            virtual_resources: clone_addresses(&c.auth_zone_params.virtual_resources),
        },
        costing_parameters: TransactionCostingParameters {
            tip_percentage: c.costing_parameters.tip_percentage,
            free_credit_in_xrd: c.costing_parameters.free_credit_in_xrd,
        },
        pre_allocated_addresses: clone_node_ids(&c.pre_allocated_addresses),
    }
}

/// Whether a transaction is a system transaction: its only initial proof is
/// the system role.
pub open spec fn is_system_transaction(context: ContextView) -> bool {
    &&& context.initial_proofs.len() == 1
    &&& is_system_role(context.initial_proofs[0])
}

/// Whether the context is that of a system transaction.
pub fn context_is_system_transaction(context: &ExecutionContext) -> (r: bool)
    ensures
        r == is_system_transaction(context@),
{
    let proofs = &context.auth_zone_params.initial_proofs;
    proofs.len() == 1 && global_id_is_system_role(&proofs[0])
}

/// The contents of a list of blobs by hash.
pub open spec fn blobs_view(v: Seq<(HashBytes, Vec<u8>)>) -> Seq<(HashBytes, Seq<u8>)> {
    Seq::new(v.len(), |i: int| (v[i].0, v[i].1@))
}

/// A copy of a list of blobs by hash.
pub fn clone_blobs(v: &Vec<(HashBytes, Vec<u8>)>) -> (r: Vec<(HashBytes, Vec<u8>)>)
    ensures
        blobs_view(r@) == blobs_view(v@),
{
    let mut r: Vec<(HashBytes, Vec<u8>)> = Vec::new();
    let mut i: usize = 0;
    while i < v.len()
        invariant
            i <= v@.len(),
            r@.len() == i,
            forall|k: int| 0 <= k < i ==> #[trigger] r@[k].0 == v@[k].0 && r@[k].1@ == v@[k].1@,
        decreases v@.len() - i,
    {
        let entry = (v[i].0, copy_bytes(&v[i].1));
        r.push(entry);
        i = i + 1;
    }
    assert(blobs_view(r@) =~= blobs_view(v@));
    r
}

/// A copy of a list of instructions.
pub fn clone_instructions(v: &Vec<InstructionV1>) -> (r: Vec<InstructionV1>)
    ensures
        instructions_view(r@) == instructions_view(v@),
{
    let mut r: Vec<InstructionV1> = Vec::new();
    let mut i: usize = 0;
    while i < v.len()
        invariant
            i <= v@.len(),
            r@.len() == i,
            forall|k: int| 0 <= k < i ==> #[trigger] r@[k]@ == v@[k]@,
        decreases v@.len() - i,
    {
        r.push(clone_instruction(&v[i]));
        i = i + 1;
    }
    assert(instructions_view(r@) =~= instructions_view(v@));
    r
}

/// A copy of an instruction.
pub fn clone_instruction(v: &InstructionV1) -> (r: InstructionV1)
    ensures
        r@ == v@,
{
    match v {
        InstructionV1::CallFunction { package_address, blueprint_name, function_name, args } =>
            InstructionV1::CallFunction {
            package_address: *package_address,
            blueprint_name: blueprint_name.clone(),
            function_name: function_name.clone(),
            args: clone_manifest_value(args),
        },
        InstructionV1::CallMethod { address, method_name, args } => InstructionV1::CallMethod {
            address: *address,
            method_name: method_name.clone(),
            args: clone_manifest_value(args),
        },
        InstructionV1::Other { encoded } => InstructionV1::Other { encoded: copy_bytes(encoded) },
    }
}

/// A transaction ready for execution: its encoded instructions, the nodes it
/// references, its blobs by hash, and its context.
pub struct Executable<'a> {
    pub encoded_instructions: &'a [u8],
    pub references: &'a Vec<NodeId>,
    pub blobs: &'a Vec<(HashBytes, Vec<u8>)>,
    pub context: ExecutionContext,
}

impl<'a> Executable<'a> {
    pub fn new(
        encoded_instructions: &'a [u8],
        references: &'a Vec<NodeId>,
        blobs: &'a Vec<(HashBytes, Vec<u8>)>,
        context: ExecutionContext,
    ) -> (r: Self)
        ensures
            r.encoded_instructions == encoded_instructions,
            r.references == references,
            r.blobs == blobs,
            r.context == context,
    {
        Executable { encoded_instructions, references, blobs, context }
    }
}

} // verus!
