use vstd::prelude::*;

use crate::errors::{ApplicationError, PackageError, RuntimeError};
use crate::fuzzer_engine::{FuzzerEngine, FuzzerInstance};
use crate::types::{HashBytes, NodeId};

verus! {

/// The latest minor version of the Scrypto V1 VM.
pub const SCRYPTO_V1_LATEST_MINOR_VERSION: u64 = 1;

/// Api provided to clients of the VM layer.
pub trait VmApi {
    /// The current minor version of the Scrypto VM.
    fn get_scrypto_minor_version(&self) -> u64;
}

/// Simple implementation of the VM api.
#[derive(Debug, Clone, Copy)]
pub struct VmVersion {
    scrypto_v1_minor_version: u64,
}

impl VmVersion {
    /// The minor version of the Scrypto V1 VM.
    pub closed spec fn minor_version(self) -> u64 {
        self.scrypto_v1_minor_version
    }

    /// The latest VM version.
    pub fn latest() -> (r: Self)
        ensures
            r.minor_version() == SCRYPTO_V1_LATEST_MINOR_VERSION,
    {
        Self { scrypto_v1_minor_version: SCRYPTO_V1_LATEST_MINOR_VERSION }
    }
}

impl Default for VmVersion {
    /// Minor version 0, the version of ledgers that record none.
    fn default() -> (r: Self)
        ensures
            r.minor_version() == 0,
    {
        Self { scrypto_v1_minor_version: 0 }
    }
}

impl VmApi for VmVersion {
    fn get_scrypto_minor_version(&self) -> (r: u64)
        ensures
            r == self.minor_version(),
    {
        self.scrypto_v1_minor_version
    }
}

/// Boot loader state of the VM layer.
#[derive(Debug, Clone, Copy, PartialEq, Eq)]
pub enum VmBoot {
    V1 { scrypto_v1_minor_version: u64 },
}

/// The kind of VM that runs a package's code.
#[derive(Debug, Clone, Copy, PartialEq, Eq)]
pub enum VmType {
    Native,
    ScryptoV1,
}

/// A WASM engine: makes instances of instrumented code.
pub trait WasmEngine: Sized {
    /// The instances the engine makes.
    type WasmInstance;

    /// Whether the engine, making an instance of the code with the given
    /// hash, can give `instance` and become `after`.
    spec fn instantiates(
        &self,
        after: Self,
        code_hash: HashBytes,
        code: Seq<u8>,
        instance: Self::WasmInstance,
    ) -> bool;

    /// An instance of the given code.
    fn instantiate(&mut self, code_hash: HashBytes, instrumented_code: &[u8]) -> (r:
        Self::WasmInstance)
        ensures
            old(self).instantiates(*final(self), code_hash, instrumented_code@, r),
    ;
}

impl WasmEngine for FuzzerEngine {
    type WasmInstance = FuzzerInstance;

    /// The fuzzer engine ignores the code: the instance holds the next queued
    /// invocation, if any, which leaves the queue.
    open spec fn instantiates(
        &self,
        after: Self,
        code_hash: HashBytes,
        code: Seq<u8>,
        instance: FuzzerInstance,
    ) -> bool {
        &&& self.pending().len() == 0 ==> instance.code() is None && after.pending()
            == self.pending()
        &&& self.pending().len() > 0 ==> {
            &&& instance.code() == Some(self.pending()[0])
            &&& after.pending() == self.pending().drop_first()
        }
    }

    fn instantiate(&mut self, code_hash: HashBytes, instrumented_code: &[u8]) -> (r: FuzzerInstance)
        ensures
            old(self).pending().len() == 0 ==> r.code() is None && final(self).pending() == old(
                self,
            ).pending(),
            old(self).pending().len() > 0 ==> {
                &&& r.code() == Some(old(self).pending()[0])
                &&& final(self).pending() == old(self).pending().drop_first()
            },
    {
        FuzzerEngine::instantiate(self, code_hash, instrumented_code)
    }
}

/// The Scrypto VM: a WASM engine and its validator configuration.
pub struct ScryptoVm<W: WasmEngine> {
    pub wasm_engine: W,
    pub wasm_validator_config: WasmValidatorConfigV1,
}

/// Configuration of the WASM validator.
#[derive(Debug, Clone, Copy, Default)]
pub struct WasmValidatorConfigV1;

/// An instance of a package's WASM code, ready to be invoked.
pub struct ScryptoVmInstance<I> {
    pub instance: I,
    pub package_address: NodeId,
}

impl<W: WasmEngine> ScryptoVm<W> {
    /// An instance of a package's instrumented code.
    pub fn create_instance(&mut self, package_address: &NodeId, code_hash: HashBytes, instrumented_code: &[u8]) -> (r: ScryptoVmInstance<W::WasmInstance>)
        ensures
            r.package_address == *package_address,
            old(self).wasm_engine.instantiates(
                final(self).wasm_engine,
                code_hash,
                instrumented_code@,
                r.instance,
            ),
    {
        ScryptoVmInstance {
            instance: self.wasm_engine.instantiate(code_hash, instrumented_code),
            package_address: *package_address,
        }
    }
}

/// The VM layer: the Scrypto VM and the native VM.
pub struct Vm<'g, W: WasmEngine, E> {
    pub scrypto_vm: &'g ScryptoVm<W>,
    pub native_vm: E,
}

impl<'g, W: WasmEngine, E> Vm<'g, W, E> {
    pub fn new(scrypto_vm: &'g ScryptoVm<W>, native_vm: E) -> (r: Self)
        ensures
            r.scrypto_vm == scrypto_vm,
            r.native_vm == native_vm,
    {
        Self { scrypto_vm, native_vm }
    }

    /// The VM version that the boot loader state records; a ledger without
    /// that state runs minor version 0.
    pub fn init(stored_boot: Option<VmBoot>) -> (r: VmVersion)
        ensures
            r.minor_version() == match stored_boot {
                Some(VmBoot::V1 { scrypto_v1_minor_version }) => scrypto_v1_minor_version,
                None => 0,
            },
    {
        let vm_boot = match stored_boot {
            Some(boot) => boot,
            None => VmBoot::V1 { scrypto_v1_minor_version: 0u64 },
        };
        match vm_boot {
            VmBoot::V1 { scrypto_v1_minor_version } => VmVersion { scrypto_v1_minor_version },
        }
    }
}

/// Whether a blueprint is an outer blueprint or one inner to another.
#[derive(Debug, Clone, PartialEq, Eq)]
pub enum BlueprintType {
    Outer,
    Inner { outer_blueprint: String },
}

/// When a field of a blueprint's state exists.
#[derive(Debug, Clone, PartialEq, Eq)]
pub enum Condition {
    Always,
    IfFeature(String),
    IfOuterFeature(String),
}

/// Whether a field is stored or transient.
#[derive(Debug, Clone, PartialEq, Eq)]
pub enum FieldTransience {
    NotTransient,
    TransientStatic { default_value: Vec<u8> },
}

/// A field of a blueprint's state, as validation reads it.
#[derive(Debug, Clone, PartialEq, Eq)]
pub struct FieldSchemaInit {
    pub condition: Condition,
    pub transience: FieldTransience,
}

/// The kinds of references a method receiver accepts, as flags.
#[derive(Debug, Clone, Copy, PartialEq, Eq)]
pub struct RefTypes(pub u32);

/// References to an object of the normal kind.
pub const REF_TYPES_NORMAL: u32 = 1;

/// The receiver of a method.
#[derive(Debug, Clone, Copy, PartialEq, Eq)]
pub struct ReceiverInfo {
    pub ref_types: RefTypes,
}

/// A function of a blueprint, as validation reads it.
#[derive(Debug, Clone, PartialEq, Eq)]
pub struct FunctionSchemaInit {
    pub receiver: Option<ReceiverInfo>,
}

/// A blueprint definition, as validation reads it: its generics, static
/// collections and hooks are only counted.
#[derive(Debug, Clone, PartialEq, Eq)]
pub struct BlueprintDefinitionInit {
    pub is_transient: bool,
    pub blueprint_type: BlueprintType,
    pub feature_set: Vec<String>,
    pub generic_count: usize,
    pub collection_count: usize,
    pub fields: Vec<FieldSchemaInit>,
    pub functions: Vec<(String, FunctionSchemaInit)>,
    pub hook_count: usize,
}

/// A package definition: its blueprints by name.
#[derive(Debug, Clone, PartialEq, Eq)]
pub struct PackageDefinition {
    pub blueprints: Vec<(String, BlueprintDefinitionInit)>,
}

/// The first field, in order, that Scrypto WASM packages do not support,
/// with the reason.
pub open spec fn fields_error(fields: Seq<FieldSchemaInit>) -> Option<Seq<char>>
    decreases fields.len(),
{
    if fields.len() == 0 {
        None
    } else if !(fields[0].condition is Always) {
        Some("Conditional fields are not supported"@)
    } else if !(fields[0].transience is NotTransient) {
        Some("Transient fields are not supported"@)
    } else {
        fields_error(fields.drop_first())
    }
}

/// Whether a function's receiver takes references other than normal ones.
pub open spec fn has_irregular_receiver(f: FunctionSchemaInit) -> bool {
    f.receiver matches Some(info) && info.ref_types.0 != REF_TYPES_NORMAL
}

/// Why a blueprint cannot be part of a Scrypto WASM package, checked in the
/// validator's order, if it cannot.
pub open spec fn blueprint_error(bp: BlueprintDefinitionInit) -> Option<Seq<char>> {
    if bp.blueprint_type is Inner {
        Some("Inner blueprints not supported"@)
    } else if bp.feature_set@.len() > 0 {
        Some("Feature set not supported"@)
    } else if bp.collection_count > 0 {
        Some("Static collections not supported"@)
    } else if bp.fields@.len() > 1 {
        Some("More than 1 substate field not supported"@)
    } else if fields_error(bp.fields@) is Some {
        fields_error(bp.fields@)
    } else if bp.hook_count > 0 {
        Some("Hooks not supported"@)
    } else if exists|i: int| 0 <= i < bp.functions@.len() && has_irregular_receiver(#[trigger] bp.functions@[i].1) {
        Some("Irregular ref types not supported"@)
    } else if bp.generic_count > 0 {
        Some("Generics not supported"@)
    } else if bp.is_transient {
        Some("Transient blueprints not supported"@)
    } else {
        None
    }
}

/// The first blueprint error of a package, in the order of its blueprints.
pub open spec fn package_error(blueprints: Seq<(String, BlueprintDefinitionInit)>) -> Option<Seq<char>>
    decreases blueprints.len(),
{
    if blueprints.len() == 0 {
        None
    } else if blueprint_error(blueprints[0].1) is Some {
        blueprint_error(blueprints[0].1)
    } else {
        package_error(blueprints.drop_first())
    }
}

/// The fields of a blueprint are accepted exactly when each is unconditional
/// and stored.
pub proof fn lemma_fields_accepted(fields: Seq<FieldSchemaInit>)
    ensures
        fields_error(fields) is None <==> (forall|i: int|
            0 <= i < fields.len() ==> (#[trigger] fields[i]).condition is Always
                && fields[i].transience is NotTransient),
    decreases fields.len(),
{
    if fields.len() > 0 {
        let rest = fields.drop_first();
        lemma_fields_accepted(rest);
        if forall|i: int|
            0 <= i < fields.len() ==> (#[trigger] fields[i]).condition is Always
                && fields[i].transience is NotTransient {
            assert(fields[0].condition is Always && fields[0].transience is NotTransient);
            assert forall|i: int| 0 <= i < rest.len() implies (#[trigger] rest[i]).condition is Always
                && rest[i].transience is NotTransient by {
                assert(rest[i] == fields[i + 1]);
            }
        }
        if fields_error(fields) is None {
            assert forall|i: int| 0 <= i < fields.len() implies (#[trigger] fields[i]).condition is Always
                && fields[i].transience is NotTransient by {
                if i > 0 {
                    assert(fields[i] == rest[i - 1]);
                }
            }
        }
    }
}

/// A blueprint is accepted in a Scrypto WASM package exactly when it is an
/// outer blueprint with no feature set, no static collection, at most one
/// field, each unconditional and stored, no hook, only receivers of normal
/// references, no generics, and is not transient.
pub proof fn lemma_blueprint_accepted(bp: BlueprintDefinitionInit)
    ensures
        blueprint_error(bp) is None <==> {
            &&& bp.blueprint_type is Outer
            &&& bp.feature_set@.len() == 0
            &&& bp.collection_count == 0
            &&& bp.fields@.len() <= 1
            &&& forall|i: int|
                0 <= i < bp.fields@.len() ==> (#[trigger] bp.fields@[i]).condition is Always
                    && bp.fields@[i].transience is NotTransient
            &&& bp.hook_count == 0
            &&& forall|i: int|
                0 <= i < bp.functions@.len() ==> ((#[trigger] bp.functions@[i]).1.receiver matches Some(
                    info,
                ) ==> info.ref_types.0 == REF_TYPES_NORMAL)
            &&& bp.generic_count == 0
            &&& !bp.is_transient
        },
{
    lemma_fields_accepted(bp.fields@);
    if exists|i: int| 0 <= i < bp.functions@.len() && has_irregular_receiver(#[trigger] bp.functions@[i].1) {
        let k = choose|i: int| 0 <= i < bp.functions@.len() && has_irregular_receiver(#[trigger] bp.functions@[i].1);
        assert(bp.functions@[k].1.receiver matches Some(info) && info.ref_types.0 != REF_TYPES_NORMAL);
    }
}

/// A package is refused exactly when one of its blueprints is, and then for
/// the reason of the first such blueprint: every blueprint is checked, in
/// order, until one fails.
pub proof fn lemma_package_error_first_failing(blueprints: Seq<(String, BlueprintDefinitionInit)>)
    ensures
        package_error(blueprints) is None <==> (forall|i: int|
            0 <= i < blueprints.len() ==> (#[trigger] blueprint_error(blueprints[i].1)) is None),
        forall|i: int|
            0 <= i < blueprints.len() && (#[trigger] blueprint_error(blueprints[i].1)) is Some && (
            forall|j: int| 0 <= j < i ==> blueprint_error(blueprints[j].1) is None)
                ==> package_error(blueprints) == blueprint_error(blueprints[i].1),
    decreases blueprints.len(),
{
    if blueprints.len() > 0 {
        let rest = blueprints.drop_first();
        lemma_package_error_first_failing(rest);
        assert forall|i: int| 0 < i < blueprints.len() implies blueprints[i] == rest[i - 1] by {}
        if blueprint_error(blueprints[0].1) is None {
            assert((forall|i: int|
                0 <= i < blueprints.len() ==> (#[trigger] blueprint_error(blueprints[i].1)) is None)
                <==> (forall|i: int|
                0 <= i < rest.len() ==> (#[trigger] blueprint_error(rest[i].1)) is None)) by {
                if forall|i: int|
                    0 <= i < rest.len() ==> (#[trigger] blueprint_error(rest[i].1)) is None {
                    assert forall|i: int| 0 <= i < blueprints.len() implies (#[trigger] blueprint_error(
                        blueprints[i].1,
                    )) is None by {
                        if i > 0 {
                            assert(blueprint_error(rest[i - 1].1) is None);
                        }
                    }
                }
                if forall|i: int|
                    0 <= i < blueprints.len() ==> (#[trigger] blueprint_error(blueprints[i].1)) is None {
                    assert forall|i: int| 0 <= i < rest.len() implies (#[trigger] blueprint_error(
                        rest[i].1,
                    )) is None by {
                        assert(blueprint_error(blueprints[i + 1].1) is None);
                    }
                }
            }
            assert forall|i: int|
                0 <= i < blueprints.len() && (#[trigger] blueprint_error(blueprints[i].1)) is Some && (
                forall|j: int| 0 <= j < i ==> blueprint_error(blueprints[j].1) is None)
                    implies package_error(blueprints) == blueprint_error(blueprints[i].1) by {
                assert(i > 0);
                assert(blueprint_error(rest[i - 1].1) is Some);
                assert forall|j: int| 0 <= j < i - 1 implies blueprint_error(rest[j].1) is None by {
                    assert(blueprint_error(blueprints[j + 1].1) is None);
                }
            }
        } else {
            assert(!(blueprint_error(blueprints[0].1) is None));
            assert forall|i: int|
                0 <= i < blueprints.len() && (#[trigger] blueprint_error(blueprints[i].1)) is Some && (
                forall|j: int| 0 <= j < i ==> blueprint_error(blueprints[j].1) is None)
                    implies package_error(blueprints) == blueprint_error(blueprints[i].1) by {
                if i > 0 {
                    assert(blueprint_error(blueprints[0].1) is None);
                }
            }
        }
    }
}

/// The error that an unsupported feature of a WASM package gives.
pub open spec fn unsupported(r: Result<Option<Vec<u8>>, RuntimeError>, message: Seq<char>) -> bool {
    r matches Err(
        RuntimeError::ApplicationError(ApplicationError::PackageError(PackageError::WasmUnsupported(m))),
    ) && m@ == message
}

fn wasm_unsupported(message: &str) -> (r: RuntimeError)
    ensures
        r matches RuntimeError::ApplicationError(
            ApplicationError::PackageError(PackageError::WasmUnsupported(m)),
        ) && m@ == message@,
{
    RuntimeError::ApplicationError(ApplicationError::PackageError(PackageError::WasmUnsupported(String::from_str(message))))
}

fn check_fields(fields: &Vec<FieldSchemaInit>) -> (r: Option<RuntimeError>)
    ensures
        fields_error(fields@) is None ==> r is None,
        fields_error(fields@) matches Some(msg) ==> (r matches Some(
            RuntimeError::ApplicationError(ApplicationError::PackageError(PackageError::WasmUnsupported(m))),
        ) && m@ == msg),
{
    let mut i: usize = 0;
    assert(fields@.skip(0) =~= fields@);
    while i < fields.len()
        invariant
            i <= fields@.len(),
            fields_error(fields@) == fields_error(fields@.skip(i as int)),
        decreases fields@.len() - i,
    {
        proof {
            assert(fields@.skip(i as int)[0] == fields@[i as int]);
            assert(fields@.skip(i as int).drop_first() =~= fields@.skip(i + 1));
        }
        match &fields[i].condition {
            Condition::Always => {},
            _ => {
                proof {
                    reveal_strlit("Conditional fields are not supported");
                }
                return Some(wasm_unsupported("Conditional fields are not supported"));
            },
        }
        match &fields[i].transience {
            FieldTransience::NotTransient => {},
            _ => {
                proof {
                    reveal_strlit("Transient fields are not supported");
                }
                return Some(wasm_unsupported("Transient fields are not supported"));
            },
        }
        i = i + 1;
    }
    assert(fields@.skip(i as int) =~= Seq::<FieldSchemaInit>::empty());
    None
}

#[verifier::loop_isolation(false)]
fn check_blueprint(bp: &BlueprintDefinitionInit) -> (r: Option<RuntimeError>)
    ensures
        blueprint_error(*bp) is None ==> r is None,
        blueprint_error(*bp) matches Some(msg) ==> (r matches Some(
            RuntimeError::ApplicationError(ApplicationError::PackageError(PackageError::WasmUnsupported(m))),
        ) && m@ == msg),
{
    proof {
        reveal_strlit("Inner blueprints not supported");
        reveal_strlit("Feature set not supported");
        reveal_strlit("Static collections not supported");
        reveal_strlit("More than 1 substate field not supported");
        reveal_strlit("Hooks not supported");
        reveal_strlit("Irregular ref types not supported");
        reveal_strlit("Generics not supported");
        reveal_strlit("Transient blueprints not supported");
    }
    match &bp.blueprint_type {
        BlueprintType::Outer => {},
        BlueprintType::Inner { .. } => {
            return Some(wasm_unsupported("Inner blueprints not supported"));
        },
    }
    if bp.feature_set.len() > 0 {
        return Some(wasm_unsupported("Feature set not supported"));
    }
    if bp.collection_count > 0 {
        return Some(wasm_unsupported("Static collections not supported"));
    }
    if bp.fields.len() > 1 {
        return Some(wasm_unsupported("More than 1 substate field not supported"));
    }
    let field_error = check_fields(&bp.fields);
    if field_error.is_some() {
        return field_error;
    }
    if bp.hook_count > 0 {
        return Some(wasm_unsupported("Hooks not supported"));
    }
    let mut i: usize = 0;
    while i < bp.functions.len()
        invariant
            i <= bp.functions@.len(),
            forall|j: int| 0 <= j < i ==> !has_irregular_receiver(#[trigger] bp.functions@[j].1),
        decreases bp.functions@.len() - i,
    {
        match &bp.functions[i].1.receiver {
            Some(info) => {
                if info.ref_types.0 != REF_TYPES_NORMAL {
                    assert(has_irregular_receiver(bp.functions@[i as int].1));
                    return Some(wasm_unsupported("Irregular ref types not supported"));
                }
            },
            None => {},
        }
        i = i + 1;
    }
    if bp.generic_count > 0 {
        return Some(wasm_unsupported("Generics not supported"));
    }
    if bp.is_transient {
        return Some(wasm_unsupported("Transient blueprints not supported"));
    }
    None
}

#[verifier::loop_isolation(false)]
fn check_package(definition: &PackageDefinition) -> (r: Option<RuntimeError>)
    ensures
        package_error(definition.blueprints@) is None ==> r is None,
        package_error(definition.blueprints@) matches Some(msg) ==> (r matches Some(
            RuntimeError::ApplicationError(ApplicationError::PackageError(PackageError::WasmUnsupported(m))),
        ) && m@ == msg),
{
    let blueprints = &definition.blueprints;
    let mut i: usize = 0;
    assert(blueprints@.skip(0) =~= blueprints@);
    while i < blueprints.len()
        invariant
            i <= blueprints@.len(),
            package_error(blueprints@) == package_error(blueprints@.skip(i as int)),
        decreases blueprints@.len() - i,
    {
        proof {
            assert(blueprints@.skip(i as int)[0] == blueprints@[i as int]);
            assert(blueprints@.skip(i as int).drop_first() =~= blueprints@.skip(i + 1));
        }
        match check_blueprint(&blueprints[i].1) {
            Some(e) => {
                return Some(e);
            },
            None => {},
        }
        i = i + 1;
    }
    assert(blueprints@.skip(i as int) =~= Seq::<(String, BlueprintDefinitionInit)>::empty());
    None
}

/// Validation of packages before they are published.
pub struct VmPackageValidation;

impl VmPackageValidation {
    /// Validates a package. Native packages need nothing. A Scrypto package
    /// is first validated as WASM (the verdict of the WASM validator, run with
    /// the VM's minor version, is handed in: the instrumented code, or the
    /// validator's error), then each blueprint must avoid what Scrypto WASM
    /// packages do not support; on success the instrumented code is returned.
    pub fn validate(
        definition: &PackageDefinition,
        vm_type: VmType,
        wasm_validation: Result<Vec<u8>, String>,
    ) -> (r: Result<Option<Vec<u8>>, RuntimeError>)
        ensures
            vm_type == VmType::Native ==> r matches Ok(None),
            vm_type == VmType::ScryptoV1 ==> match wasm_validation {
                Err(e) => r matches Err(
                    RuntimeError::ApplicationError(
                        ApplicationError::PackageError(PackageError::InvalidWasm(m)),
                    ),
                ) && m@ == e@,
                Ok(code) => match package_error(definition.blueprints@) {
                    Some(msg) => unsupported(r, msg),
                    None => r matches Ok(Some(c)) && c@ == code@,
                },
            },
    {
        match vm_type {
            VmType::Native => Ok(None),
            VmType::ScryptoV1 => {
                let instrumented_code = match wasm_validation {
                    Ok(code) => code,
                    Err(e) => {
                        return Err(
                            RuntimeError::ApplicationError(
                                ApplicationError::PackageError(PackageError::InvalidWasm(e)),
                            ),
                        );
                    },
                };
                match check_package(definition) {
                    Some(e) => Err(e),
                    None => Ok(Some(instrumented_code)),
                }
            },
        }
    }
}

} // verus!
