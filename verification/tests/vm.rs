use radix_runtime_fuzzer::errors::{ApplicationError, PackageError, RuntimeError};
use radix_runtime_fuzzer::fuzzer_engine::FuzzerEngine;
use radix_runtime_fuzzer::types::{HashBytes, NodeId};
use radix_runtime_fuzzer::vm::{
    BlueprintDefinitionInit, BlueprintType, Condition, FieldSchemaInit, FieldTransience,
    FunctionSchemaInit, PackageDefinition, ReceiverInfo, RefTypes, ScryptoVm, Vm, VmApi, VmBoot,
    VmPackageValidation, VmType, VmVersion, WasmValidatorConfigV1,
};

fn blueprint() -> BlueprintDefinitionInit {
    BlueprintDefinitionInit {
        is_transient: false,
        blueprint_type: BlueprintType::Outer,
        feature_set: vec![],
        generic_count: 0,
        collection_count: 0,
        fields: vec![FieldSchemaInit {
            condition: Condition::Always,
            transience: FieldTransience::NotTransient,
        }],
        functions: vec![(
            String::from("f"),
            FunctionSchemaInit { receiver: Some(ReceiverInfo { ref_types: RefTypes(1) }) },
        )],
        hook_count: 0,
    }
}

fn package(bp: BlueprintDefinitionInit) -> PackageDefinition {
    PackageDefinition { blueprints: vec![(String::from("B"), bp)] }
}

fn unsupported(message: &str) -> RuntimeError {
    RuntimeError::ApplicationError(ApplicationError::PackageError(PackageError::WasmUnsupported(
        String::from(message),
    )))
}

#[test]
fn native_packages_need_no_validation() {
    let mut bp = blueprint();
    bp.is_transient = true;
    assert_eq!(
        VmPackageValidation::validate(&package(bp), VmType::Native, Err(String::from("x"))),
        Ok(None)
    );
}

#[test]
fn valid_scrypto_packages_keep_the_instrumented_code() {
    assert_eq!(
        VmPackageValidation::validate(&package(blueprint()), VmType::ScryptoV1, Ok(vec![1, 2])),
        Ok(Some(vec![1, 2]))
    );
}

#[test]
fn invalid_wasm_is_refused_first() {
    let mut bp = blueprint();
    bp.is_transient = true;
    assert_eq!(
        VmPackageValidation::validate(&package(bp), VmType::ScryptoV1, Err(String::from("bad"))),
        Err(RuntimeError::ApplicationError(ApplicationError::PackageError(
            PackageError::InvalidWasm(String::from("bad"))
        )))
    );
}

#[test]
fn unsupported_blueprint_features_in_order() {
    let check = |bp: BlueprintDefinitionInit| {
        VmPackageValidation::validate(&package(bp), VmType::ScryptoV1, Ok(vec![]))
    };
    let mut bp = blueprint();
    bp.blueprint_type = BlueprintType::Inner { outer_blueprint: String::from("O") };
    bp.is_transient = true;
    assert_eq!(check(bp), Err(unsupported("Inner blueprints not supported")));
    let mut bp = blueprint();
    bp.feature_set = vec![String::from("f")];
    assert_eq!(check(bp), Err(unsupported("Feature set not supported")));
    let mut bp = blueprint();
    bp.collection_count = 1;
    assert_eq!(check(bp), Err(unsupported("Static collections not supported")));
    let mut bp = blueprint();
    bp.fields.push(bp.fields[0].clone());
    assert_eq!(check(bp), Err(unsupported("More than 1 substate field not supported")));
    let mut bp = blueprint();
    bp.fields[0].condition = Condition::IfFeature(String::from("f"));
    assert_eq!(check(bp), Err(unsupported("Conditional fields are not supported")));
    let mut bp = blueprint();
    bp.fields[0].transience = FieldTransience::TransientStatic { default_value: vec![] };
    assert_eq!(check(bp), Err(unsupported("Transient fields are not supported")));
    let mut bp = blueprint();
    bp.hook_count = 1;
    assert_eq!(check(bp), Err(unsupported("Hooks not supported")));
    let mut bp = blueprint();
    bp.functions[0].1.receiver = Some(ReceiverInfo { ref_types: RefTypes(2) });
    assert_eq!(check(bp), Err(unsupported("Irregular ref types not supported")));
    let mut bp = blueprint();
    bp.generic_count = 1;
    assert_eq!(check(bp), Err(unsupported("Generics not supported")));
    let mut bp = blueprint();
    bp.is_transient = true;
    assert_eq!(check(bp), Err(unsupported("Transient blueprints not supported")));
}

#[test]
fn vm_versions() {
    assert_eq!(VmVersion::latest().get_scrypto_minor_version(), 1);
    let engine = FuzzerEngine::new();
    let scrypto_vm = ScryptoVm { wasm_engine: engine, wasm_validator_config: WasmValidatorConfigV1 };
    let _vm = Vm::new(&scrypto_vm, ());
    assert_eq!(
        Vm::<FuzzerEngine, ()>::init(Some(VmBoot::V1 { scrypto_v1_minor_version: 7 }))
            .get_scrypto_minor_version(),
        7
    );
    assert_eq!(Vm::<FuzzerEngine, ()>::init(None).get_scrypto_minor_version(), 0);
}

#[test]
fn scrypto_vm_instances_take_the_next_invocation() {
    let mut engine = FuzzerEngine::new();
    engine.set_invokes(vec![vec![vec![1]]]);
    let mut scrypto_vm =
        ScryptoVm { wasm_engine: engine, wasm_validator_config: WasmValidatorConfigV1 };
    let instance = scrypto_vm.create_instance(&NodeId([13, 0, 20]), HashBytes([0; 32]), &[]);
    assert_eq!(instance.package_address, NodeId([13, 0, 20]));
    assert_eq!(instance.instance.code_to_execute("f"), Ok(&vec![vec![1]]));
}

#[test]
fn default_vm_version_is_minor_version_zero() {
    assert_eq!(VmVersion::default().get_scrypto_minor_version(), 0);
}
