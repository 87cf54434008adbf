use radix_runtime_fuzzer::fuzzer_common::logger as common;
use radix_runtime_fuzzer::fuzzer_common::transaction::RadixRuntimeFuzzerTransaction;
use radix_runtime_fuzzer::payload::{encode_bytes_payload, encode_call_log_payload};
use radix_runtime_fuzzer::runtime_fuzzer::logger as marked;
use radix_runtime_fuzzer::runtime_fuzzer::transaction::RadixRuntimeFuzzingInvokes;
use radix_runtime_fuzzer::runtime_fuzzer::{
    fuzz_plan, RadixRuntimeInvokeLogger, RadixRuntimeLogger, RETURN_FUNC_ID,
};
use radix_runtime_fuzzer::transaction_model::{
    AuthZoneParams, Decimal, Executable, ExecutionContext, InstructionV1, ManifestValue,
    NonFungibleGlobalId, NonFungibleLocalId, TransactionCostingParameters, TransactionIntentHash,
};
use radix_runtime_fuzzer::types::{HashBytes, NodeId};

fn context(system: bool) -> ExecutionContext {
    let initial_proofs = if system {
        vec![NonFungibleGlobalId {
            resource_address: [154, 0, 5],
            local_id: NonFungibleLocalId::Integer(0),
        }]
    } else {
        vec![]
    };
    ExecutionContext {
        intent_hash: TransactionIntentHash::NotToCheck { intent_hash: HashBytes([1; 32]) },
        epoch_range: None,
        payload_size: 0,
        num_of_signature_validations: 1,
        auth_zone_params: AuthZoneParams { initial_proofs, virtual_resources: vec![] },
        costing_parameters: TransactionCostingParameters {
            tip_percentage: 0,
            free_credit_in_xrd: Decimal(0),
        },
        pre_allocated_addresses: vec![],
    }
}

fn call(name: &str) -> InstructionV1 {
    InstructionV1::CallMethod {
        address: NodeId([192, 0, 9]),
        method_name: String::from(name),
        args: ManifestValue::Encoded { bytes: vec![] },
    }
}

#[test]
fn common_invoke_logger_skips_the_first_and_nested_calls() {
    let mut logger = common::RadixRuntimeInvokeLogger::new();
    logger.runtime_call_start(vec![1]);
    logger.runtime_call_end(None);
    logger.runtime_call_start(vec![2]);
    logger.runtime_call_start(vec![3]);
    logger.runtime_call_end(None);
    logger.runtime_call_end(None);
    logger.finish(&vec![9]);
    assert_eq!(logger.instructions(), &vec![vec![2], vec![9]]);
}

#[test]
fn common_logger_records_successful_transactions() {
    let blobs = vec![(HashBytes([4; 32]), vec![1, 2, 3])];
    let references = vec![NodeId([13, 0, 1])];
    let executable = Executable::new(&[7], &references, &blobs, context(false));
    let mut logger = common::RadixRuntimeLogger::new();
    logger.transaction_execution_start(&executable, vec![call("a")]);
    logger.instruction_start(&call("a"));
    logger.invoke_start(&vec![]);
    logger.runtime_call_start(vec![1]);
    logger.runtime_call_end(None);
    logger.runtime_call_start(vec![2]);
    logger.runtime_call_end(None);
    logger.invoke_end(&vec![5]);
    let action = logger.transaction_execution_end(true).unwrap();
    assert!(action.remove_existing_file);
    assert!(action.write);
    assert_eq!(action.transaction.invokes, vec![vec![vec![2], vec![5]]]);
    assert_eq!(action.transaction.blobs, vec![(HashBytes([4; 32]), vec![])]);
    assert_eq!(action.transaction.references, references);
    assert_eq!(action.transaction.instructions, vec![call("a")]);

    // The next transaction does not remove the file; a disabled logger does not write.
    logger.disable_write_to_file();
    logger.transaction_execution_start(&executable, vec![]);
    let action = logger.transaction_execution_end(true).unwrap();
    assert!(!action.remove_existing_file);
    assert!(!action.write);
}

#[test]
fn common_logger_skips_failed_and_system_transactions() {
    let blobs = vec![];
    let references = vec![];
    let mut logger = common::RadixRuntimeLogger::new();
    let failed = Executable::new(&[], &references, &blobs, context(false));
    logger.transaction_execution_start(&failed, vec![call("a")]);
    assert!(logger.transaction_execution_end(false).is_none());
    let system = Executable::new(&[], &references, &blobs, context(true));
    logger.transaction_execution_start(&system, vec![]);
    assert!(logger.transaction_execution_end(true).is_none());
}

#[test]
fn invoke_logger_records_top_level_calls_with_their_ids() {
    let mut logger = RadixRuntimeInvokeLogger::new(&vec![]);
    logger.runtime_call_start(String::from("f"), 3, vec![vec![1]]);
    logger.runtime_call_start(String::from("g"), 4, vec![vec![2]]);
    logger.runtime_call_end(String::from("g"), 4, vec![]);
    logger.runtime_call_end(String::from("f"), 3, vec![]);
    let calls = logger.finish(&vec![8]).clone();
    assert_eq!(calls, vec![(3, vec![vec![1]]), (RETURN_FUNC_ID, vec![vec![8]])]);
}

#[test]
fn nested_invocations_are_encoded_into_the_parent_call() {
    let mut parent = RadixRuntimeInvokeLogger::new(&vec![]);
    parent.runtime_call_start(String::from("call"), 3, vec![vec![1], vec![2]]);
    let mut nested = RadixRuntimeInvokeLogger::new(&vec![]);
    nested.runtime_call_start(String::from("h"), 6, vec![vec![7]]);
    nested.runtime_call_end(String::from("h"), 6, vec![]);
    parent.invoke_in_invoke_end(nested, &vec![9]);
    parent.runtime_call_end(String::from("call"), 3, vec![]);
    let nested_calls = vec![(6u8, vec![vec![7u8]]), (RETURN_FUNC_ID, vec![vec![9u8]])];
    let encoded = encode_bytes_payload(&encode_call_log_payload(&nested_calls));
    let calls = parent.finish(&vec![0]).clone();
    assert_eq!(calls[0], (3, vec![vec![1], encoded]));
}

#[test]
fn logger_puts_the_call_log_into_the_instruction() {
    let blobs = vec![];
    let references = vec![];
    let executable = Executable::new(&[], &references, &blobs, context(false));
    let mut logger = RadixRuntimeLogger::new();
    logger.transaction_execution_start(&executable, vec![call("a")]);
    logger.instruction_start(&call("a"));
    logger.invoke_start(&vec![]);
    logger.runtime_call_start(String::from("f"), 2, vec![vec![4]]);
    logger.runtime_call_end(String::from("f"), 2, vec![]);
    logger.invoke_end(&vec![5]);
    let data = logger.transaction_execution_end(true).unwrap();
    assert_eq!(data.tx_id, 0);
    assert_eq!(
        data.instructions,
        vec![InstructionV1::CallMethod {
            address: NodeId([192, 0, 9]),
            method_name: String::from("a"),
            args: ManifestValue::CallLog {
                calls: vec![(2, vec![vec![4]]), (RETURN_FUNC_ID, vec![vec![5]])]
            },
        }]
    );
}

#[test]
fn disabled_logger_records_nothing() {
    let mut logger = RadixRuntimeLogger::new();
    logger.disable();
    logger.invoke_start(&vec![]);
    logger.runtime_call_start(String::from("f"), 2, vec![]);
    logger.runtime_call_end(String::from("f"), 2, vec![]);
    logger.invoke_end(&vec![]);
}

#[test]
fn marked_logger_keeps_invocations_and_marks_instructions() {
    let blobs = vec![];
    let references = vec![];
    let executable = Executable::new(&[], &references, &blobs, context(false));
    let mut logger = marked::RadixRuntimeLogger::new();
    logger.transaction_execution_start(&executable, vec![call("a")]);
    logger.instruction_start(&call("a"));
    logger.invoke_start(&vec![]);
    logger.runtime_call_start(String::from("f"), vec![4]);
    logger.runtime_call_end(String::from("f"), None);
    logger.invoke_end(&vec![5]);
    // A failed transaction is logged too.
    let data = logger.transaction_execution_end(false).unwrap();
    assert_eq!(data.invokes, vec![vec![vec![4], vec![5]]]);
    assert_eq!(
        data.instructions,
        vec![InstructionV1::CallMethod {
            address: NodeId([192, 0, 9]),
            method_name: String::from("a"),
            args: ManifestValue::String { value: String::from("fuzz_invoke") },
        }]
    );
}

#[test]
fn replay_plan_stops_at_the_return_marker() {
    let calls = vec![(1u8, vec![vec![1u8]]), (RETURN_FUNC_ID, vec![vec![2], vec![3]]), (4, vec![])];
    let (to_execute, output) = fuzz_plan(&calls);
    assert_eq!(to_execute, vec![(1u8, vec![vec![1u8]])]);
    assert_eq!(output, Some(vec![3]));
    let (to_execute, output) = fuzz_plan(&vec![(1u8, vec![])]);
    assert_eq!(to_execute, vec![(1u8, vec![])]);
    assert_eq!(output, None);
}

#[test]
fn invokes_are_looked_up_by_name() {
    let mut tx = RadixRuntimeFuzzerTransaction {
        instructions: vec![],
        references: vec![],
        blobs: vec![],
        execution_context: context(false),
        invokes: vec![vec![vec![1]], vec![vec![2]]],
    };
    let mut invokes = RadixRuntimeFuzzingInvokes::new();
    assert_eq!(invokes.get_invoke(String::from("INVOKE_0")), Err(String::from("Invalid invoke number")));
    tx.set_global_invokes(&mut invokes);
    assert_eq!(invokes.get_invoke(String::from("INVOKE_1")), Ok(vec![vec![2]]));
    assert_eq!(invokes.get_invoke(String::from("INVOKE_+0")), Ok(vec![vec![1]]));
    assert_eq!(invokes.get_invoke(String::from("INVOKE_2")), Err(String::from("Invalid invoke number")));
    assert_eq!(invokes.get_invoke(String::from("CALL_1")), Err(String::from("Invalid invoke string")));
    assert_eq!(
        invokes.get_invoke(String::from("INVOKE_x")),
        Err(String::from("Invalid invoke, not a number"))
    );
    let executable = tx.get_executable();
    assert!(executable.encoded_instructions.is_empty());
}

#[test]
fn a_recording_replays_to_its_return_value() {
    let mut logger = RadixRuntimeInvokeLogger::new(&vec![]);
    logger.runtime_call_start(String::from("f"), 1, vec![vec![1]]);
    logger.runtime_call_end(String::from("f"), 1, vec![]);
    logger.runtime_call_start(String::from("g"), 2, vec![]);
    logger.runtime_call_end(String::from("g"), 2, vec![]);
    let recorded = logger.finish(&vec![7, 7]).clone();
    let (to_execute, output) = fuzz_plan(&recorded);
    assert_eq!(to_execute, vec![(1u8, vec![vec![1u8]]), (2u8, vec![])]);
    assert_eq!(output, Some(vec![7, 7]));
}

#[test]
fn invocations_are_named_by_their_number() {
    let tx = RadixRuntimeFuzzerTransaction {
        instructions: vec![],
        references: vec![],
        blobs: vec![],
        execution_context: context(false),
        invokes: (0..12u8).map(|n| vec![vec![n]]).collect(),
    };
    let mut invokes = RadixRuntimeFuzzingInvokes::new();
    tx.set_global_invokes(&mut invokes);
    assert_eq!(invokes.get_invoke(format!("INVOKE_{}", 11)), Ok(vec![vec![11]]));
    assert_eq!(invokes.get_invoke(format!("INVOKE_{}", 0)), Ok(vec![vec![0]]));
}
