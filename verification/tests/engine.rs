use radix_runtime_fuzzer::forkserver::{
    on_forked, on_request, on_wait, ForkServerState, RequestAction, WaitOutcome,
};
use radix_runtime_fuzzer::errors::{IdAllocationError, KernelError, RuntimeError};
use radix_runtime_fuzzer::fuzzer_engine::{FuzzerEngine, FuzzerInstance};
use radix_runtime_fuzzer::id_allocator::IdAllocator;
use radix_runtime_fuzzer::native_addresses::default_next_node_ids;
use radix_runtime_fuzzer::payload::{encode_bytes_payload, encode_call_log_payload, write_size};
use radix_runtime_fuzzer::types::{HashBytes, NodeId, ENTITY_GLOBAL_FUNGIBLE_RESOURCE_MANAGER};
use radix_runtime_fuzzer::wasm_memory::{
    merge_coverage_counters, read_memory, read_slice, write_memory, InvokeError, Slice,
    WasmRuntimeError,
};

#[test]
fn allocation_uses_the_entity_counter() {
    let mut next = [1u32; 256];
    next[7] = 0x0102;
    let mut allocator = IdAllocator::new(HashBytes([0; 32]), next);
    assert_eq!(allocator.allocate_node_id(7), Ok(NodeId([7, 1, 2])));
    assert_eq!(allocator.allocate_node_id(7), Ok(NodeId([7, 1, 3])));
    assert_eq!(allocator.get_next_node_ids()[7], 0x0104);
    assert_eq!(allocator.get_next_node_ids()[8], 1);
}

#[test]
fn allocation_runs_out_at_the_limit() {
    let mut next = [1u32; 256];
    next[9] = 65534;
    let mut allocator = IdAllocator::new(HashBytes([0; 32]), next);
    assert_eq!(allocator.allocate_node_id(9), Ok(NodeId([9, 255, 254])));
    assert_eq!(
        allocator.allocate_node_id(9),
        Err(RuntimeError::KernelError(KernelError::IdAllocationError(IdAllocationError::OutOfID)))
    );
    assert_eq!(allocator.get_next_node_ids()[9], 65535);
}

#[test]
fn default_counters_skip_native_addresses() {
    let next = default_next_node_ids();
    assert_eq!(next[0], 1);
    assert_eq!(next[13], 16);
    assert_eq!(next[93], 2);
    assert_eq!(next[130], 2);
    assert_eq!(next[134], 2);
    assert_eq!(next[154], 10);
    assert_eq!(next[192], 3);
    let mut allocator = IdAllocator::new(HashBytes([0; 32]), next);
    // XRD is [93, 0, 1]: the first new fungible resource comes after it.
    assert_eq!(
        allocator.allocate_node_id(ENTITY_GLOBAL_FUNGIBLE_RESOURCE_MANAGER),
        Ok(NodeId([93, 0, 2]))
    );
}

#[test]
fn slices_pack_pointer_and_length() {
    let s = Slice::new(0x10, 0x20);
    assert_eq!(s.0, 0x0000_0020_0000_0010);
    assert_eq!(s.ptr(), 0x10);
    assert_eq!(s.len(), 0x20);
    assert_eq!(Slice::transmute_i64(s.as_i64()), s);
    let negative = Slice::transmute_i64(-1);
    assert_eq!(negative.ptr(), u32::MAX);
    assert_eq!(negative.len(), u32::MAX);
    assert_eq!(negative.as_i64(), -1);
}

#[test]
fn memory_reads_and_writes_stay_in_bounds() {
    let mut memory = vec![0u8; 8];
    assert_eq!(write_memory(&mut memory, 2, &[1, 2, 3]), Ok(()));
    assert_eq!(memory, vec![0, 0, 1, 2, 3, 0, 0, 0]);
    assert_eq!(read_memory(&memory, 2, 3), Ok(vec![1, 2, 3]));
    assert_eq!(read_memory(&memory, 8, 0), Ok(vec![]));
    assert_eq!(
        read_memory(&memory, 7, 2),
        Err(InvokeError::SelfError(WasmRuntimeError::MemoryAccessError))
    );
    assert_eq!(
        write_memory(&mut memory, 6, &[9, 9, 9]),
        Err(InvokeError::SelfError(WasmRuntimeError::MemoryAccessError))
    );
    assert_eq!(memory, vec![0, 0, 1, 2, 3, 0, 0, 0]);
    assert_eq!(read_slice(&memory, Slice::new(3, 2)), Ok(vec![2, 3]));
    assert_eq!(
        read_slice(&memory, Slice::new(u32::MAX, 2)),
        Err(InvokeError::SelfError(WasmRuntimeError::MemoryAccessError))
    );
}

#[test]
fn coverage_counters_wrap_and_sum() {
    let mut area = vec![250u8, 1, 7];
    let sum = merge_coverage_counters(&mut area, &[10, 2]);
    assert_eq!(area, vec![4, 3, 7]);
    assert_eq!(sum, 14);
}

#[test]
fn sizes_are_little_endian_groups_of_seven_bits() {
    let mut out = vec![];
    write_size(&mut out, 0);
    write_size(&mut out, 127);
    write_size(&mut out, 128);
    write_size(&mut out, 300);
    assert_eq!(out, vec![0, 127, 0x80, 0x01, 0xAC, 0x02]);
}

#[test]
fn payloads_of_bytes_and_call_logs() {
    assert_eq!(encode_bytes_payload(&vec![1, 2]), vec![0x5c, 0x20, 0x07, 2, 1, 2]);
    assert_eq!(
        encode_call_log_payload(&vec![(3, vec![vec![9]]), (0xFF, vec![])]),
        vec![
            0x5c, 0x20, 0x21, 2, // array of two tuples
            2, 0x07, 3, 0x20, 0x20, 1, 0x07, 1, 9, // (3u8, [[9]])
            2, 0x07, 0xFF, 0x20, 0x20, 0, // (255u8, [])
        ]
    );
}

#[test]
fn the_engine_hands_out_invocations_in_order() {
    let mut engine = FuzzerEngine::new();
    assert_eq!(engine.get_invoke(), None);
    engine.set_invokes(vec![vec![vec![1]], vec![vec![2]]]);
    let first = engine.instantiate(HashBytes([0; 32]), &[]);
    assert_eq!(first.code_to_execute("f"), Ok(&vec![vec![1]]));
    assert_eq!(engine.get_invoke(), Some(vec![vec![2]]));
    let empty = engine.instantiate(HashBytes([0; 32]), &[]);
    assert_eq!(
        empty.code_to_execute("main"),
        Err(InvokeError::SelfError(WasmRuntimeError::ExecutionError(String::from(
            "No code to execute in main"
        ))))
    );
}

#[test]
fn invocation_results() {
    assert_eq!(FuzzerInstance::invoke_result("f", Ok(vec![5])), Ok(vec![5]));
    assert_eq!(
        FuzzerInstance::invoke_result("f", Err(())),
        Err(InvokeError::SelfError(WasmRuntimeError::ExecutionError(String::from(
            "Fuzzing error in f"
        ))))
    );
    let instance = FuzzerInstance::new(Some(vec![vec![1, 2]]));
    assert_eq!(instance.code_to_execute("f"), Ok(&vec![vec![1, 2]]));
}

#[test]
fn fork_server_steps() {
    let start = ForkServerState { child_stopped: false, child_pid: None };
    assert_eq!(on_request(start, false), (start, RequestAction::Fork));
    let forked = on_forked(start, 42);
    assert_eq!(forked.child_pid, Some(42));
    let (stopped, status) = on_wait(forked, WaitOutcome::Stopped);
    assert!(stopped.child_stopped);
    assert_eq!(status, 0);
    let (resumed, action) = on_request(stopped, false);
    assert_eq!(action, RequestAction::Resume { pid: 42 });
    assert!(!resumed.child_stopped);
    let (reaped, action) = on_request(stopped, true);
    assert_eq!(action, RequestAction::ReapThenFork { pid: 42 });
    assert!(!reaped.child_stopped);
    assert_eq!(on_wait(forked, WaitOutcome::Exited { code: 3 }), (forked, 3));
    assert_eq!(on_wait(forked, WaitOutcome::Other), (forked, 0));
}
