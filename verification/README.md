# radix_runtime_fuzzer

The verified core of a fuzzer for the Radix engine runtime, with its
contracts proved by Verus.

- `src/` is the library. Each module states what its functions return over
  spec functions and views, and proves it:
  - `id_allocator`, `native_addresses`: node id allocation and the default
    counters that keep new ids clear of the native addresses;
  - `wasm_memory`, `payload`, `fuzzer_engine`, `vm`: WASM memory access,
    packed slices, coverage counters, the payload encoding of recorded calls,
    the engine that hands recorded invocations to new instances, and package
    validation;
  - `fuzzer_common`, `runtime_fuzzer`: the loggers that record the runtime
    calls of transactions, the replay plan of a recording, and the lookup of
    recorded invocations by name;
  - `transaction_model`, `test_transaction`, `decimal`: transactions, their
    execution context, and test transactions identified by a hash;
  - `non_fungible_proof`: proofs of non-fungible units and their moves;
  - `compiler`: the Scrypto compiler's builder, manifest and artifact paths,
    and the cargo command lines of its two build phases;
  - `substate_store`: the key layout of the substate database, the writes a
    commit makes, and the listing of partitions and their entries;
  - `forkserver`: the decisions of the AFL fork server loop.
- `app/` holds the process-level work around it: shared state, log files,
  the replay loop over a runtime, the fork server loop and the shared
  coverage map, and the compiler's file system and process
  calls.
- `tests/` runs the library on concrete values.
