//! Verified core of the Radix runtime fuzzer: node id allocation, proof
//! substates, VM package validation, the fuzzer WASM engine and its memory
//! access, runtime call loggers and their replay, test transactions, the
//! Scrypto compiler's paths and command lines, and the substate store's key
//! codec and commit plan.

pub mod types;
pub mod errors;
pub mod id_allocator;
pub mod native_addresses;
pub mod wasm_memory;
pub mod bytes;
pub mod decimal;
pub mod fuzzer_engine;
pub mod transaction_model;
pub mod fuzzer_common;
pub mod payload;
pub mod runtime_fuzzer;
pub mod vm;
pub mod compiler;
pub mod test_transaction;
pub mod non_fungible_proof;
pub mod substate_store;
pub mod forkserver;
