use radix_runtime_fuzzer::native_addresses::{
    ED25519_SIGNATURE_VIRTUAL_BADGE, SECP256K1_SIGNATURE_VIRTUAL_BADGE,
};
use radix_runtime_fuzzer::decimal::push_decimal;
use radix_runtime_fuzzer::test_transaction::{
    PreparedTestTransaction, TestTransaction, TestTransactionFlags,
    TransactionManifestV1,
};
use radix_runtime_fuzzer::transaction_model::{
    InstructionV1, NonFungibleGlobalId, NonFungibleLocalId, TransactionIntentHash,
};
use radix_runtime_fuzzer::types::{HashBytes, NodeId};

fn manifest() -> TransactionManifestV1 {
    TransactionManifestV1 {
        instructions: vec![InstructionV1::Other { encoded: vec![1, 2] }],
        blobs: vec![(HashBytes([7; 32]), vec![9, 9, 9]), (HashBytes([8; 32]), vec![1])],
    }
}

#[test]
fn new_keeps_instructions_and_blob_contents() {
    let t = TestTransaction::new(manifest(), HashBytes([3; 32]));
    assert_eq!(t.instructions, vec![InstructionV1::Other { encoded: vec![1, 2] }]);
    assert_eq!(t.blobs, vec![vec![9, 9, 9], vec![1]]);
    assert_eq!(t.hash, HashBytes([3; 32]));
    assert!(!t.flags.assume_all_signature_proofs);
    let flagged = t.with_flags(TestTransactionFlags { assume_all_signature_proofs: true });
    assert!(flagged.flags.assume_all_signature_proofs);
    assert_eq!(flagged.hash, HashBytes([3; 32]));
}

#[test]
fn nonce_transactions_are_identified_by_a_blake2b_hash() {
    let t = TestTransaction::new_from_nonce(manifest(), 42);
    assert_eq!(
        t.hash.0,
        [
            29, 124, 45, 209, 150, 169, 95, 186, 43, 73, 227, 250, 120, 203, 152, 241, 8, 161, 1,
            239, 173, 192, 124, 222, 24, 138, 34, 54, 130, 116, 42, 66
        ]
    );
    let other = TestTransaction::new_from_nonce(manifest(), 43);
    assert_ne!(t.hash, other.hash);
}

#[test]
fn decimal_digits() {
    let mut s = String::from("n=");
    push_decimal(&mut s, 0);
    assert_eq!(s, "n=0");
    let mut s = String::new();
    push_decimal(&mut s, 4294967295);
    assert_eq!(s, "4294967295");
}

#[test]
fn executable_of_a_prepared_test_transaction() {
    let prepared = PreparedTestTransaction {
        encoded_instructions: vec![1, 2, 3, 4],
        references: vec![NodeId([1, 0, 1])],
        blobs: vec![(HashBytes([1; 32]), vec![0; 10]), (HashBytes([2; 32]), vec![0; 5])],
        hash: HashBytes([5; 32]),
        flags: TestTransactionFlags { assume_all_signature_proofs: true },
    };
    let proofs = vec![NonFungibleGlobalId {
        resource_address: [154, 0, 5],
        local_id: NonFungibleLocalId::Integer(0),
    }];
    let executable = prepared.get_executable(proofs.clone());
    assert_eq!(executable.encoded_instructions, &[1, 2, 3, 4]);
    assert_eq!(executable.context.payload_size, 19);
    assert_eq!(executable.context.num_of_signature_validations, 2);
    assert_eq!(
        executable.context.intent_hash,
        TransactionIntentHash::NotToCheck { intent_hash: HashBytes([5; 32]) }
    );
    assert_eq!(executable.context.epoch_range, None);
    assert_eq!(executable.context.auth_zone_params.initial_proofs, proofs);
    assert_eq!(
        executable.context.auth_zone_params.virtual_resources,
        vec![SECP256K1_SIGNATURE_VIRTUAL_BADGE, ED25519_SIGNATURE_VIRTUAL_BADGE]
    );
    assert_eq!(executable.context.costing_parameters.tip_percentage, 0);
    assert_eq!(executable.context.costing_parameters.free_credit_in_xrd.0, 0);
    assert!(executable.context.pre_allocated_addresses.is_empty());

    let plain = PreparedTestTransaction {
        flags: TestTransactionFlags::default(),
        ..prepared
    };
    let executable = plain.get_executable(vec![]);
    assert!(executable.context.auth_zone_params.virtual_resources.is_empty());
    assert_eq!(executable.context.num_of_signature_validations, 1);
}
