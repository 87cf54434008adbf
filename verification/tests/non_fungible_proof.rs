use radix_runtime_fuzzer::errors::{ApplicationError, RuntimeError};
use radix_runtime_fuzzer::native_addresses::RESOURCE_PACKAGE;
use radix_runtime_fuzzer::non_fungible_proof::{
    BlueprintId, ClientApi, LocalRef, NonFungibleProofBlueprint, NonFungibleProofSubstate,
    ProofError,
};
use radix_runtime_fuzzer::transaction_model::{LocalIdView, NonFungibleLocalId};
use radix_runtime_fuzzer::types::NodeId;

struct Recorder {
    calls: Vec<(NodeId, String, Vec<NonFungibleLocalId>)>,
    fail_at: Option<usize>,
}

impl ClientApi for Recorder {
    fn answered_calls(
        &self,
    ) -> vstd::seq::Seq<((NodeId, vstd::seq::Seq<char>, vstd::seq::Seq<LocalIdView>), Result<(), RuntimeError>)>
    {
        vstd::seq::Seq::empty()
    }

    fn call_method(
        &mut self,
        receiver: &NodeId,
        method_name: &str,
        locked_ids: &Vec<NonFungibleLocalId>,
    ) -> Result<(), RuntimeError> {
        if self.fail_at == Some(self.calls.len()) {
            return Err(RuntimeError::ApplicationError(ApplicationError::Panic(String::from(
                "refused",
            ))));
        }
        self.calls.push((*receiver, method_name.to_string(), locked_ids.clone()));
        Ok(())
    }
}

fn ids(v: &[u64]) -> Vec<NonFungibleLocalId> {
    v.iter().map(|n| NonFungibleLocalId::Integer(*n)).collect()
}

fn sample_proof() -> NonFungibleProofSubstate {
    NonFungibleProofSubstate::new(
        ids(&[1, 2]),
        vec![
            (LocalRef::Bucket(NodeId([240, 0, 1])), ids(&[1])),
            (LocalRef::Vault(NodeId([152, 0, 2])), ids(&[2])),
        ],
    )
    .unwrap()
}

#[test]
fn empty_proofs_are_refused() {
    let r = NonFungibleProofSubstate::new(vec![], vec![]);
    assert!(matches!(r, Err(ProofError::EmptyProofNotAllowed)));
}

#[test]
fn amount_counts_the_locked_units() {
    let p = sample_proof();
    assert_eq!(p.amount().0, 2_000_000_000_000_000_000);
    assert_eq!(p.non_fungible_local_ids(), &ids(&[1, 2]));
}

#[test]
fn clone_proof_locks_again_in_each_container() {
    let p = sample_proof();
    let mut api = Recorder { calls: vec![], fail_at: None };
    let copy = p.clone_proof(&mut api).unwrap();
    assert_eq!(copy.non_fungible_local_ids(), p.non_fungible_local_ids());
    assert_eq!(copy.evidence(), p.evidence());
    assert_eq!(
        api.calls,
        vec![
            (NodeId([240, 0, 1]), String::from("lock_non_fungibles"), ids(&[1])),
            (NodeId([152, 0, 2]), String::from("lock_non_fungibles"), ids(&[2])),
        ]
    );
}

#[test]
fn clone_proof_stops_at_the_first_error() {
    let p = sample_proof();
    let mut api = Recorder { calls: vec![], fail_at: Some(1) };
    assert!(p.clone_proof(&mut api).is_err());
    assert_eq!(api.calls.len(), 1);
}

#[test]
fn teardown_unlocks_in_each_container() {
    let mut api = Recorder { calls: vec![], fail_at: None };
    sample_proof().teardown(&mut api).unwrap();
    assert_eq!(
        api.calls,
        vec![
            (NodeId([240, 0, 1]), String::from("unlock_non_fungibles"), ids(&[1])),
            (NodeId([152, 0, 2]), String::from("unlock_non_fungibles"), ids(&[2])),
        ]
    );
}

fn blueprint(name: &str) -> Option<BlueprintId> {
    Some(BlueprintId { package_address: RESOURCE_PACKAGE, blueprint_name: String::from(name) })
}

#[test]
fn moves_of_proofs() {
    // Moving up is free.
    assert_eq!(NonFungibleProofBlueprint::on_move(false, true, None, true), Ok(None));
    // Moving down into another proof is free.
    assert_eq!(
        NonFungibleProofBlueprint::on_move(true, true, blueprint("NonFungibleProof"), true),
        Ok(None)
    );
    // Moving down elsewhere, neither across a barrier nor into an auth zone, is free.
    assert_eq!(
        NonFungibleProofBlueprint::on_move(true, false, blueprint("Account"), true),
        Ok(None)
    );
    // Across a barrier the proof becomes restricted.
    assert_eq!(NonFungibleProofBlueprint::on_move(true, true, None, false), Ok(Some(true)));
    // Into an auth zone the flag is kept.
    assert_eq!(
        NonFungibleProofBlueprint::on_move(true, false, blueprint("AuthZone"), false),
        Ok(Some(false))
    );
    // A restricted proof cannot move down across a barrier.
    assert_eq!(
        NonFungibleProofBlueprint::on_move(true, true, None, true),
        Err(RuntimeError::ApplicationError(ApplicationError::Panic(String::from(
            "Moving restricted proof downstream"
        ))))
    );
}

#[test]
fn a_proof_without_containers_makes_no_call() {
    let p = NonFungibleProofSubstate::new(ids(&[3]), vec![]).unwrap();
    let mut api = Recorder { calls: vec![], fail_at: Some(0) };
    let copy = p.clone_proof(&mut api).unwrap();
    assert_eq!(copy.non_fungible_local_ids(), &ids(&[3]));
    assert!(p.teardown(&mut api).is_ok());
    assert!(api.calls.is_empty());
}
