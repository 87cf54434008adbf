use vstd::prelude::*;

use crate::errors::{ApplicationError, RuntimeError};
use crate::native_addresses::RESOURCE_PACKAGE;
use crate::transaction_model::{
    bytes_lt, clone_local_id, is_id_set, lemma_bytes_lt_irreflexive, lemma_id_set_no_repeats,
    Decimal, LocalIdView, NonFungibleLocalId,
};
use crate::types::{address_eq, NodeId};

verus! {

/// The method of a non-fungible bucket that locks some of its units.
pub const NON_FUNGIBLE_BUCKET_LOCK_NON_FUNGIBLES_IDENT: &'static str = "lock_non_fungibles";
/// The method of a non-fungible bucket that unlocks some of its units.
pub const NON_FUNGIBLE_BUCKET_UNLOCK_NON_FUNGIBLES_IDENT: &'static str = "unlock_non_fungibles";
/// The method of a non-fungible vault that locks some of its units.
pub const NON_FUNGIBLE_VAULT_LOCK_NON_FUNGIBLES_IDENT: &'static str = "lock_non_fungibles";
/// The method of a non-fungible vault that unlocks some of its units.
pub const NON_FUNGIBLE_VAULT_UNLOCK_NON_FUNGIBLES_IDENT: &'static str = "unlock_non_fungibles";
/// The blueprint of non-fungible proofs.
pub const NON_FUNGIBLE_PROOF_BLUEPRINT: &'static str = "NonFungibleProof";
/// The blueprint of auth zones.
pub const AUTH_ZONE_BLUEPRINT: &'static str = "AuthZone";

/// Errors of proofs.
#[derive(Debug, Clone, PartialEq, Eq)]
pub enum ProofError {
    /// A proof must lock at least one unit.
    EmptyProofNotAllowed,
}

/// A container that supports a proof: a bucket or a vault.
#[derive(Debug, Clone, Copy, PartialEq, Eq)]
pub enum LocalRef {
    Bucket(NodeId),
    Vault(NodeId),
}

impl LocalRef {
    /// The node of the container.
    pub open spec fn node_id(self) -> NodeId {
        match self {
            LocalRef::Bucket(id) => id,
            LocalRef::Vault(id) => id,
        }
    }

    pub fn as_node_id(&self) -> (r: NodeId)
        ensures
            r == self.node_id(),
    {
        match self {
            LocalRef::Bucket(id) => *id,
            LocalRef::Vault(id) => *id,
        }
    }
}

/// Whether container `a` sorts before `b`: buckets before vaults, then by
/// node id.
pub open spec fn local_ref_lt(a: LocalRef, b: LocalRef) -> bool {
    match (a, b) {
        (LocalRef::Bucket(x), LocalRef::Bucket(y)) => bytes_lt(x.0@, y.0@),
        (LocalRef::Vault(x), LocalRef::Vault(y)) => bytes_lt(x.0@, y.0@),
        (LocalRef::Bucket(_), LocalRef::Vault(_)) => true,
        (LocalRef::Vault(_), LocalRef::Bucket(_)) => false,
    }
}

/// Whether the evidence of a proof is a map: its containers in ascending
/// order, each once, each with a set of units.
pub open spec fn is_evidence_map(e: Seq<(LocalRef, Seq<LocalIdView>)>) -> bool {
    &&& forall|i: int, j: int|
        0 <= i < j < e.len() ==> local_ref_lt(#[trigger] e[i].0, #[trigger] e[j].0)
    &&& forall|i: int| 0 <= i < e.len() ==> is_id_set(#[trigger] e[i].1)
}

/// A container does not sort before itself, so the containers of a map
/// occur once each.
pub proof fn lemma_evidence_map_no_repeats(e: Seq<(LocalRef, Seq<LocalIdView>)>)
    requires
        is_evidence_map(e),
    ensures
        forall|i: int, j: int| 0 <= i < j < e.len() ==> e[i].0 != e[j].0,
{
    assert forall|i: int, j: int| 0 <= i < j < e.len() implies e[i].0 != e[j].0 by {
        assert(local_ref_lt(e[i].0, e[j].0));
        match e[i].0 {
            LocalRef::Bucket(x) => lemma_bytes_lt_irreflexive(x.0@),
            LocalRef::Vault(x) => lemma_bytes_lt_irreflexive(x.0@),
        }
    }
}

/// The values of a list of local ids.
pub open spec fn local_ids_view(v: Seq<NonFungibleLocalId>) -> Seq<LocalIdView> {
    Seq::new(v.len(), |i: int| v[i]@)
}

/// A copy of a list of local ids.
pub fn clone_local_ids(v: &Vec<NonFungibleLocalId>) -> (r: Vec<NonFungibleLocalId>)
    ensures
        local_ids_view(r@) == local_ids_view(v@),
{
    let mut r: Vec<NonFungibleLocalId> = Vec::new();
    let mut i: usize = 0;
    while i < v.len()
        invariant
            i <= v@.len(),
            r@.len() == i,
            forall|k: int| 0 <= k < i ==> #[trigger] r@[k]@ == v@[k]@,
        decreases v@.len() - i,
    {
        r.push(clone_local_id(&v[i]));
        i = i + 1;
    }
    assert(local_ids_view(r@) =~= local_ids_view(v@));
    r
}

/// The values of the evidence of a proof.
pub open spec fn evidence_view(v: Seq<(LocalRef, Vec<NonFungibleLocalId>)>) -> Seq<
    (LocalRef, Seq<LocalIdView>),
> {
    Seq::new(v.len(), |i: int| (v[i].0, local_ids_view(v[i].1@)))
}

/// Whether no value occurs twice.
pub open spec fn no_repeats<T>(s: Seq<T>) -> bool {
    forall|i: int, j: int| 0 <= i < j < s.len() ==> s[i] != s[j]
}

/// The non-fungible units a proof locks, and the containers that hold them.
#[derive(Debug)]
pub struct NonFungibleProofSubstate {
    /// The locked units, as a set: in ascending order, each once.
    total_locked: Vec<NonFungibleLocalId>,
    /// The supporting containers, as a map: in ascending order, each once,
    /// with the set of units locked in each.
    evidence: Vec<(LocalRef, Vec<NonFungibleLocalId>)>,
}

/// The value of a proof substate.
pub struct ProofView {
    pub total_locked: Seq<LocalIdView>,
    pub evidence: Seq<(LocalRef, Seq<LocalIdView>)>,
}

impl View for NonFungibleProofSubstate {
    type V = ProofView;

    closed spec fn view(&self) -> ProofView {
        ProofView {
            total_locked: local_ids_view(self.total_locked@),
            evidence: evidence_view(self.evidence@),
        }
    }
}

/// A call on a container of a proof, with the units it is about.
#[derive(Debug)]
pub struct ContainerCall {
    pub receiver: NodeId,
    pub method_name: String,
    pub locked_ids: Vec<NonFungibleLocalId>,
}

/// The value of a container call.
pub open spec fn container_call_view(c: ContainerCall) -> (NodeId, Seq<char>, Seq<LocalIdView>) {
    (c.receiver, c.method_name@, local_ids_view(c.locked_ids@))
}

/// The values of a list of container calls.
pub open spec fn container_calls_view(v: Seq<ContainerCall>) -> Seq<
    (NodeId, Seq<char>, Seq<LocalIdView>),
> {
    Seq::new(v.len(), |i: int| container_call_view(v[i]))
}

/// The method that locks units in a container.
pub open spec fn lock_method(r: LocalRef) -> Seq<char> {
    match r {
        LocalRef::Bucket(_) => NON_FUNGIBLE_BUCKET_LOCK_NON_FUNGIBLES_IDENT@,
        LocalRef::Vault(_) => NON_FUNGIBLE_VAULT_LOCK_NON_FUNGIBLES_IDENT@,
    }
}

/// The method that unlocks units in a container.
pub open spec fn unlock_method(r: LocalRef) -> Seq<char> {
    match r {
        LocalRef::Bucket(_) => NON_FUNGIBLE_BUCKET_UNLOCK_NON_FUNGIBLES_IDENT@,
        LocalRef::Vault(_) => NON_FUNGIBLE_VAULT_UNLOCK_NON_FUNGIBLES_IDENT@,
    }
}

/// One call per container of the evidence, in order: to `method` of the
/// container, with the units locked in it.
pub open spec fn evidence_calls(
    evidence: Seq<(LocalRef, Seq<LocalIdView>)>,
    lock: bool,
) -> Seq<(NodeId, Seq<char>, Seq<LocalIdView>)> {
    Seq::new(
        evidence.len(),
        |i: int|
            (
                evidence[i].0.node_id(),
                if lock {
                    lock_method(evidence[i].0)
                } else {
                    unlock_method(evidence[i].0)
                },
                evidence[i].1,
            ),
    )
}

/// What tearing a proof down unlocks is what cloning it locks: the same
/// containers, in the same order, with the same units; only the method
/// differs.
pub proof fn lemma_unlock_mirrors_lock(evidence: Seq<(LocalRef, Seq<LocalIdView>)>)
    ensures
        evidence_calls(evidence, true).len() == evidence_calls(evidence, false).len(),
        forall|i: int|
            0 <= i < evidence.len() ==> {
                &&& (#[trigger] evidence_calls(evidence, true)[i]).0 == evidence_calls(
                    evidence,
                    false,
                )[i].0
                &&& evidence_calls(evidence, true)[i].2 == evidence_calls(evidence, false)[i].2
            },
{
}

/// Whether an engine answered alike in two runs: at each call both runs
/// made, the same answer.
pub open spec fn answered_alike(
    first: Seq<((NodeId, Seq<char>, Seq<LocalIdView>), Result<(), RuntimeError>)>,
    second: Seq<((NodeId, Seq<char>, Seq<LocalIdView>), Result<(), RuntimeError>)>,
) -> bool {
    forall|j: int| 0 <= j < first.len() && 0 <= j < second.len() ==> #[trigger] first[j].1 == second[j].1
}

/// Tearing a proof down, against an engine that answers as it did when the
/// proof was cloned, makes the same run: the same containers with the same
/// units, in the same order, stopping at the same call with the same answer;
/// only the methods differ, unlock for lock. So every lock that cloning took
/// is released.
pub proof fn lemma_teardown_mirrors_clone(
    evidence: Seq<(LocalRef, Seq<LocalIdView>)>,
    clone_before: Seq<((NodeId, Seq<char>, Seq<LocalIdView>), Result<(), RuntimeError>)>,
    clone_after: Seq<((NodeId, Seq<char>, Seq<LocalIdView>), Result<(), RuntimeError>)>,
    clone_outcome: Result<(), RuntimeError>,
    teardown_before: Seq<((NodeId, Seq<char>, Seq<LocalIdView>), Result<(), RuntimeError>)>,
    teardown_after: Seq<((NodeId, Seq<char>, Seq<LocalIdView>), Result<(), RuntimeError>)>,
    teardown_outcome: Result<(), RuntimeError>,
)
    requires
        ran_plan(clone_before, clone_after, evidence_calls(evidence, true), clone_outcome),
        ran_plan(
            teardown_before,
            teardown_after,
            evidence_calls(evidence, false),
            teardown_outcome,
        ),
        answered_alike(
            clone_after.skip(clone_before.len() as int),
            teardown_after.skip(teardown_before.len() as int),
        ),
    ensures
        ({
            let locked = clone_after.skip(clone_before.len() as int);
            let unlocked = teardown_after.skip(teardown_before.len() as int);
            &&& locked.len() == unlocked.len()
            &&& (clone_outcome is Ok <==> teardown_outcome is Ok)
            &&& (clone_outcome matches Err(e) ==> teardown_outcome == Err::<(), RuntimeError>(e))
            &&& forall|j: int|
                0 <= j < locked.len() ==> {
                    &&& (#[trigger] locked[j]).0 == (
                        evidence[j].0.node_id(),
                        lock_method(evidence[j].0),
                        evidence[j].1,
                    )
                    &&& unlocked[j].0 == (
                        evidence[j].0.node_id(),
                        unlock_method(evidence[j].0),
                        evidence[j].1,
                    )
                }
        }),
{
    let locked = clone_after.skip(clone_before.len() as int);
    let unlocked = teardown_after.skip(teardown_before.len() as int);
    let n1 = locked.len();
    let n2 = unlocked.len();
    if n1 < n2 {
        if clone_outcome is Err {
            assert(locked[n1 - 1].1 == unlocked[n1 - 1].1);
            assert(unlocked[n1 - 1].1 is Ok);
        }
    }
    if n2 < n1 {
        if teardown_outcome is Err {
            assert(locked[n2 - 1].1 == unlocked[n2 - 1].1);
            assert(locked[n2 - 1].1 is Ok);
        }
    }
    assert(n1 == n2);
    if n1 > 0 {
        assert(locked[n1 - 1].1 == unlocked[n1 - 1].1);
        assert(locked.last() == locked[n1 - 1]);
        assert(unlocked.last() == unlocked[n1 - 1]);
    }
    match clone_outcome {
        Ok(()) => {
            if n1 > 0 {
                assert(locked.last().1 is Ok);
                assert(unlocked.last().1 is Ok);
            }
            assert(teardown_outcome is Ok);
        },
        Err(e) => {
            assert(locked.last().1 == Err::<(), RuntimeError>(e));
            assert(unlocked.last().1 == Err::<(), RuntimeError>(e));
            match teardown_outcome {
                Ok(()) => {
                    assert(unlocked.last().1 is Ok);
                },
                Err(f) => {
                    assert(unlocked.last().1 == Err::<(), RuntimeError>(f));
                    assert(e == f);
                },
            }
        },
    }
    assert forall|j: int| 0 <= j < locked.len() implies {
        &&& (#[trigger] locked[j]).0 == (
            evidence[j].0.node_id(),
            lock_method(evidence[j].0),
            evidence[j].1,
        )
        &&& unlocked[j].0 == (evidence[j].0.node_id(), unlock_method(evidence[j].0), evidence[j].1)
    } by {
        assert(locked[j].0 == evidence_calls(evidence, true)[j]);
        assert(unlocked[j].0 == evidence_calls(evidence, false)[j]);
    }
}

/// The calls into the engine that a proof makes on its containers. The
/// engine's system layer implements it; it keeps account of the calls it
/// answered.
pub trait ClientApi {
    /// The calls on containers answered so far, each with its answer, in
    /// order.
    spec fn answered_calls(&self) -> Seq<
        ((NodeId, Seq<char>, Seq<LocalIdView>), Result<(), RuntimeError>),
    >;

    /// Calls a method of a node, with a set of non-fungible units as its
    /// argument; the call and its answer are added to the answered calls.
    fn call_method(
        &mut self,
        receiver: &NodeId,
        method_name: &str,
        locked_ids: &Vec<NonFungibleLocalId>,
    ) -> (r: Result<(), RuntimeError>)
        ensures
            final(self).answered_calls() == old(self).answered_calls().push(
                ((*receiver, method_name@, local_ids_view(locked_ids@)), r),
            ),
    ;
}

/// Whether the calls answered between `before` and `after` are a run of
/// `plan` that stopped at its first error: the calls of the plan in order,
/// each answered `Ok` but the last one made, which `r` is; all of them when
/// `r` is `Ok`.
pub open spec fn ran_plan(
    before: Seq<((NodeId, Seq<char>, Seq<LocalIdView>), Result<(), RuntimeError>)>,
    after: Seq<((NodeId, Seq<char>, Seq<LocalIdView>), Result<(), RuntimeError>)>,
    plan: Seq<(NodeId, Seq<char>, Seq<LocalIdView>)>,
    r: Result<(), RuntimeError>,
) -> bool {
    let made = after.skip(before.len() as int);
    &&& before.len() <= after.len()
    &&& after.take(before.len() as int) == before
    &&& made.len() <= plan.len()
    &&& forall|j: int| 0 <= j < made.len() ==> (#[trigger] made[j]).0 == plan[j]
    &&& forall|j: int| 0 <= j < made.len() - 1 ==> (#[trigger] made[j]).1 is Ok
    &&& match r {
        Ok(()) => made.len() == plan.len() && (made.len() == 0 || made.last().1 is Ok),
        Err(e) => made.len() > 0 && made.last().1 == Err::<(), RuntimeError>(e),
    }
}

/// The answer of a run, without its value.
pub open spec fn outcome<T>(r: Result<T, RuntimeError>) -> Result<(), RuntimeError> {
    match r {
        Ok(_) => Ok(()),
        Err(e) => Err(e),
    }
}

impl NonFungibleProofSubstate {
    /// Whether the locked units are a set and the evidence a map of sets.
    pub open spec fn wf(&self) -> bool {
        &&& is_id_set(self@.total_locked)
        &&& is_evidence_map(self@.evidence)
    }

    #[verifier::type_invariant]
    spec fn inv(&self) -> bool {
        self.wf()
    }

    /// A proof of the given set of units, supported by the given map of
    /// containers; a proof of no unit is refused.
    pub fn new(
        total_locked: Vec<NonFungibleLocalId>,
        evidence: Vec<(LocalRef, Vec<NonFungibleLocalId>)>,
    ) -> (r: Result<NonFungibleProofSubstate, ProofError>)
        requires
            is_id_set(local_ids_view(total_locked@)),
            is_evidence_map(evidence_view(evidence@)),
        ensures
            total_locked@.len() == 0 <==> r is Err,
            r matches Err(e) ==> e == ProofError::EmptyProofNotAllowed,
            r matches Ok(p) ==> {
                &&& p@.total_locked == local_ids_view(total_locked@)
                &&& p@.evidence == evidence_view(evidence@)
                &&& p.wf()
            },
    {
        if total_locked.len() == 0 {
            return Err(ProofError::EmptyProofNotAllowed);
        }
        Ok(NonFungibleProofSubstate { total_locked, evidence })
    }

    /// The supporting containers, in ascending order, with the units locked
    /// in each.
    pub fn evidence(&self) -> (r: &Vec<(LocalRef, Vec<NonFungibleLocalId>)>)
        ensures
            evidence_view(r@) == self@.evidence,
            is_evidence_map(self@.evidence),
    {
        proof {
            use_type_invariant(self);
        }
        &self.evidence
    }

    /// A copy of the proof.
    pub fn copy(&self) -> (r: Self)
        ensures
            r@ == self@,
    {
        proof {
            use_type_invariant(self);
        }
        let mut evidence: Vec<(LocalRef, Vec<NonFungibleLocalId>)> = Vec::new();
        let mut i: usize = 0;
        while i < self.evidence.len()
            invariant
                i <= self.evidence@.len(),
                evidence_view(evidence@) == evidence_view(self.evidence@).take(i as int),
            decreases self.evidence@.len() - i,
        {
            let ghost prev = evidence@;
            let container = self.evidence[i].0;
            let ids = clone_local_ids(&self.evidence[i].1);
            evidence.push((container, ids));
            assert(evidence_view(evidence@) =~= evidence_view(prev).push(
                (self.evidence@[i as int].0, local_ids_view(self.evidence@[i as int].1@)),
            ));
            assert(evidence_view(evidence@) =~= evidence_view(self.evidence@).take(i + 1));
            i = i + 1;
        }
        assert(evidence_view(self.evidence@).take(i as int) =~= evidence_view(self.evidence@));
        let total_locked = clone_local_ids(&self.total_locked);
        let r = NonFungibleProofSubstate { total_locked, evidence };
        assert(r@ == self@);
        r
    }

    /// The calls that lock (or unlock) the proof's units in its containers.
    pub fn container_calls(&self, lock: bool) -> (r: Vec<ContainerCall>)
        ensures
            container_calls_view(r@) == evidence_calls(self@.evidence, lock),
            is_evidence_map(self@.evidence),
    {
        proof {
            use_type_invariant(self);
        }
        let mut calls: Vec<ContainerCall> = Vec::new();
        let mut i: usize = 0;
        while i < self.evidence.len()
            invariant
                i <= self.evidence@.len(),
                container_calls_view(calls@) == evidence_calls(self@.evidence, lock).take(i as int),
            decreases self.evidence@.len() - i,
        {
            let container = self.evidence[i].0;
            let method_name = match container {
                LocalRef::Bucket(_) => if lock {
                    NON_FUNGIBLE_BUCKET_LOCK_NON_FUNGIBLES_IDENT
                } else {
                    NON_FUNGIBLE_BUCKET_UNLOCK_NON_FUNGIBLES_IDENT
                },
                LocalRef::Vault(_) => if lock {
                    NON_FUNGIBLE_VAULT_LOCK_NON_FUNGIBLES_IDENT
                } else {
                    NON_FUNGIBLE_VAULT_UNLOCK_NON_FUNGIBLES_IDENT
                },
            };
            let ghost prev = calls@;
            let call = ContainerCall {
                receiver: container.as_node_id(),
                method_name: String::from_str(method_name),
                locked_ids: clone_local_ids(&self.evidence[i].1),
            };
            calls.push(call);
            assert(container_calls_view(calls@) =~= container_calls_view(prev).push(
                evidence_calls(self@.evidence, lock)[i as int],
            ));
            assert(container_calls_view(calls@) =~= evidence_calls(self@.evidence, lock).take(
                i + 1,
            ));
            i = i + 1;
        }
        assert(evidence_calls(self@.evidence, lock).take(i as int) =~= evidence_calls(
            self@.evidence,
            lock,
        ));
        calls
    }

    /// Makes the calls of a plan in order, stopping at the first error; an
    /// empty plan makes no call and succeeds.
    fn run_calls<Y: ClientApi>(calls: &Vec<ContainerCall>, api: &mut Y) -> (r: Result<
        (),
        RuntimeError,
    >)
        ensures
            ran_plan(
                old(api).answered_calls(),
                final(api).answered_calls(),
                container_calls_view(calls@),
                r,
            ),
            calls@.len() == 0 ==> r is Ok,
    {
        let ghost start = api.answered_calls();
        let ghost plan = container_calls_view(calls@);
        let mut i: usize = 0;
        while i < calls.len()
            invariant
                i <= calls@.len(),
                start == old(api).answered_calls(),
                plan == container_calls_view(calls@),
                start.len() <= api.answered_calls().len(),
                api.answered_calls().take(start.len() as int) == start,
                api.answered_calls().skip(start.len() as int).len() == i,
                forall|j: int|
                    0 <= j < i ==> (#[trigger] api.answered_calls().skip(start.len() as int)[j]).0
                        == plan[j] && api.answered_calls().skip(start.len() as int)[j].1 is Ok,
            decreases calls@.len() - i,
        {
            let call = &calls[i];
            let ghost prev = api.answered_calls();
            let answer = api.call_method(&call.receiver, call.method_name.as_str(), &call.locked_ids);
            let ghost after = api.answered_calls();
            proof {
                assert(after.take(start.len() as int) =~= start);
                assert(after.skip(start.len() as int) =~= prev.skip(start.len() as int).push(
                    (plan[i as int], answer),
                ));
            }
            match answer {
                Ok(()) => {},
                Err(e) => {
                    return Err(e);
                },
            }
            i = i + 1;
        }
        Ok(())
    }

    /// Locks the proof's units again in each of its containers (the calls of
    /// `container_calls(true)`, in order, stopping at the first error, which
    /// it returns) and, where all succeed, returns a copy of the proof. A
    /// proof without containers makes no call, and its copy is owed.
    pub fn clone_proof<Y: ClientApi>(&self, api: &mut Y) -> (r: Result<Self, RuntimeError>)
        ensures
            ran_plan(
                old(api).answered_calls(),
                final(api).answered_calls(),
                evidence_calls(self@.evidence, true),
                outcome(r),
            ),
            r matches Ok(p) ==> p@ == self@,
            self@.evidence.len() == 0 ==> r is Ok,
            is_evidence_map(self@.evidence),
    {
        let calls = self.container_calls(true);
        assert(container_calls_view(calls@).len() == calls@.len());
        assert(evidence_calls(self@.evidence, true).len() == self.evidence@.len());
        match Self::run_calls(&calls, api) {
            Ok(()) => Ok(self.copy()),
            Err(e) => Err(e),
        }
    }

    /// Unlocks the proof's units in each of its containers (the calls of
    /// `container_calls(false)`, in order), stopping at the first error. A
    /// proof without containers makes no call and succeeds.
    pub fn teardown<Y: ClientApi>(self, api: &mut Y) -> (r: Result<(), RuntimeError>)
        ensures
            ran_plan(
                old(api).answered_calls(),
                final(api).answered_calls(),
                evidence_calls(self@.evidence, false),
                r,
            ),
            is_evidence_map(self@.evidence),
            self@.evidence.len() == 0 ==> r is Ok,
    {
        let calls = self.container_calls(false);
        assert(container_calls_view(calls@).len() == calls@.len());
        assert(evidence_calls(self@.evidence, false).len() == self.evidence@.len());
        Self::run_calls(&calls, api)
    }

    /// The number of locked units.
    pub fn amount(&self) -> (r: Decimal)
        ensures
            r.0 == self@.total_locked.len() * 1_000_000_000_000_000_000,
            forall|i: int, j: int|
                0 <= i < j < self@.total_locked.len() ==> self@.total_locked[i]
                    != self@.total_locked[j],
    {
        proof {
            use_type_invariant(self);
            lemma_id_set_no_repeats(self@.total_locked);
        }
        let n = self.non_fungible_local_ids().len();
        assert((n as i128) * 1_000_000_000_000_000_000i128 <= i128::MAX) by (nonlinear_arith)
            requires
                n <= usize::MAX,
                usize::MAX <= u64::MAX,
        ;
        Decimal((n as i128) * 1_000_000_000_000_000_000i128)
    }

    /// The locked units.
    pub fn non_fungible_local_ids(&self) -> (r: &Vec<NonFungibleLocalId>)
        ensures
            local_ids_view(r@) == self@.total_locked,
            is_id_set(self@.total_locked),
    {
        proof {
            use_type_invariant(self);
        }
        &self.total_locked
    }
}

/// A blueprint, by its package and name.
#[derive(Debug, Clone, PartialEq, Eq)]
pub struct BlueprintId {
    pub package_address: [u8; 3],
    pub blueprint_name: String,
}

/// Whether `b` is the blueprint `name` of the resource package.
pub open spec fn is_resource_blueprint(b: Option<BlueprintId>, name: Seq<char>) -> bool {
    b matches Some(id) && id.package_address@ == RESOURCE_PACKAGE@ && id.blueprint_name@ == name
}

/// The result of moving a proof: the error that refuses it, or whether the
/// proof's restricted flag is to be written and its new value.
pub open spec fn move_outcome(
    is_moving_down: bool,
    is_to_barrier: bool,
    destination: Option<BlueprintId>,
    restricted: bool,
) -> Option<Option<bool>> {
    let is_to_self = is_resource_blueprint(destination, NON_FUNGIBLE_PROOF_BLUEPRINT@);
    let is_to_auth_zone = is_resource_blueprint(destination, AUTH_ZONE_BLUEPRINT@);
    if is_moving_down && !is_to_self && (is_to_barrier || is_to_auth_zone) {
        if restricted {
            None
        } else {
            Some(Some(restricted || is_to_barrier))
        }
    } else {
        Some(None)
    }
}

/// A restricted proof never moves down into another blueprint than the
/// non-fungible proof one when the move crosses a barrier or enters the
/// resource package's auth zone: that move, and only that one, is refused.
/// An unrestricted proof making such a move has its flag written, set
/// exactly when the move crosses a barrier; every other move writes nothing.
pub proof fn lemma_move_refusal(
    is_moving_down: bool,
    is_to_barrier: bool,
    destination: Option<BlueprintId>,
    restricted: bool,
)
    ensures
        ({
            let to_proofs = destination matches Some(id) && id.package_address@ == RESOURCE_PACKAGE@
                && id.blueprint_name@ == "NonFungibleProof"@;
            let to_auth_zone = destination matches Some(id) && id.package_address@
                == RESOURCE_PACKAGE@ && id.blueprint_name@ == "AuthZone"@;
            let guarded = is_moving_down && !to_proofs && (is_to_barrier || to_auth_zone);
            &&& move_outcome(is_moving_down, is_to_barrier, destination, restricted) is None <==> (
            restricted && guarded)
            &&& (guarded && !restricted) ==> move_outcome(
                is_moving_down,
                is_to_barrier,
                destination,
                restricted,
            ) == Some(Some(is_to_barrier))
            &&& !guarded ==> move_outcome(is_moving_down, is_to_barrier, destination, restricted)
                == Some(None::<bool>)
        }),
{
    reveal_strlit("NonFungibleProof");
    reveal_strlit("AuthZone");
}

/// The non-fungible proof blueprint.
pub struct NonFungibleProofBlueprint;

fn is_resource_blueprint_exec(b: &Option<BlueprintId>, name: &str) -> (r: bool)
    ensures
        r == is_resource_blueprint(*b, name@),
{
    match b {
        Some(id) => {
            let wanted = String::from_str(name);
            address_eq(&id.package_address, &RESOURCE_PACKAGE) && id.blueprint_name == wanted
        },
        None => false,
    }
}

impl NonFungibleProofBlueprint {
    /// Decides a move of a proof with the given restricted flag. Moving down
    /// to another blueprint than non-fungible proofs, across a barrier or
    /// into an auth zone, is refused for a restricted proof; else the flag
    /// is written back, set where the move crosses a barrier. Other moves
    /// are free (`Ok(None)`: nothing to write).
    pub fn on_move(
        is_moving_down: bool,
        is_to_barrier: bool,
        destination_blueprint_id: Option<BlueprintId>,
        restricted: bool,
    ) -> (r: Result<Option<bool>, RuntimeError>)
        ensures
            match move_outcome(is_moving_down, is_to_barrier, destination_blueprint_id, restricted) {
                None => r matches Err(RuntimeError::ApplicationError(ApplicationError::Panic(m)))
                    && m@ == "Moving restricted proof downstream"@,
                Some(w) => r == Ok::<Option<bool>, RuntimeError>(w),
            },
    {
        proof {
            reveal_strlit("Moving restricted proof downstream");
        }
        if is_moving_down {
            let is_to_self = is_resource_blueprint_exec(
                &destination_blueprint_id,
                NON_FUNGIBLE_PROOF_BLUEPRINT,
            );
            let is_to_auth_zone = is_resource_blueprint_exec(
                &destination_blueprint_id,
                AUTH_ZONE_BLUEPRINT,
            );
            if !is_to_self && (is_to_barrier || is_to_auth_zone) {
                if restricted {
                    return Err(
                        RuntimeError::ApplicationError(
                            ApplicationError::Panic(
                                String::from_str("Moving restricted proof downstream"),
                            ),
                        ),
                    );
                }
                let mut new_restricted = restricted;
                if is_to_barrier {
                    new_restricted = true;
                }
                Ok(Some(new_restricted))
            } else {
                Ok(None)
            }
        } else {
            Ok(None)
        }
    }
}

} // verus!
