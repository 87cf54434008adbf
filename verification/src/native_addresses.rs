use vstd::prelude::*;

use crate::id_allocator::{node_id_bytes, node_id_counter, ID_COUNTER_LIMIT};

verus! {

/// XRD is the native token of the Radix ledger.
pub const XRD: [u8; 3] = [93, 0, 1];

/// Badge for virtual proofs of ECDSA Secp256k1 transaction signatures.
pub const SECP256K1_SIGNATURE_VIRTUAL_BADGE: [u8; 3] = [154, 0, 1];

/// Badge for virtual proofs of EdDSA Ed25519 transaction signatures.
pub const ED25519_SIGNATURE_VIRTUAL_BADGE: [u8; 3] = [154, 0, 2];

/// Badge for virtual proofs of the package of the immediate caller.
pub const PACKAGE_OF_DIRECT_CALLER_VIRTUAL_BADGE: [u8; 3] = [154, 0, 3];

/// Badge for virtual proofs of the global ancestor of the latest global caller.
pub const GLOBAL_CALLER_VIRTUAL_BADGE: [u8; 3] = [154, 0, 4];

/// Badge for virtual proofs that the transaction is a system transaction.
pub const SYSTEM_TRANSACTION_BADGE: [u8; 3] = [154, 0, 5];

/// Badge for package ownership.
pub const PACKAGE_OWNER_BADGE: [u8; 3] = [154, 0, 6];

/// Badge for validator ownership.
pub const VALIDATOR_OWNER_BADGE: [u8; 3] = [154, 0, 7];

/// Badge for account ownership.
pub const ACCOUNT_OWNER_BADGE: [u8; 3] = [154, 0, 8];

/// Badge for identity ownership.
pub const IDENTITY_OWNER_BADGE: [u8; 3] = [154, 0, 9];

/// The native package for package deployment.
pub const PACKAGE_PACKAGE: [u8; 3] = [13, 0, 1];

/// The native package for resource managers, proofs, buckets and vaults.
pub const RESOURCE_PACKAGE: [u8; 3] = [13, 0, 2];

/// The native package for accounts.
pub const ACCOUNT_PACKAGE: [u8; 3] = [13, 0, 3];

/// The native package for identities.
pub const IDENTITY_PACKAGE: [u8; 3] = [13, 0, 4];

/// The native package for the consensus manager.
pub const CONSENSUS_MANAGER_PACKAGE: [u8; 3] = [13, 0, 5];

/// The native package for access controllers.
pub const ACCESS_CONTROLLER_PACKAGE: [u8; 3] = [13, 0, 6];

/// The native package for pools.
pub const POOL_PACKAGE: [u8; 3] = [13, 0, 7];

/// The native package for the transaction processor.
pub const TRANSACTION_PROCESSOR_PACKAGE: [u8; 3] = [13, 0, 8];

/// The native package for the metadata module.
pub const METADATA_MODULE_PACKAGE: [u8; 3] = [13, 0, 9];

/// The native package for the royalty module.
pub const ROYALTY_MODULE_PACKAGE: [u8; 3] = [13, 0, 10];

/// The native package for the role assignment module.
pub const ROLE_ASSIGNMENT_MODULE_PACKAGE: [u8; 3] = [13, 0, 11];

/// The package of test utilities.
pub const TEST_UTILS_PACKAGE: [u8; 3] = [13, 0, 12];

/// The genesis helper package.
pub const GENESIS_HELPER_PACKAGE: [u8; 3] = [13, 0, 13];

/// The faucet package.
pub const FAUCET_PACKAGE: [u8; 3] = [13, 0, 14];

/// The transaction tracker package.
pub const TRANSACTION_TRACKER_PACKAGE: [u8; 3] = [13, 0, 15];

/// The consensus manager component.
pub const CONSENSUS_MANAGER: [u8; 3] = [134, 0, 1];

/// The genesis helper component.
pub const GENESIS_HELPER: [u8; 3] = [192, 0, 1];

/// The faucet component.
pub const FAUCET: [u8; 3] = [192, 0, 2];

/// The transaction tracker component.
pub const TRANSACTION_TRACKER: [u8; 3] = [130, 0, 1];

/// Name of the genesis helper blueprint.
pub const GENESIS_HELPER_BLUEPRINT: &'static str = "GenesisHelper";

/// Name of the faucet blueprint.
pub const FAUCET_BLUEPRINT: &'static str = "Faucet";

/// Name of the transaction tracker blueprint.
pub const TRANSACTION_TRACKER_BLUEPRINT: &'static str = "TransactionTracker";

/// The first counter that the ledger allocates for each entity type: one past
/// the native addresses of that type, and 1 for types with none.
pub open spec fn spec_default_next_node_ids() -> Seq<u32> {
    Seq::new(
        256,
        |i: int|
            if i == 13 {
                16u32
            } else if i == 93 {
                2u32
            } else if i == 130 {
                2u32
            } else if i == 134 {
                2u32
            } else if i == 154 {
                10u32
            } else if i == 192 {
                3u32
            } else {
                1u32
            },
    )
}

/// The node ids of all native addresses.
pub open spec fn native_node_ids() -> Seq<Seq<u8>> {
    seq![
        XRD@,
        SECP256K1_SIGNATURE_VIRTUAL_BADGE@,
        ED25519_SIGNATURE_VIRTUAL_BADGE@,
        PACKAGE_OF_DIRECT_CALLER_VIRTUAL_BADGE@,
        GLOBAL_CALLER_VIRTUAL_BADGE@,
        SYSTEM_TRANSACTION_BADGE@,
        PACKAGE_OWNER_BADGE@,
        VALIDATOR_OWNER_BADGE@,
        ACCOUNT_OWNER_BADGE@,
        IDENTITY_OWNER_BADGE@,
        PACKAGE_PACKAGE@,
        RESOURCE_PACKAGE@,
        ACCOUNT_PACKAGE@,
        IDENTITY_PACKAGE@,
        CONSENSUS_MANAGER_PACKAGE@,
        ACCESS_CONTROLLER_PACKAGE@,
        POOL_PACKAGE@,
        TRANSACTION_PROCESSOR_PACKAGE@,
        METADATA_MODULE_PACKAGE@,
        ROYALTY_MODULE_PACKAGE@,
        ROLE_ASSIGNMENT_MODULE_PACKAGE@,
        TEST_UTILS_PACKAGE@,
        GENESIS_HELPER_PACKAGE@,
        FAUCET_PACKAGE@,
        TRANSACTION_TRACKER_PACKAGE@,
        CONSENSUS_MANAGER@,
        GENESIS_HELPER@,
        FAUCET@,
        TRANSACTION_TRACKER@
    ]
}

/// The first counter of each entity type that fresh ledgers allocate.
pub fn default_next_node_ids() -> (r: [u32; 256])
    ensures
        r@ == spec_default_next_node_ids(),
{
    let mut arr: [u32; 256] = [1u32; 256];
    arr[13] = arr[13] + 15;
    arr[93] = arr[93] + 1;
    arr[130] = arr[130] + 1;
    arr[134] = arr[134] + 1;
    arr[154] = arr[154] + 9;
    arr[192] = arr[192] + 2;
    assert(arr@ =~= spec_default_next_node_ids());
    arr
}

/// Every native address is a three-byte id whose counter lies below the
/// default next counter of its entity type.
pub proof fn lemma_native_ids_below_default_counters()
    ensures
        forall|k: int|
            0 <= k < native_node_ids().len() ==> {
                &&& (#[trigger] native_node_ids()[k]).len() == 3
                &&& node_id_counter(native_node_ids()[k]) < spec_default_next_node_ids()[
                    native_node_ids()[k][0] as int]
            },
{
    let ids = native_node_ids();
    let d = spec_default_next_node_ids();
    assert forall|k: int| 0 <= k < ids.len() implies {
        &&& (#[trigger] ids[k]).len() == 3
        &&& node_id_counter(ids[k]) < d[ids[k][0] as int]
    } by {
        assert(XRD@ == seq![93u8, 0, 1]);
    }
}

/// A ledger whose counters start at (or above) the defaults never allocates a
/// native address: every id handed out differs from each of them.
pub proof fn lemma_allocation_avoids_native_addresses(counters: Seq<u32>, e: u8)
    requires
        counters.len() == 256,
        forall|i: int| 0 <= i < 256 ==> spec_default_next_node_ids()[i] <= #[trigger] counters[i],
        counters[e as int] < ID_COUNTER_LIMIT,
    ensures
        !native_node_ids().contains(node_id_bytes(e, counters[e as int])),
{
    lemma_native_ids_below_default_counters();
    let id = node_id_bytes(e, counters[e as int]);
    if native_node_ids().contains(id) {
        let k = choose|k: int| 0 <= k < native_node_ids().len() && native_node_ids()[k] == id;
        assert(native_node_ids()[k] == id);
        assert(id[0] == e);
        assert(node_id_counter(id) == counters[e as int]);
    }
}

} // verus!
