use vstd::prelude::*;

verus! {

/// Number of bytes in a node id.
pub const NODE_ID_LENGTH: usize = 3;

/// A 32-byte hash.
#[derive(Debug, Clone, Copy, PartialEq, Eq)]
pub struct HashBytes(pub [u8; 32]);

/// The id of a node (an entity) in the engine: an entity type byte followed by
/// a big-endian 16-bit counter.
#[derive(Debug, Clone, Copy, PartialEq, Eq)]
pub struct NodeId(pub [u8; 3]);

impl NodeId {
    /// The bytes of the id.
    pub open spec fn bytes(self) -> Seq<u8> {
        self.0@
    }
}

/// Whether two three-byte addresses are the same.
pub fn address_eq(a: &[u8; 3], b: &[u8; 3]) -> (r: bool)
    ensures
        r == (a@ == b@),
{
    let same = a[0] == b[0] && a[1] == b[1] && a[2] == b[2];
    proof {
        if same {
            assert(a@ =~= b@);
        }
    }
    same
}

/// Entity types are identified by the first byte of a node id.
pub type EntityType = u8;

/// Entity type of global packages.
pub const ENTITY_GLOBAL_PACKAGE: u8 = 13;
/// Entity type of global fungible resource managers.
pub const ENTITY_GLOBAL_FUNGIBLE_RESOURCE_MANAGER: u8 = 93;
/// Entity type of the global transaction tracker.
pub const ENTITY_GLOBAL_TRANSACTION_TRACKER: u8 = 130;
/// Entity type of the global consensus manager.
pub const ENTITY_GLOBAL_CONSENSUS_MANAGER: u8 = 134;
/// Entity type of global non-fungible resource managers.
pub const ENTITY_GLOBAL_NON_FUNGIBLE_RESOURCE_MANAGER: u8 = 154;
/// Entity type of global generic components.
pub const ENTITY_GLOBAL_GENERIC_COMPONENT: u8 = 192;

} // verus!
