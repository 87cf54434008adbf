use vstd::prelude::*;

use crate::errors::{IdAllocationError, KernelError, RuntimeError};
use crate::types::{EntityType, HashBytes, NodeId};

verus! {

/// The largest counter value plus one: a counter at or above it is exhausted.
pub const ID_COUNTER_LIMIT: u32 = 65535;

/// The node id made of an entity type and a counter: the entity type byte,
/// then the counter's high byte, then its low byte.
pub open spec fn node_id_bytes(entity_type: EntityType, counter: u32) -> Seq<u8> {
    seq![entity_type, ((counter / 256) % 256) as u8, (counter % 256) as u8]
}

/// The counter encoded in a node id.
pub open spec fn node_id_counter(bytes: Seq<u8>) -> int {
    bytes[1] * 256 + bytes[2]
}

/// An ID allocator defines how identities are generated.
#[derive(Debug, Clone, PartialEq, Eq)]
pub struct IdAllocator {
    transaction_hash: HashBytes,
    next_ids: [u32; 256],
}

impl IdAllocator {
    /// The next counter of each entity type.
    pub closed spec fn next_counters(&self) -> Seq<u32> {
        self.next_ids@
    }

    /// The hash of the transaction the allocator serves.
    pub closed spec fn hash(&self) -> HashBytes {
        self.transaction_hash
    }

    /// There is one counter for each of the 256 entity types.
    pub proof fn lemma_one_counter_per_entity_type(&self)
        ensures
            self.next_counters().len() == 256,
    {
    }

    pub fn new(transaction_hash: HashBytes, next_ids: [u32; 256]) -> (r: Self)
        ensures
            r.next_counters().len() == 256,
            r.next_counters() == next_ids@,
            r.hash() == transaction_hash,
    {
        Self { transaction_hash, next_ids }
    }

    /// Allocates the next node id of the given entity type.
    pub fn allocate_node_id(&mut self, entity_type: EntityType) -> (r: Result<NodeId, RuntimeError>)
        ensures
            old(self).next_counters().len() == 256,
            final(self).next_counters().len() == 256,
            final(self).hash() == old(self).hash(),
            old(self).next_counters()[entity_type as int] >= ID_COUNTER_LIMIT ==> {
                &&& r == Err::<NodeId, RuntimeError>(
                    RuntimeError::KernelError(KernelError::IdAllocationError(IdAllocationError::OutOfID)),
                )
                &&& final(self).next_counters() == old(self).next_counters()
            },
            old(self).next_counters()[entity_type as int] < ID_COUNTER_LIMIT ==> {
                &&& r matches Ok(id) && id.bytes() == node_id_bytes(
                    entity_type,
                    old(self).next_counters()[entity_type as int],
                )
                &&& final(self).next_counters() == old(self).next_counters().update(
                    entity_type as int,
                    (old(self).next_counters()[entity_type as int] + 1) as u32,
                )
            },
    {
        match self.next_node_id(entity_type) {
            Ok(node_id) => Ok(node_id),
            Err(e) => Err(RuntimeError::KernelError(KernelError::IdAllocationError(e))),
        }
    }

    /// A copy of the next counter of each entity type.
    pub fn get_next_node_ids(&self) -> (r: [u32; 256])
        ensures
            r@ == self.next_counters(),
            r@.len() == 256,
    {
        self.next_ids
    }

    fn next(&mut self, entity_type: EntityType) -> (r: Result<u32, IdAllocationError>)
        ensures
            final(self).hash() == old(self).hash(),
            old(self).next_counters()[entity_type as int] >= ID_COUNTER_LIMIT ==> {
                &&& r == Err::<u32, IdAllocationError>(IdAllocationError::OutOfID)
                &&& final(self).next_counters() == old(self).next_counters()
            },
            old(self).next_counters()[entity_type as int] < ID_COUNTER_LIMIT ==> {
                &&& r == Ok::<u32, IdAllocationError>(old(self).next_counters()[entity_type as int])
                &&& final(self).next_counters() == old(self).next_counters().update(
                    entity_type as int,
                    (old(self).next_counters()[entity_type as int] + 1) as u32,
                )
            },
    {
        let index = entity_type as usize;
        let next_id = self.next_ids[index];
        if next_id >= ID_COUNTER_LIMIT {
            Err(IdAllocationError::OutOfID)
        } else {
            self.next_ids[index] = next_id + 1;
            Ok(next_id)
        }
    }

    fn next_node_id(&mut self, entity_type: EntityType) -> (r: Result<NodeId, IdAllocationError>)
        ensures
            final(self).hash() == old(self).hash(),
            old(self).next_counters()[entity_type as int] >= ID_COUNTER_LIMIT ==> {
                &&& r == Err::<NodeId, IdAllocationError>(IdAllocationError::OutOfID)
                &&& final(self).next_counters() == old(self).next_counters()
            },
            old(self).next_counters()[entity_type as int] < ID_COUNTER_LIMIT ==> {
                &&& r matches Ok(id) && id.bytes() == node_id_bytes(
                    entity_type,
                    old(self).next_counters()[entity_type as int],
                )
                &&& final(self).next_counters() == old(self).next_counters().update(
                    entity_type as int,
                    (old(self).next_counters()[entity_type as int] + 1) as u32,
                )
            },
    {
        let next_id = self.next(entity_type)?;
        let high_word: u32 = (next_id >> 8u32) & 0xFFu32;
        let low_word: u32 = next_id & 0xFFu32;
        assert(high_word == (next_id / 256) % 256 && low_word == next_id % 256) by (bit_vector)
            requires
                high_word == (next_id >> 8u32) & 0xFFu32,
                low_word == next_id & 0xFFu32,
        ;
        let high: u8 = high_word as u8;
        let low: u8 = low_word as u8;
        let node_id: [u8; 3] = [entity_type, high, low];
        assert(node_id@ =~= node_id_bytes(entity_type, next_id));
        Ok(NodeId(node_id))
    }
}

/// Distinct (entity type, counter) pairs below the counter limit give distinct
/// node ids: the encoding loses nothing.
pub proof fn lemma_node_id_bytes_injective(e1: EntityType, c1: u32, e2: EntityType, c2: u32)
    requires
        c1 < 65536,
        c2 < 65536,
        node_id_bytes(e1, c1) == node_id_bytes(e2, c2),
    ensures
        e1 == e2,
        c1 == c2,
{
    assert(node_id_bytes(e1, c1)[0] == e1);
    assert(node_id_bytes(e2, c2)[0] == e2);
    assert(node_id_bytes(e1, c1)[1] == node_id_bytes(e2, c2)[1]);
    assert(node_id_bytes(e1, c1)[2] == node_id_bytes(e2, c2)[2]);
}

/// The counter read back from an allocated id is the counter it was made from.
pub proof fn lemma_node_id_counter_roundtrip(e: EntityType, c: u32)
    requires
        c < 65536,
    ensures
        node_id_counter(node_id_bytes(e, c)) == c,
{
}

/// Freshness of allocation: once a counter has been handed out and the next
/// counters have only grown since, the id that the next allocation hands out
/// differs from it.
pub proof fn lemma_allocation_is_fresh(
    earlier: Seq<u32>,
    now: Seq<u32>,
    e1: EntityType,
    c1: u32,
    e2: EntityType,
)
    requires
        earlier.len() == 256,
        now.len() == 256,
        c1 < earlier[e1 as int],
        forall|i: int| 0 <= i < 256 ==> earlier[i] <= #[trigger] now[i],
        now[e2 as int] < ID_COUNTER_LIMIT,
    ensures
        node_id_bytes(e1, c1) != node_id_bytes(e2, now[e2 as int]),
{
    if node_id_bytes(e1, c1) == node_id_bytes(e2, now[e2 as int]) {
        lemma_node_id_bytes_injective(e1, c1, e2, now[e2 as int]);
        assert(earlier[e1 as int] <= now[e1 as int]);
    }
}

} // verus!
