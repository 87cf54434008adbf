use vstd::prelude::*;

use crate::bytes::copy_bytes;

verus! {

/// The largest substate key, in bytes.
pub const MAX_SUBSTATE_KEY_SIZE: usize = 1024;

/// The key of a partition of the substate database: a node and a partition
/// number within it.
#[derive(Debug, Clone, PartialEq, Eq)]
pub struct DbPartitionKey {
    pub node_key: Vec<u8>,
    pub partition_num: u8,
}

/// The key of a substate within its partition.
#[derive(Debug, Clone, PartialEq, Eq)]
pub struct DbSortKey(pub Vec<u8>);

/// The database key of a substate: the length of the node key, the node
/// key, the partition number, then the sort key.
pub open spec fn encoded_key(node_key: Seq<u8>, partition_num: u8, sort_key: Seq<u8>) -> Seq<u8> {
    seq![node_key.len() as u8] + node_key + seq![partition_num] + sort_key
}

/// Whether a database key holds its node key and partition number whole.
pub open spec fn decodable(b: Seq<u8>) -> bool {
    b.len() >= 1 && b.len() >= 2 + b[0]
}

/// The node key, partition number and sort key a database key holds.
pub open spec fn decoded_key(b: Seq<u8>) -> (Seq<u8>, u8, Seq<u8>) {
    let n = b[0] as int;
    (b.subrange(1, 1 + n), b[1 + n], b.subrange(2 + n, b.len() as int))
}

/// Encodes the database key of a substate. The node key must fit its
/// one-byte length.
pub fn encode_to_rocksdb_bytes(partition_key: &DbPartitionKey, sort_key: &DbSortKey) -> (r: Vec<u8>)
    requires
        partition_key.node_key@.len() <= 255,
    ensures
        r@ == encoded_key(partition_key.node_key@, partition_key.partition_num, sort_key.0@),
{
    let mut buffer: Vec<u8> = Vec::new();
    buffer.push(partition_key.node_key.len() as u8);
    let mut node_key = copy_bytes(&partition_key.node_key);
    buffer.append(&mut node_key);
    buffer.push(partition_key.partition_num);
    let mut sort = copy_bytes(&sort_key.0);
    buffer.append(&mut sort);
    assert(buffer@ =~= encoded_key(
        partition_key.node_key@,
        partition_key.partition_num,
        sort_key.0@,
    ));
    buffer
}

/// The bytes `b[from..to]`.
fn slice_bytes(b: &[u8], from: usize, to: usize) -> (r: Vec<u8>)
    requires
        from <= to <= b@.len(),
    ensures
        r@ == b@.subrange(from as int, to as int),
{
    let mut r: Vec<u8> = Vec::new();
    let mut i: usize = from;
    while i < to
        invariant
            from <= i <= to <= b@.len(),
            r@ == b@.subrange(from as int, i as int),
        decreases to - i,
    {
        r.push(b[i]);
        assert(r@ =~= b@.subrange(from as int, i + 1));
        i = i + 1;
    }
    r
}

/// Decodes a database key into its partition key and sort key. The key must
/// hold its node key and partition number whole.
pub fn decode_from_rocksdb_bytes(buffer: &[u8]) -> (r: (DbPartitionKey, DbSortKey))
    requires
        decodable(buffer@),
    ensures
        (r.0.node_key@, r.0.partition_num, r.1.0@) == decoded_key(buffer@),
{
    let partition_key_start: usize = 1 + buffer[0] as usize;
    let sort_key_start: usize = 1 + partition_key_start;
    let node_key = slice_bytes(buffer, 1, partition_key_start);
    let partition_num = buffer[partition_key_start];
    let sort_key = slice_bytes(buffer, sort_key_start, buffer.len());
    (DbPartitionKey { node_key, partition_num }, DbSortKey(sort_key))
}

/// Decoding a database key gives back the partition key and sort key that
/// were encoded.
pub proof fn lemma_decode_encode(node_key: Seq<u8>, partition_num: u8, sort_key: Seq<u8>)
    requires
        node_key.len() <= 255,
    ensures
        decodable(encoded_key(node_key, partition_num, sort_key)),
        decoded_key(encoded_key(node_key, partition_num, sort_key)) == (
            node_key,
            partition_num,
            sort_key,
        ),
{
    let b = encoded_key(node_key, partition_num, sort_key);
    assert(b[0] == node_key.len() as u8);
    assert(b[0] as int == node_key.len());
    let n = node_key.len() as int;
    assert(b.subrange(1, 1 + n) =~= node_key);
    assert(b.subrange(2 + n, b.len() as int) =~= sort_key);
}

/// Every key of a partition starts with the key of the partition's empty
/// sort key, so a scan from it meets the partition's substates first.
pub proof fn lemma_partition_prefix(node_key: Seq<u8>, partition_num: u8, sort_key: Seq<u8>)
    ensures
        encoded_key(node_key, partition_num, sort_key).subrange(
            0,
            encoded_key(node_key, partition_num, Seq::empty()).len() as int,
        ) == encoded_key(node_key, partition_num, Seq::empty()),
{
    assert(encoded_key(node_key, partition_num, sort_key).subrange(
        0,
        encoded_key(node_key, partition_num, Seq::empty()).len() as int,
    ) =~= encoded_key(node_key, partition_num, Seq::empty()));
}

/// Whether `a` sorts before `b` in the bytewise order of database keys: the
/// first differing byte decides, and a proper prefix sorts first.
pub open spec fn key_lt(a: Seq<u8>, b: Seq<u8>) -> bool
    decreases a.len(),
{
    if a.len() == 0 {
        b.len() > 0
    } else if b.len() == 0 {
        false
    } else if a[0] != b[0] {
        a[0] < b[0]
    } else {
        key_lt(a.drop_first(), b.drop_first())
    }
}

proof fn lemma_key_lt_common_prefix(p: Seq<u8>, a: Seq<u8>, b: Seq<u8>)
    ensures
        key_lt(p + a, p + b) == key_lt(a, b),
    decreases p.len(),
{
    if p.len() > 0 {
        assert((p + a).drop_first() =~= p.drop_first() + a);
        assert((p + b).drop_first() =~= p.drop_first() + b);
        assert((p + a)[0] == p[0] && (p + b)[0] == p[0]);
        lemma_key_lt_common_prefix(p.drop_first(), a, b);
    } else {
        assert(p + a =~= a);
        assert(p + b =~= b);
    }
}

proof fn lemma_key_lt_all_ff(a: Seq<u8>, m: nat)
    requires
        a.len() < m,
    ensures
        key_lt(a, Seq::new(m, |i: int| 0xFFu8)),
    decreases a.len(),
{
    let ff = Seq::new(m, |i: int| 0xFFu8);
    if a.len() > 0 && a[0] == 0xFFu8 {
        assert(ff.drop_first() =~= Seq::new((m - 1) as nat, |i: int| 0xFFu8));
        lemma_key_lt_all_ff(a.drop_first(), (m - 1) as nat);
    }
}

/// The range that a replaced partition is cleared with holds every key of
/// the partition: the key of each sort key up to the largest key size sorts
/// at or after the start of the range and before its end.
pub proof fn lemma_reset_range_covers_partition(
    node_key: Seq<u8>,
    partition_num: u8,
    sort_key: Seq<u8>,
)
    requires
        sort_key.len() <= MAX_SUBSTATE_KEY_SIZE,
    ensures
        ({
            let key = encoded_key(node_key, partition_num, sort_key);
            let from = encoded_key(node_key, partition_num, Seq::empty());
            let to = encoded_key(node_key, partition_num, sort_key_upper_bound());
            &&& key == from || key_lt(from, key)
            &&& key_lt(key, to)
        }),
{
    let p = encoded_key(node_key, partition_num, Seq::empty());
    assert(encoded_key(node_key, partition_num, sort_key) =~= p + sort_key);
    assert(encoded_key(node_key, partition_num, sort_key_upper_bound()) =~= p
        + sort_key_upper_bound());
    assert(p =~= p + Seq::<u8>::empty());
    lemma_key_lt_common_prefix(p, Seq::empty(), sort_key);
    lemma_key_lt_common_prefix(p, sort_key, sort_key_upper_bound());
    lemma_key_lt_all_ff(sort_key, (2 * MAX_SUBSTATE_KEY_SIZE) as nat);
    if sort_key.len() == 0 {
        assert(p + sort_key =~= p);
    }
}

/// A change of one substate: a new value, or its removal.
#[derive(Debug, Clone, PartialEq, Eq)]
pub enum DatabaseUpdate {
    SetTo(Vec<u8>),
    Delete,
}

/// The changes of one partition: some substates changed, or the whole
/// partition replaced by new values.
#[derive(Debug, Clone, PartialEq, Eq)]
pub enum PartitionDatabaseUpdates {
    Delta { substate_updates: Vec<(DbSortKey, DatabaseUpdate)> },
    Reset { new_substate_values: Vec<(DbSortKey, Vec<u8>)> },
}

/// The changes of one node, by partition number, in order.
#[derive(Debug, Clone, PartialEq, Eq)]
pub struct NodeDatabaseUpdates {
    pub partition_updates: Vec<(u8, PartitionDatabaseUpdates)>,
}

/// The changes of a commit, by node key, in order.
#[derive(Debug, Clone, PartialEq, Eq)]
pub struct DatabaseUpdates {
    pub node_updates: Vec<(Vec<u8>, NodeDatabaseUpdates)>,
}

/// A write to the key-value database.
#[derive(Debug, Clone, PartialEq, Eq)]
pub enum WriteOp {
    Put { key: Vec<u8>, value: Vec<u8> },
    Delete { key: Vec<u8> },
    /// Removes the keys from `from` (included) to `to` (excluded).
    DeleteRange { from: Vec<u8>, to: Vec<u8> },
}

/// The value of a write.
pub enum WriteOpView {
    Put(Seq<u8>, Seq<u8>),
    Delete(Seq<u8>),
    DeleteRange(Seq<u8>, Seq<u8>),
}

impl View for WriteOp {
    type V = WriteOpView;

    open spec fn view(&self) -> WriteOpView {
        match self {
            WriteOp::Put { key, value } => WriteOpView::Put(key@, value@),
            WriteOp::Delete { key } => WriteOpView::Delete(key@),
            WriteOp::DeleteRange { from, to } => WriteOpView::DeleteRange(from@, to@),
        }
    }
}

/// The values of a list of writes.
pub open spec fn write_ops_view(v: Seq<WriteOp>) -> Seq<WriteOpView> {
    Seq::new(v.len(), |i: int| v[i]@)
}

/// The sort key past every sort key: twice the largest key size, of 0xFF.
pub open spec fn sort_key_upper_bound() -> Seq<u8> {
    Seq::new((2 * MAX_SUBSTATE_KEY_SIZE) as nat, |i: int| 0xFFu8)
}

/// The writes of the substate changes of a partition.
pub open spec fn delta_ops(
    node_key: Seq<u8>,
    partition_num: u8,
    updates: Seq<(DbSortKey, DatabaseUpdate)>,
) -> Seq<WriteOpView> {
    Seq::new(
        updates.len(),
        |i: int|
            match updates[i].1 {
                DatabaseUpdate::SetTo(v) => WriteOpView::Put(
                    encoded_key(node_key, partition_num, updates[i].0.0@),
                    v@,
                ),
                DatabaseUpdate::Delete => WriteOpView::Delete(
                    encoded_key(node_key, partition_num, updates[i].0.0@),
                ),
            },
    )
}

/// The writes that replace a partition: the removal of all its keys, then
/// the new values.
pub open spec fn reset_ops(
    node_key: Seq<u8>,
    partition_num: u8,
    values: Seq<(DbSortKey, Vec<u8>)>,
) -> Seq<WriteOpView> {
    seq![
        WriteOpView::DeleteRange(
            encoded_key(node_key, partition_num, Seq::empty()),
            encoded_key(node_key, partition_num, sort_key_upper_bound()),
        ),
    ] + Seq::new(
        values.len(),
        |i: int|
            WriteOpView::Put(encoded_key(node_key, partition_num, values[i].0.0@), values[i].1@),
    )
}

/// The writes of the changes of a partition.
pub open spec fn partition_ops(node_key: Seq<u8>, partition_num: u8, p: PartitionDatabaseUpdates) -> Seq<
    WriteOpView,
> {
    match p {
        PartitionDatabaseUpdates::Delta { substate_updates } => delta_ops(
            node_key,
            partition_num,
            substate_updates@,
        ),
        PartitionDatabaseUpdates::Reset { new_substate_values } => reset_ops(
            node_key,
            partition_num,
            new_substate_values@,
        ),
    }
}

/// The writes of the changes of a node, partition by partition.
pub open spec fn node_ops(node_key: Seq<u8>, parts: Seq<(u8, PartitionDatabaseUpdates)>) -> Seq<
    WriteOpView,
>
    decreases parts.len(),
{
    if parts.len() == 0 {
        Seq::empty()
    } else {
        node_ops(node_key, parts.drop_last()) + partition_ops(
            node_key,
            parts.last().0,
            parts.last().1,
        )
    }
}

/// The writes of a commit, node by node.
pub open spec fn commit_ops(nodes: Seq<(Vec<u8>, NodeDatabaseUpdates)>) -> Seq<WriteOpView>
    decreases nodes.len(),
{
    if nodes.len() == 0 {
        Seq::empty()
    } else {
        commit_ops(nodes.drop_last()) + node_ops(
            nodes.last().0@,
            nodes.last().1.partition_updates@,
        )
    }
}

/// Whether each node key of the changes fits its one-byte length.
pub open spec fn node_keys_fit(nodes: Seq<(Vec<u8>, NodeDatabaseUpdates)>) -> bool {
    forall|i: int| 0 <= i < nodes.len() ==> (#[trigger] nodes[i]).0@.len() <= 255
}

fn partition_key(node_key: &Vec<u8>, partition_num: u8) -> (r: DbPartitionKey)
    ensures
        r.node_key@ == node_key@,
        r.partition_num == partition_num,
{
    DbPartitionKey { node_key: copy_bytes(node_key), partition_num }
}

fn push_partition_ops(
    ops: &mut Vec<WriteOp>,
    node_key: &Vec<u8>,
    partition_num: u8,
    p: &PartitionDatabaseUpdates,
)
    requires
        node_key@.len() <= 255,
    ensures
        write_ops_view(final(ops)@) == write_ops_view(old(ops)@) + partition_ops(
            node_key@,
            partition_num,
            *p,
        ),
{
    let ghost start = write_ops_view(ops@);
    let pk = partition_key(node_key, partition_num);
    match p {
        PartitionDatabaseUpdates::Delta { substate_updates } => {
            let mut i: usize = 0;
            while i < substate_updates.len()
                invariant
                    i <= substate_updates@.len(),
                    pk.node_key@ == node_key@,
                    pk.partition_num == partition_num,
                    node_key@.len() <= 255,
                    write_ops_view(ops@) == start + delta_ops(
                        node_key@,
                        partition_num,
                        substate_updates@,
                    ).take(i as int),
                decreases substate_updates@.len() - i,
            {
                let key = encode_to_rocksdb_bytes(&pk, &substate_updates[i].0);
                let ghost prev = ops@;
                match &substate_updates[i].1 {
                    DatabaseUpdate::SetTo(value) => {
                        ops.push(WriteOp::Put { key, value: copy_bytes(value) });
                    },
                    DatabaseUpdate::Delete => {
                        ops.push(WriteOp::Delete { key });
                    },
                }
                assert(write_ops_view(ops@) =~= write_ops_view(prev).push(
                    delta_ops(node_key@, partition_num, substate_updates@)[i as int],
                ));
                assert(write_ops_view(ops@) =~= start + delta_ops(
                    node_key@,
                    partition_num,
                    substate_updates@,
                ).take(i + 1));
                i = i + 1;
            }
            assert(delta_ops(node_key@, partition_num, substate_updates@).take(i as int)
                =~= delta_ops(node_key@, partition_num, substate_updates@));
        },
        PartitionDatabaseUpdates::Reset { new_substate_values } => {
            let mut upper: Vec<u8> = Vec::new();
            let mut k: usize = 0;
            while k < 2 * MAX_SUBSTATE_KEY_SIZE
                invariant
                    k <= 2 * MAX_SUBSTATE_KEY_SIZE,
                    upper@ == Seq::new(k as nat, |j: int| 0xFFu8),
                decreases 2 * MAX_SUBSTATE_KEY_SIZE - k,
            {
                upper.push(0xFFu8);
                assert(upper@ =~= Seq::new((k + 1) as nat, |j: int| 0xFFu8));
                k = k + 1;
            }
            let from = encode_to_rocksdb_bytes(&pk, &DbSortKey(Vec::new()));
            let to = encode_to_rocksdb_bytes(&pk, &DbSortKey(upper));
            ops.push(WriteOp::DeleteRange { from, to });
            let ghost rest = Seq::new(
                new_substate_values@.len(),
                |j: int|
                    WriteOpView::Put(
                        encoded_key(node_key@, partition_num, new_substate_values@[j].0.0@),
                        new_substate_values@[j].1@,
                    ),
            );
            let ghost head = seq![
                WriteOpView::DeleteRange(
                    encoded_key(node_key@, partition_num, Seq::empty()),
                    encoded_key(node_key@, partition_num, sort_key_upper_bound()),
                ),
            ];
            assert(write_ops_view(ops@) =~= start + head);
            let mut i: usize = 0;
            while i < new_substate_values.len()
                invariant
                    i <= new_substate_values@.len(),
                    pk.node_key@ == node_key@,
                    pk.partition_num == partition_num,
                    node_key@.len() <= 255,
                    rest == Seq::new(
                        new_substate_values@.len(),
                        |j: int|
                            WriteOpView::Put(
                                encoded_key(node_key@, partition_num, new_substate_values@[j].0.0@),
                                new_substate_values@[j].1@,
                            ),
                    ),
                    write_ops_view(ops@) == start + head + rest.take(i as int),
                decreases new_substate_values@.len() - i,
            {
                let key = encode_to_rocksdb_bytes(&pk, &new_substate_values[i].0);
                let ghost prev = ops@;
                ops.push(WriteOp::Put { key, value: copy_bytes(&new_substate_values[i].1) });
                assert(write_ops_view(ops@) =~= write_ops_view(prev).push(rest[i as int]));
                assert(write_ops_view(ops@) =~= start + head + rest.take(i + 1));
                i = i + 1;
            }
            assert(rest.take(i as int) =~= rest);
            assert(reset_ops(node_key@, partition_num, new_substate_values@) =~= head + rest);
            assert(write_ops_view(ops@) =~= start + (head + rest));
        },
    }
}

/// The writes that commit the changes to the key-value database, in order:
/// node by node and partition by partition, a put or delete per changed
/// substate, and for a replaced partition the removal of its whole key
/// range before its new values. Each node key must fit its one-byte length.
pub fn commit_operations(database_updates: &DatabaseUpdates) -> (r: Vec<WriteOp>)
    requires
        node_keys_fit(database_updates.node_updates@),
    ensures
        write_ops_view(r@) == commit_ops(database_updates.node_updates@),
{
    let nodes = &database_updates.node_updates;
    let mut ops: Vec<WriteOp> = Vec::new();
    let mut n: usize = 0;
    while n < nodes.len()
        invariant
            n <= nodes@.len(),
            node_keys_fit(nodes@),
            write_ops_view(ops@) == commit_ops(nodes@.take(n as int)),
        decreases nodes@.len() - n,
    {
        assert(nodes@.take(n + 1).drop_last() =~= nodes@.take(n as int));
        let ghost before_node = write_ops_view(ops@);
        let node_key = &nodes[n].0;
        assert(node_key@.len() <= 255) by {
            assert(nodes@[n as int].0@.len() <= 255);
        }
        let parts = &nodes[n].1.partition_updates;
        let mut p: usize = 0;
        while p < parts.len()
            invariant
                p <= parts@.len(),
                node_key@.len() <= 255,
                write_ops_view(ops@) == before_node + node_ops(node_key@, parts@.take(p as int)),
            decreases parts@.len() - p,
        {
            assert(parts@.take(p + 1).drop_last() =~= parts@.take(p as int));
            push_partition_ops(&mut ops, node_key, parts[p].0, &parts[p].1);
            assert(write_ops_view(ops@) =~= before_node + node_ops(node_key@, parts@.take(p + 1)));
            p = p + 1;
        }
        assert(parts@.take(p as int) =~= parts@);
        assert(write_ops_view(ops@) =~= commit_ops(nodes@.take(n + 1)));
        n = n + 1;
    }
    assert(nodes@.take(n as int) =~= nodes@);
    ops
}

/// Replacing a partition writes the removal of the partition's whole key
/// range first, then one put per new value, in the order of the values:
/// exactly one more write than there are new values.
pub proof fn lemma_reset_partition_writes(node_key: Seq<u8>, partition_num: u8, p: PartitionDatabaseUpdates)
    requires
        p is Reset,
    ensures
        partition_ops(node_key, partition_num, p).len() == 1 + p->new_substate_values@.len(),
        partition_ops(node_key, partition_num, p)[0] == WriteOpView::DeleteRange(
            encoded_key(node_key, partition_num, Seq::empty()),
            encoded_key(node_key, partition_num, sort_key_upper_bound()),
        ),
        forall|i: int|
            0 <= i < p->new_substate_values@.len() ==> #[trigger] partition_ops(
                node_key,
                partition_num,
                p,
            )[1 + i] == WriteOpView::Put(
                encoded_key(node_key, partition_num, p->new_substate_values@[i].0.0@),
                p->new_substate_values@[i].1@,
            ),
{
}

/// Changing a partition by substates writes one put or delete per changed
/// substate, in order, each at the substate's own key.
pub proof fn lemma_delta_partition_writes(node_key: Seq<u8>, partition_num: u8, p: PartitionDatabaseUpdates)
    requires
        p is Delta,
    ensures
        partition_ops(node_key, partition_num, p).len() == p->substate_updates@.len(),
        forall|i: int|
            0 <= i < p->substate_updates@.len() ==> (#[trigger] partition_ops(
                node_key,
                partition_num,
                p,
            )[i] == match p->substate_updates@[i].1 {
                DatabaseUpdate::SetTo(v) => WriteOpView::Put(
                    encoded_key(node_key, partition_num, p->substate_updates@[i].0.0@),
                    v@,
                ),
                DatabaseUpdate::Delete => WriteOpView::Delete(
                    encoded_key(node_key, partition_num, p->substate_updates@[i].0.0@),
                ),
            }),
{
}

/// A commit that changes one partition of one node writes exactly that
/// partition's writes.
pub proof fn lemma_commit_single_partition(nodes: Seq<(Vec<u8>, NodeDatabaseUpdates)>)
    requires
        nodes.len() == 1,
        nodes[0].1.partition_updates@.len() == 1,
    ensures
        commit_ops(nodes) == partition_ops(
            nodes[0].0@,
            nodes[0].1.partition_updates@[0].0,
            nodes[0].1.partition_updates@[0].1,
        ),
{
    let parts = nodes[0].1.partition_updates@;
    assert(nodes.drop_last() =~= Seq::<(Vec<u8>, NodeDatabaseUpdates)>::empty());
    assert(parts.drop_last() =~= Seq::<(u8, PartitionDatabaseUpdates)>::empty());
    assert(commit_ops(nodes.drop_last()) =~= Seq::<WriteOpView>::empty());
    assert(node_ops(nodes[0].0@, parts.drop_last()) =~= Seq::<WriteOpView>::empty());
    assert(commit_ops(nodes) =~= partition_ops(nodes[0].0@, parts[0].0, parts[0].1));
}

/// The writes of a node's changes are those of its partitions, in order: the
/// changes of two runs of partitions write the first run's writes, then the
/// second's.
pub proof fn lemma_node_ops_append(
    node_key: Seq<u8>,
    a: Seq<(u8, PartitionDatabaseUpdates)>,
    b: Seq<(u8, PartitionDatabaseUpdates)>,
)
    ensures
        node_ops(node_key, a + b) == node_ops(node_key, a) + node_ops(node_key, b),
    decreases b.len(),
{
    if b.len() == 0 {
        assert(a + b =~= a);
        assert(node_ops(node_key, a) + node_ops(node_key, b) =~= node_ops(node_key, a));
    } else {
        lemma_node_ops_append(node_key, a, b.drop_last());
        assert((a + b).drop_last() =~= a + b.drop_last());
        assert((a + b).last() == b.last());
        assert(node_ops(node_key, a + b) =~= node_ops(node_key, a) + node_ops(node_key, b));
    }
}

/// The writes of a commit are those of its nodes, in order: committing two
/// runs of nodes writes the first run's writes, then the second's. A commit
/// of no node writes nothing.
pub proof fn lemma_commit_ops_append(
    a: Seq<(Vec<u8>, NodeDatabaseUpdates)>,
    b: Seq<(Vec<u8>, NodeDatabaseUpdates)>,
)
    ensures
        commit_ops(a + b) == commit_ops(a) + commit_ops(b),
        commit_ops(Seq::<(Vec<u8>, NodeDatabaseUpdates)>::empty()).len() == 0,
    decreases b.len(),
{
    if b.len() == 0 {
        assert(a + b =~= a);
        assert(commit_ops(a) + commit_ops(b) =~= commit_ops(a));
    } else {
        lemma_commit_ops_append(a, b.drop_last());
        assert((a + b).drop_last() =~= a + b.drop_last());
        assert((a + b).last() == b.last());
        assert(commit_ops(a + b) =~= commit_ops(a) + commit_ops(b));
    }
}

/// A commit of one node writes that node's partitions' writes, in order.
pub proof fn lemma_commit_single_node(node: (Vec<u8>, NodeDatabaseUpdates))
    ensures
        commit_ops(seq![node]) == node_ops(node.0@, node.1.partition_updates@),
        node_ops(node.0@, Seq::<(u8, PartitionDatabaseUpdates)>::empty()).len() == 0,
        forall|p: (u8, PartitionDatabaseUpdates)|
            #[trigger] node_ops(node.0@, seq![p]) == partition_ops(node.0@, p.0, p.1),
{
    assert(seq![node].drop_last() =~= Seq::<(Vec<u8>, NodeDatabaseUpdates)>::empty());
    assert(seq![node].last() == node);
    assert(commit_ops(seq![node].drop_last()) =~= Seq::<WriteOpView>::empty());
    assert(commit_ops(seq![node]) =~= node_ops(node.0@, node.1.partition_updates@));
    assert forall|p: (u8, PartitionDatabaseUpdates)|
        #[trigger] node_ops(node.0@, seq![p]) == partition_ops(node.0@, p.0, p.1) by {
        assert(seq![p].drop_last() =~= Seq::<(u8, PartitionDatabaseUpdates)>::empty());
        assert(seq![p].last() == p);
        assert(node_ops(node.0@, seq![p].drop_last()) =~= Seq::<WriteOpView>::empty());
        assert(node_ops(node.0@, seq![p]) =~= partition_ops(node.0@, p.0, p.1));
    }
}

/// The value of a partition key.
pub open spec fn partition_key_view(k: DbPartitionKey) -> (Seq<u8>, u8) {
    (k.node_key@, k.partition_num)
}

/// The values of a list of partition keys.
pub open spec fn partition_keys_view(v: Seq<DbPartitionKey>) -> Seq<(Seq<u8>, u8)> {
    Seq::new(v.len(), |i: int| partition_key_view(v[i]))
}

/// The list with each run of equal items kept once.
pub open spec fn dedup_runs<T>(s: Seq<T>) -> Seq<T>
    decreases s.len(),
{
    if s.len() <= 1 {
        s
    } else if s.last() == s[s.len() - 2] {
        dedup_runs(s.drop_last())
    } else {
        dedup_runs(s.drop_last()).push(s.last())
    }
}

/// Whether equal items of `s` stand next to each other, as in a sorted list.
pub open spec fn grouped<T>(s: Seq<T>) -> bool {
    forall|i: int, j: int, k: int| 0 <= i < j < k < s.len() && s[i] == s[k] ==> s[i] == s[j]
}

proof fn lemma_dedup_runs_items<T>(s: Seq<T>)
    ensures
        forall|i: int| 0 <= i < dedup_runs(s).len() ==> s.contains(#[trigger] dedup_runs(s)[i]),
    decreases s.len(),
{
    if s.len() > 1 {
        lemma_dedup_runs_items(s.drop_last());
        let r = dedup_runs(s.drop_last());
        assert forall|i: int| 0 <= i < dedup_runs(s).len() implies s.contains(
            #[trigger] dedup_runs(s)[i],
        ) by {
            if i < r.len() {
                assert(dedup_runs(s)[i] == r[i]);
                let k = choose|k: int| 0 <= k < s.drop_last().len() && s.drop_last()[k] == r[i];
                assert(s[k] == r[i]);
            } else {
                assert(dedup_runs(s)[i] == s.last());
                assert(s[s.len() - 1] == s.last());
            }
        }
    } else if s.len() == 1 {
        assert(dedup_runs(s)[0] == s[0]);
    }
}

/// Keeping each run of equal items once leaves no item twice when equal
/// items stand together, as the keys of an ordered scan do: each partition
/// is listed once.
pub proof fn lemma_dedup_runs_of_grouped<T>(s: Seq<T>)
    requires
        grouped(s),
    ensures
        no_repeats_in(dedup_runs(s)),
    decreases s.len(),
{
    if s.len() > 1 {
        let p = s.drop_last();
        assert(grouped(p)) by {
            assert forall|i: int, j: int, k: int|
                0 <= i < j < k < p.len() && p[i] == p[k] implies p[i] == p[j] by {
                assert(s[i] == p[i] && s[j] == p[j] && s[k] == p[k]);
            }
        }
        lemma_dedup_runs_of_grouped(p);
        lemma_dedup_runs_items(p);
        lemma_dedup_runs_last(p);
        let r = dedup_runs(p);
        if s.last() != s[s.len() - 2] {
            assert forall|i: int| 0 <= i < r.len() implies r[i] != s.last() by {
                if r[i] == s.last() {
                    let k = choose|k: int| 0 <= k < p.len() && p[k] == r[i];
                    assert(s[k] == s[s.len() - 1]);
                    assert(k < s.len() - 2) by {
                        if k == s.len() - 2 {
                            assert(s[k] == s[s.len() - 2]);
                        }
                    }
                    assert(s[k] == s[s.len() - 2]);
                }
            }
            assert forall|i: int, j: int|
                0 <= i < j < r.push(s.last()).len() implies r.push(s.last())[i] != r.push(
                s.last(),
            )[j] by {
                if j < r.len() {
                    assert(r.push(s.last())[i] == r[i] && r.push(s.last())[j] == r[j]);
                } else {
                    assert(r.push(s.last())[i] == r[i]);
                }
            }
        }
    }
}

/// Whether no item occurs twice.
pub open spec fn no_repeats_in<T>(s: Seq<T>) -> bool {
    forall|i: int, j: int| 0 <= i < j < s.len() ==> s[i] != s[j]
}

fn partition_key_eq(a: &DbPartitionKey, b: &DbPartitionKey) -> (r: bool)
    ensures
        r == (partition_key_view(*a) == partition_key_view(*b)),
{
    if a.partition_num != b.partition_num || a.node_key.len() != b.node_key.len() {
        return false;
    }
    let mut i: usize = 0;
    while i < a.node_key.len()
        invariant
            i <= a.node_key@.len() == b.node_key@.len(),
            forall|k: int| 0 <= k < i ==> a.node_key@[k] == b.node_key@[k],
        decreases a.node_key@.len() - i,
    {
        if a.node_key[i] != b.node_key[i] {
            return false;
        }
        i = i + 1;
    }
    assert(a.node_key@ =~= b.node_key@);
    true
}

/// Lemma: the last item of a non-empty run-deduplicated list is the last item.
proof fn lemma_dedup_runs_last<T>(s: Seq<T>)
    requires
        s.len() > 0,
    ensures
        dedup_runs(s).len() > 0,
        dedup_runs(s).last() == s.last(),
    decreases s.len(),
{
    if s.len() > 1 && s.last() == s[s.len() - 2] {
        lemma_dedup_runs_last(s.drop_last());
    }
}

/// The partition keys of the database, from the decoded keys of its
/// substates in key order: each run of equal partition keys kept once.
pub fn list_partition_keys(keys: Vec<DbPartitionKey>) -> (r: Vec<DbPartitionKey>)
    ensures
        partition_keys_view(r@) == dedup_runs(partition_keys_view(keys@)),
{
    let mut r: Vec<DbPartitionKey> = Vec::new();
    let mut i: usize = 0;
    while i < keys.len()
        invariant
            i <= keys@.len(),
            partition_keys_view(r@) == dedup_runs(partition_keys_view(keys@).take(i as int)),
        decreases keys@.len() - i,
    {
        let ghost s = partition_keys_view(keys@).take(i + 1);
        assert(s.drop_last() =~= partition_keys_view(keys@).take(i as int));
        let keep = if i == 0 {
            true
        } else {
            proof {
                lemma_dedup_runs_last(s.drop_last());
            }
            assert(s[s.len() - 2] == partition_key_view(keys@[i - 1]));
            !partition_key_eq(&keys[i], &keys[i - 1])
        };
        let ghost prev = r@;
        if keep {
            r.push(partition_key(&keys[i].node_key, keys[i].partition_num));
            assert(partition_keys_view(r@) =~= partition_keys_view(prev).push(
                partition_key_view(keys@[i as int]),
            ));
        }
        assert(partition_keys_view(r@) =~= dedup_runs(s));
        i = i + 1;
    }
    assert(partition_keys_view(keys@).take(i as int) =~= partition_keys_view(keys@));
    r
}

/// The values of a list of decoded entries.
pub open spec fn entries_view(v: Seq<((DbPartitionKey, DbSortKey), Vec<u8>)>) -> Seq<
    ((Seq<u8>, u8), Seq<u8>, Seq<u8>),
> {
    Seq::new(v.len(), |i: int| (partition_key_view(v[i].0.0), v[i].0.1.0@, v[i].1@))
}

/// The longest prefix of the entries that lie in the partition, as sort keys
/// and values.
pub open spec fn partition_prefix(
    v: Seq<((Seq<u8>, u8), Seq<u8>, Seq<u8>)>,
    partition: (Seq<u8>, u8),
) -> Seq<(Seq<u8>, Seq<u8>)>
    decreases v.len(),
{
    if v.len() == 0 || v[0].0 != partition {
        Seq::empty()
    } else {
        seq![(v[0].1, v[0].2)] + partition_prefix(v.drop_first(), partition)
    }
}

/// The values of a list of partition entries.
pub open spec fn partition_entries_view(v: Seq<(DbSortKey, Vec<u8>)>) -> Seq<(Seq<u8>, Seq<u8>)> {
    Seq::new(v.len(), |i: int| (v[i].0.0@, v[i].1@))
}

proof fn lemma_partition_prefix_take(
    v: Seq<((Seq<u8>, u8), Seq<u8>, Seq<u8>)>,
    partition: (Seq<u8>, u8),
    i: int,
)
    requires
        0 <= i <= v.len(),
        forall|k: int| 0 <= k < i ==> (#[trigger] v[k]).0 == partition,
    ensures
        partition_prefix(v, partition) == Seq::new(i as nat, |k: int| (v[k].1, v[k].2))
            + partition_prefix(v.skip(i), partition),
    decreases i,
{
    if i == 0 {
        assert(v.skip(0) =~= v);
        assert(Seq::new(0, |k: int| (v[k].1, v[k].2)) + partition_prefix(v, partition)
            =~= partition_prefix(v, partition));
    } else {
        lemma_partition_prefix_take(v.drop_first(), partition, i - 1);
        assert(v.drop_first().skip(i - 1) =~= v.skip(i));
        assert(Seq::new(i as nat, |k: int| (v[k].1, v[k].2)) =~= seq![(v[0].1, v[0].2)]
            + Seq::new((i - 1) as nat, |k: int| (v.drop_first()[k].1, v.drop_first()[k].2)));
    }
}

/// The entries of a partition from a scan of the database that starts at
/// the partition: the scanned entries up to the first one of another
/// partition.
pub fn entries_in_partition(
    partition_key: &DbPartitionKey,
    scanned: Vec<((DbPartitionKey, DbSortKey), Vec<u8>)>,
) -> (r: Vec<(DbSortKey, Vec<u8>)>)
    ensures
        partition_entries_view(r@) == partition_prefix(
            entries_view(scanned@),
            partition_key_view(*partition_key),
        ),
{
    let ghost v = entries_view(scanned@);
    let ghost pk = partition_key_view(*partition_key);
    let mut r: Vec<(DbSortKey, Vec<u8>)> = Vec::new();
    let mut i: usize = 0;
    let mut done = false;
    while i < scanned.len() && !done
        invariant
            i <= scanned@.len(),
            v == entries_view(scanned@),
            pk == partition_key_view(*partition_key),
            forall|k: int| 0 <= k < i ==> (#[trigger] v[k]).0 == pk,
            done ==> i < v.len() && v[i as int].0 != pk,
            partition_entries_view(r@) == Seq::new(i as nat, |k: int| (v[k].1, v[k].2)),
        decreases scanned@.len() - i + (if done { 0int } else { 1int }),
    {
        if !partition_key_eq(&scanned[i].0.0, partition_key) {
            done = true;
        } else {
            let ghost prev = r@;
            let sort_key = DbSortKey(copy_bytes(&scanned[i].0.1.0));
            r.push((sort_key, copy_bytes(&scanned[i].1)));
            assert(partition_entries_view(r@) =~= partition_entries_view(prev).push(
                (v[i as int].1, v[i as int].2),
            ));
            assert(partition_entries_view(r@) =~= Seq::new(
                (i + 1) as nat,
                |k: int| (v[k].1, v[k].2),
            ));
            i = i + 1;
        }
    }
    proof {
        lemma_partition_prefix_take(v, pk, i as int);
        if i < v.len() {
            assert(v.skip(i as int)[0] == v[i as int]);
        }
        assert(partition_prefix(v.skip(i as int), pk) =~= Seq::empty());
        assert(partition_entries_view(r@) =~= partition_prefix(v, pk));
    }
    r
}

} // verus!
