use std::collections::BTreeMap;

use radix_runtime_fuzzer::substate_store::{
    commit_operations, decode_from_rocksdb_bytes, encode_to_rocksdb_bytes, entries_in_partition,
    list_partition_keys, DatabaseUpdate, DatabaseUpdates, DbPartitionKey, DbSortKey,
    NodeDatabaseUpdates, PartitionDatabaseUpdates, WriteOp,
};

/// An ordered key-value store that applies the planned writes.
struct Store {
    entries: BTreeMap<Vec<u8>, Vec<u8>>,
}

impl Store {
    fn commit(&mut self, updates: &DatabaseUpdates) {
        for op in commit_operations(updates) {
            match op {
                WriteOp::Put { key, value } => {
                    self.entries.insert(key, value);
                }
                WriteOp::Delete { key } => {
                    self.entries.remove(&key);
                }
                WriteOp::DeleteRange { from, to } => {
                    let doomed: Vec<Vec<u8>> =
                        self.entries.range(from..to).map(|(k, _)| k.clone()).collect();
                    for k in doomed {
                        self.entries.remove(&k);
                    }
                }
            }
        }
    }

    fn list_partition_keys(&self) -> Vec<DbPartitionKey> {
        let keys = self.entries.keys().map(|k| decode_from_rocksdb_bytes(k).0).collect();
        list_partition_keys(keys)
    }
}

fn reset(sort_key: u8, value: u8) -> PartitionDatabaseUpdates {
    PartitionDatabaseUpdates::Reset {
        new_substate_values: vec![(DbSortKey(vec![sort_key]), vec![value])],
    }
}

#[test]
fn test_partition_deletion() {
    let mut db = Store { entries: BTreeMap::new() };
    let node_updates = NodeDatabaseUpdates {
        partition_updates: vec![(0, reset(5, 6)), (1, reset(7, 8)), (255, reset(9, 10))],
    };
    let updates = DatabaseUpdates {
        node_updates: vec![
            (vec![0], node_updates.clone()),
            (vec![1], node_updates.clone()),
            (vec![255], node_updates.clone()),
        ],
    };
    db.commit(&updates);
    assert_eq!(db.list_partition_keys().len(), 9);
    db.commit(&DatabaseUpdates {
        node_updates: vec![(
            vec![0],
            NodeDatabaseUpdates {
                partition_updates: vec![(
                    255,
                    PartitionDatabaseUpdates::Reset { new_substate_values: vec![] },
                )],
            },
        )],
    });
    assert_eq!(db.list_partition_keys().len(), 8);
}

#[test]
fn encoded_key_layout_and_roundtrip() {
    let pk = DbPartitionKey { node_key: vec![1, 2, 3], partition_num: 7 };
    let sk = DbSortKey(vec![9, 9]);
    let bytes = encode_to_rocksdb_bytes(&pk, &sk);
    assert_eq!(bytes, vec![3, 1, 2, 3, 7, 9, 9]);
    assert_eq!(decode_from_rocksdb_bytes(&bytes), (pk, sk));
    let empty = DbPartitionKey { node_key: vec![], partition_num: 0 };
    let bytes = encode_to_rocksdb_bytes(&empty, &DbSortKey(vec![]));
    assert_eq!(bytes, vec![0, 0]);
    assert_eq!(decode_from_rocksdb_bytes(&bytes), (empty, DbSortKey(vec![])));
}

#[test]
fn delta_updates_put_and_delete() {
    let updates = DatabaseUpdates {
        node_updates: vec![(
            vec![4],
            NodeDatabaseUpdates {
                partition_updates: vec![(
                    2,
                    PartitionDatabaseUpdates::Delta {
                        substate_updates: vec![
                            (DbSortKey(vec![1]), DatabaseUpdate::SetTo(vec![42])),
                            (DbSortKey(vec![2]), DatabaseUpdate::Delete),
                        ],
                    },
                )],
            },
        )],
    };
    assert_eq!(
        commit_operations(&updates),
        vec![
            WriteOp::Put { key: vec![1, 4, 2, 1], value: vec![42] },
            WriteOp::Delete { key: vec![1, 4, 2, 2] },
        ]
    );
}

#[test]
fn reset_removes_the_whole_partition_range_first() {
    let updates = DatabaseUpdates {
        node_updates: vec![(vec![4], NodeDatabaseUpdates { partition_updates: vec![(2, reset(1, 5))] })],
    };
    let ops = commit_operations(&updates);
    assert_eq!(ops.len(), 2);
    match &ops[0] {
        WriteOp::DeleteRange { from, to } => {
            assert_eq!(from, &vec![1, 4, 2]);
            assert_eq!(to.len(), 3 + 2048);
            assert_eq!(&to[..3], &[1, 4, 2]);
            assert!(to[3..].iter().all(|b| *b == 0xFF));
        }
        other => panic!("unexpected {:?}", other),
    }
    assert_eq!(ops[1], WriteOp::Put { key: vec![1, 4, 2, 1], value: vec![5] });
}

#[test]
fn partition_keys_collapse_runs() {
    let k = |n: u8, p: u8| DbPartitionKey { node_key: vec![n], partition_num: p };
    assert_eq!(
        list_partition_keys(vec![k(1, 0), k(1, 0), k(1, 1), k(1, 0)]),
        vec![k(1, 0), k(1, 1), k(1, 0)]
    );
    assert_eq!(list_partition_keys(vec![]), vec![]);
}

#[test]
fn entries_stop_at_the_next_partition() {
    let k = |n: u8, p: u8| DbPartitionKey { node_key: vec![n], partition_num: p };
    let scanned = vec![
        ((k(1, 0), DbSortKey(vec![1])), vec![10]),
        ((k(1, 0), DbSortKey(vec![2])), vec![20]),
        ((k(1, 1), DbSortKey(vec![1])), vec![30]),
        ((k(1, 0), DbSortKey(vec![3])), vec![40]),
    ];
    assert_eq!(
        entries_in_partition(&k(1, 0), scanned.clone()),
        vec![(DbSortKey(vec![1]), vec![10]), (DbSortKey(vec![2]), vec![20])]
    );
    assert_eq!(entries_in_partition(&k(2, 0), scanned), vec![]);
}
