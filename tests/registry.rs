use voxel_chunks::partition::partition_chunks;
use voxel_chunks::task::{ChunkFetch, TaskData, TaskStore, DEFAULT_TTL_MS};

fn task_at(created_at: u64) -> TaskData {
    TaskData::new([4, 1, 1], partition_chunks(4, 2), "res/b.vasp".to_string(), created_at)
}

#[test]
fn new_store_is_empty_with_thirty_minute_ttl() {
    let s = TaskStore::new();
    assert_eq!(s.task_count(), 0);
    assert_eq!(s.default_ttl(), 30 * 60 * 1000);
    assert_eq!(DEFAULT_TTL_MS, 1_800_000);
    assert_eq!(TaskStore::with_ttl(5).default_ttl(), 5);
}

#[test]
fn inserted_task_can_be_found() {
    let mut s = TaskStore::new();
    let id = s.insert(task_at(7)).expect("fresh identifier");
    assert_eq!(s.task_count(), 1);
    let t = s.get(id).expect("task is live");
    assert_eq!(t.created_at(), 7);
    assert_eq!(t.chunks().len(), 2);
    assert!(s.get(id.wrapping_add(1)).is_none());
}

#[test]
fn many_inserts_never_share_an_identifier() {
    let mut s = TaskStore::new();
    let mut ids = Vec::new();
    for i in 0..200u64 {
        ids.push(s.insert(task_at(i)).expect("fresh identifier"));
    }
    let mut sorted = ids.clone();
    sorted.sort();
    sorted.dedup();
    assert_eq!(sorted.len(), 200);
    assert_eq!(s.task_count(), 200);
    for (i, id) in ids.iter().enumerate() {
        assert_eq!(s.get(*id).unwrap().created_at(), i as u64);
    }
}

#[test]
fn insert_with_taken_identifier_is_refused() {
    let mut s = TaskStore::new();
    assert!(s.insert_with_id(42, task_at(1)));
    assert!(!s.insert_with_id(42, task_at(2)));
    assert_eq!(s.task_count(), 1);
    assert_eq!(s.get(42).unwrap().created_at(), 1);
}

#[test]
fn sweep_removes_tasks_at_or_past_ttl() {
    let ttl = 1_800_000u64;
    let now = 10_000_000u64;
    let mut s = TaskStore::with_ttl(ttl);
    assert!(s.insert_with_id(1, task_at(now - 1_801_000)));
    assert!(s.insert_with_id(2, task_at(now - 1_799_000)));
    assert!(s.insert_with_id(3, task_at(now - ttl)));
    assert!(s.insert_with_id(4, task_at(now + 5)));
    assert_eq!(s.cleanup_expired(now), 2);
    assert!(s.get(1).is_none());
    assert!(s.get(2).is_some());
    assert!(s.get(3).is_none());
    assert!(s.get(4).is_some());
    assert_eq!(s.task_count(), 2);
    assert_eq!(s.cleanup_expired(now), 0);
}

#[test]
fn sweep_removes_task_regardless_of_chunk_state() {
    let mut s = TaskStore::with_ttl(100);
    assert!(s.insert_with_id(9, task_at(0)));
    assert!(s.set_chunk(9, 0, vec![1, 2]));
    assert_eq!(s.cleanup_expired(100), 1);
    assert!(matches!(s.fetch_chunk(9, 0), ChunkFetch::UnknownTask));
}

#[test]
fn out_of_range_index_is_unknown_whatever_the_state() {
    let mut s = TaskStore::new();
    assert!(s.insert_with_id(5, task_at(0)));
    assert!(matches!(s.fetch_chunk(5, 2), ChunkFetch::UnknownChunkIndex));
    assert!(s.set_chunk(5, 0, vec![1, 2]));
    assert!(s.set_chunk(5, 1, vec![3, 4]));
    assert!(matches!(s.fetch_chunk(5, 2), ChunkFetch::UnknownChunkIndex));
    assert!(matches!(s.fetch_chunk(5, usize::MAX), ChunkFetch::UnknownChunkIndex));
}

#[test]
fn unknown_identifier_is_unknown_task() {
    let mut s = TaskStore::new();
    assert!(matches!(s.fetch_chunk(77, 0), ChunkFetch::UnknownTask));
    assert!(!s.set_chunk(77, 0, vec![1]));
    assert!(matches!(
        s.fetch_chunk_by_text("not-an-identifier", 0),
        ChunkFetch::UnknownTask
    ));
    assert!(matches!(
        s.fetch_chunk_by_text("67e55044-10b1-426f-9247-bb680e5fe0c8", 0),
        ChunkFetch::UnknownTask
    ));
}

#[test]
fn fetch_by_text_reaches_the_task() {
    let mut s = TaskStore::new();
    let id: u128 = 0x67e5504410b1426f9247bb680e5fe0c8;
    assert!(s.insert_with_id(id, task_at(0)));
    assert!(s.set_chunk(id, 1, vec![3, 4]));
    match s.fetch_chunk_by_text("67e55044-10b1-426f-9247-bb680e5fe0c8", 1) {
        ChunkFetch::Ready { descriptor, data } => {
            assert_eq!((descriptor.start, descriptor.end), (2, 4));
            assert_eq!(data, vec![3, 4]);
        }
        _ => panic!("chunk 1 should be ready"),
    }
    assert!(matches!(
        s.fetch_chunk_by_text("67e55044-10b1-426f-9247-bb680e5fe0c8", 1),
        ChunkFetch::AlreadyConsumed
    ));
}

#[test]
fn clear_all_removes_every_task() {
    let mut s = TaskStore::new();
    assert!(s.insert_with_id(1, task_at(0)));
    assert!(s.insert_with_id(2, task_at(0)));
    s.clear_all();
    assert_eq!(s.task_count(), 0);
    assert!(s.get(1).is_none());
}

#[test]
fn swept_identifier_is_never_issued_again() {
    let mut s = TaskStore::with_ttl(10);
    assert!(s.insert_with_id(3, task_at(0)));
    assert_eq!(s.cleanup_expired(10), 1);
    assert!(s.get(3).is_none());
    assert!(!s.insert_with_id(3, task_at(20)));
    assert_eq!(s.task_count(), 0);
    s.clear_all();
    assert!(!s.insert_with_id(3, task_at(30)));
    assert!(s.insert_with_id(4, task_at(30)));
}

#[test]
fn insert_into_fresh_store_succeeds() {
    let mut s = TaskStore::new();
    assert!(s.insert(task_at(0)).is_some());
}

#[test]
fn only_the_issued_text_names_a_task() {
    let mut s = TaskStore::new();
    let id: u128 = 0x67e5504410b1426f9247bb680e5fe0c8;
    assert!(s.insert_with_id(id, task_at(0)));
    assert!(s.set_chunk(id, 0, vec![1, 2]));
    for other in [
        "67E55044-10B1-426F-9247-BB680E5FE0C8",
        "67e5504410b1426f9247bb680e5fe0c8",
        "{67e55044-10b1-426f-9247-bb680e5fe0c8}",
        "urn:uuid:67e55044-10b1-426f-9247-bb680e5fe0c8",
    ] {
        assert!(matches!(s.fetch_chunk_by_text(other, 0), ChunkFetch::UnknownTask));
    }
    assert!(matches!(
        s.fetch_chunk_by_text("67e55044-10b1-426f-9247-bb680e5fe0c8", 0),
        ChunkFetch::Ready { .. }
    ));
}
