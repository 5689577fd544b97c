use voxel_chunks::partition::partition_chunks;
use voxel_chunks::task::{ChunkFetch, TaskData};

fn task(total: usize, chunk: usize) -> TaskData {
    TaskData::new([total, 1, 1], partition_chunks(total, chunk), "res/a.vasp".to_string(), 0)
}

#[test]
fn new_task_has_all_chunks_pending() {
    let t = task(10, 4);
    assert_eq!(t.chunks().len(), 3);
    assert_eq!(t.remaining_chunk_count(), 3);
    assert!(t.has_remaining_chunks());
    for i in 0..3 {
        assert!(!t.is_chunk_ready(i));
    }
    assert_eq!(t.shape(), [10, 1, 1]);
    assert_eq!(t.file_path(), "res/a.vasp");
    assert_eq!(t.created_at(), 0);
}

#[test]
fn chunk_is_not_ready_before_it_is_set() {
    let mut t = task(10, 4);
    assert!(t.set_chunk(1, vec![4, 5, 6, 7]));
    assert!(!t.is_chunk_ready(0));
    assert_eq!(t.take_chunk(0), None);
    assert!(matches!(t.fetch_chunk(0), ChunkFetch::NotYetReady));
    assert!(t.is_chunk_ready(1));
}

#[test]
fn take_hands_out_payload_once() {
    let mut t = task(10, 4);
    assert!(t.set_chunk(2, vec![8, 9]));
    assert_eq!(t.take_chunk(2), Some(vec![8, 9]));
    assert_eq!(t.take_chunk(2), None);
    assert!(!t.is_chunk_ready(2));
    assert_eq!(t.remaining_chunk_count(), 2);
}

#[test]
fn second_set_of_a_chunk_is_refused() {
    let mut t = task(10, 4);
    assert!(t.set_chunk(0, vec![1, 2, 3, 4]));
    assert!(!t.set_chunk(0, vec![9, 9, 9, 9]));
    assert_eq!(t.take_chunk(0), Some(vec![1, 2, 3, 4]));
    assert!(!t.set_chunk(0, vec![5]));
    assert_eq!(t.take_chunk(0), None);
}

#[test]
fn set_of_unknown_chunk_changes_nothing() {
    let mut t = task(10, 4);
    assert!(!t.set_chunk(3, vec![1]));
    assert!(!t.is_chunk_ready(3));
    assert_eq!(t.take_chunk(3), None);
    assert_eq!(t.remaining_chunk_count(), 3);
}

#[test]
fn fetch_reports_each_state() {
    let mut t = task(10, 4);
    assert!(matches!(t.fetch_chunk(7), ChunkFetch::UnknownChunkIndex));
    assert!(matches!(t.fetch_chunk(1), ChunkFetch::NotYetReady));
    assert!(t.set_chunk(1, vec![4, 5, 6, 7]));
    match t.fetch_chunk(1) {
        ChunkFetch::Ready { descriptor, data } => {
            assert_eq!((descriptor.index, descriptor.start, descriptor.end), (1, 4, 8));
            assert_eq!(data, vec![4, 5, 6, 7]);
        }
        _ => panic!("chunk 1 should be ready"),
    }
    assert!(matches!(t.fetch_chunk(1), ChunkFetch::AlreadyConsumed));
}

#[test]
fn all_chunks_consumed_leaves_none_remaining() {
    let mut t = task(5, 5);
    assert!(t.set_chunk(0, vec![0, 1, 2, 3, 4]));
    assert!(t.take_chunk(0).is_some());
    assert_eq!(t.remaining_chunk_count(), 0);
    assert!(!t.has_remaining_chunks());
}
