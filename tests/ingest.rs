use voxel_chunks::ingest::{
    chunk_values, effective_chunk_size, register_task, resolve_format, IngestError,
};
use voxel_chunks::parsers::ParserRegistry;
use voxel_chunks::partition::ChunkDescriptor;
use voxel_chunks::task::{ChunkFetch, TaskStore};
use voxel_chunks::voxel_grid::{element_count, GridError, VoxelGrid};
use voxel_chunks::wire::encode_chunk;

fn d(index: usize, start: usize, end: usize) -> ChunkDescriptor {
    ChunkDescriptor { index, start, end }
}

#[test]
fn end_to_end_two_by_two_by_two_grid() {
    let mut store = TaskStore::new();
    let (id, resp) = register_task(
        &mut store,
        "grid.vasp",
        "res/grid.vasp".to_string(),
        1234,
        [2, 2, 2],
        3,
        0,
    )
    .expect("registered");
    assert_eq!(resp.file, "grid.vasp");
    assert_eq!(resp.file_size, 1234);
    assert_eq!(resp.shape, [2, 2, 2]);
    assert_eq!(resp.data_length, 8);
    assert_eq!(resp.chunk_size, 3);
    assert_eq!(resp.chunks, vec![d(0, 0, 3), d(1, 3, 6), d(2, 6, 8)]);
    assert_eq!(resp.task_id.len(), 36);
    assert_eq!(uuid::Uuid::parse_str(&resp.task_id).unwrap().as_u128(), id);
    let h = format!("{:032x}", id);
    let expected_text = format!("{}-{}-{}-{}-{}", &h[0..8], &h[8..12], &h[12..16], &h[16..20], &h[20..32]);
    assert_eq!(resp.task_id, expected_text);

    assert!(matches!(
        store.fetch_chunk_by_text(&resp.task_id, 0),
        ChunkFetch::NotYetReady
    ));

    let source: Vec<f64> = vec![0.5, -1.25, 3.0, 4.5, 1e-3, 2.0e10, -0.0, 7.75];
    let words: Vec<u64> = source.iter().map(|v| v.to_bits()).collect();
    let grid = VoxelGrid::new([2, 2, 2], words).expect("sizes agree");
    for c in &resp.chunks {
        let values = chunk_values(grid.get_data(), c).expect("range within grid");
        assert!(store.set_chunk(id, c.index, values));
    }

    match store.fetch_chunk_by_text(&resp.task_id, 0) {
        ChunkFetch::Ready { descriptor, data } => {
            assert_eq!(descriptor, d(0, 0, 3));
            let bytes = encode_chunk(&data);
            let mut expected = Vec::new();
            for v in &source[0..3] {
                expected.extend_from_slice(&v.to_le_bytes());
            }
            assert_eq!(bytes, expected);
        }
        _ => panic!("chunk 0 should be ready"),
    }
    assert!(matches!(
        store.fetch_chunk_by_text(&resp.task_id, 0),
        ChunkFetch::AlreadyConsumed
    ));
    assert!(matches!(
        store.fetch_chunk_by_text(&resp.task_id, 3),
        ChunkFetch::UnknownChunkIndex
    ));
}

#[test]
fn zero_chunk_size_is_raised_to_one() {
    assert_eq!(effective_chunk_size(0), 1);
    assert_eq!(effective_chunk_size(9), 9);
    let mut store = TaskStore::new();
    let (_, resp) = register_task(&mut store, "g.vasp", "r/g.vasp".to_string(), 1, [2, 1, 1], 0, 0)
        .expect("registered");
    assert_eq!(resp.chunk_size, 1);
    assert_eq!(resp.chunks, vec![d(0, 0, 1), d(1, 1, 2)]);
}

#[test]
fn empty_grid_registers_with_no_chunks() {
    let mut store = TaskStore::new();
    let (_, resp) = register_task(&mut store, "e.vasp", "r/e.vasp".to_string(), 0, [0, 5, 5], 4, 0)
        .expect("registered");
    assert_eq!(resp.data_length, 0);
    assert!(resp.chunks.is_empty());
    assert_eq!(store.task_count(), 1);
}

#[test]
fn oversized_grid_is_refused() {
    let mut store = TaskStore::new();
    let r = register_task(
        &mut store,
        "big.vasp",
        "r/big.vasp".to_string(),
        1,
        [usize::MAX, 2, 1],
        4,
        0,
    );
    assert!(matches!(r, Err(IngestError::GridTooLarge)));
    assert_eq!(store.task_count(), 0);
}

#[test]
fn element_count_checks_overflow() {
    assert_eq!(element_count([2, 3, 4]), Some(24));
    assert_eq!(element_count([0, usize::MAX, usize::MAX]), Some(0));
    assert_eq!(element_count([usize::MAX, 1, 1]), Some(usize::MAX));
    assert_eq!(element_count([usize::MAX, 2, 1]), None);
    assert_eq!(element_count([1 << 40, 1 << 30, 1]), None);
}

#[test]
fn grid_needs_one_element_per_cell() {
    assert!(matches!(
        VoxelGrid::new([2, 2, 1], vec![1, 2, 3]),
        Err(GridError::LengthMismatch { expected: 4, actual: 3 })
    ));
    assert!(matches!(
        VoxelGrid::new([usize::MAX, 2, 1], vec![]),
        Err(GridError::TooLarge)
    ));
    let g = VoxelGrid::new([2, 1, 1], vec![5, 6]).unwrap();
    assert_eq!(g.get_shape(), [2, 1, 1]);
    assert_eq!(g.get_data(), &vec![5, 6]);
}

#[test]
fn chunk_values_copies_the_range() {
    let data: Vec<u64> = (0..10).collect();
    assert_eq!(chunk_values(&data, &d(1, 4, 8)), Some(vec![4, 5, 6, 7]));
    assert_eq!(chunk_values(&data, &d(2, 8, 10)), Some(vec![8, 9]));
    assert_eq!(chunk_values(&data, &d(0, 3, 3)), Some(vec![]));
    assert_eq!(chunk_values(&data, &d(3, 8, 11)), None);
    assert_eq!(chunk_values(&data, &d(3, 5, 4)), None);
}

#[test]
fn encode_chunk_is_little_endian() {
    assert_eq!(encode_chunk(&vec![]), Vec::<u8>::new());
    assert_eq!(
        encode_chunk(&vec![0x0102030405060708]),
        vec![8, 7, 6, 5, 4, 3, 2, 1]
    );
    assert_eq!(
        encode_chunk(&vec![1.0f64.to_bits(), 1]),
        vec![0, 0, 0, 0, 0, 0, 0xf0, 0x3f, 1, 0, 0, 0, 0, 0, 0, 0]
    );
}

#[test]
fn format_is_chosen_by_extension() {
    let r = ParserRegistry::new();
    assert!(resolve_format(&r, "res/CHGDIFF.vasp").is_ok());
    match resolve_format(&r, "res/notes.txt") {
        Err(IngestError::UnsupportedFormat(list)) => assert_eq!(list, vec!["vasp".to_string()]),
        _ => panic!("text files are not read"),
    }
    assert!(matches!(
        resolve_format(&r, "res/noext"),
        Err(IngestError::UnsupportedFormat(_))
    ));
}

#[test]
fn fresh_registry_registers_ten_elements_in_chunks_of_four() {
    let mut store = TaskStore::new();
    let (id, resp) = register_task(&mut store, "t.vasp", "r/t.vasp".to_string(), 9, [10, 1, 1], 4, 0)
        .expect("fresh registry");
    assert_eq!(resp.data_length, 10);
    assert_eq!(resp.chunk_size, 4);
    assert_eq!(resp.chunks, vec![d(0, 0, 4), d(1, 4, 8), d(2, 8, 10)]);
    assert_eq!(store.get(id).unwrap().chunks(), &resp.chunks);
}
