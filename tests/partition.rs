use voxel_chunks::partition::{partition_chunks, ChunkDescriptor};

fn d(index: usize, start: usize, end: usize) -> ChunkDescriptor {
    ChunkDescriptor { index, start, end }
}

#[test]
fn ten_elements_in_chunks_of_four() {
    let chunks = partition_chunks(10, 4);
    assert_eq!(chunks, vec![d(0, 0, 4), d(1, 4, 8), d(2, 8, 10)]);
}

#[test]
fn zero_elements_give_no_chunks() {
    assert!(partition_chunks(0, 4).is_empty());
    assert!(partition_chunks(0, 0).is_empty());
    assert!(partition_chunks(0, 1).is_empty());
}

#[test]
fn zero_chunk_size_counts_as_one() {
    let chunks = partition_chunks(3, 0);
    assert_eq!(chunks, vec![d(0, 0, 1), d(1, 1, 2), d(2, 2, 3)]);
}

#[test]
fn exact_division_gives_full_last_chunk() {
    let chunks = partition_chunks(12, 4);
    assert_eq!(chunks, vec![d(0, 0, 4), d(1, 4, 8), d(2, 8, 12)]);
}

#[test]
fn chunk_larger_than_total_gives_one_chunk() {
    assert_eq!(partition_chunks(5, 100), vec![d(0, 0, 5)]);
    assert_eq!(partition_chunks(5, usize::MAX), vec![d(0, 0, 5)]);
}

#[test]
fn layouts_cover_range_contiguously() {
    for total in 0..40usize {
        for size in 1..12usize {
            let chunks = partition_chunks(total, size);
            let mut next = 0usize;
            for (i, c) in chunks.iter().enumerate() {
                assert_eq!(c.index, i);
                assert_eq!(c.start, next);
                assert!(c.start < c.end);
                assert!(c.end - c.start <= size);
                if i + 1 < chunks.len() {
                    assert_eq!(c.end - c.start, size);
                }
                next = c.end;
            }
            assert_eq!(next, total);
            if let Some(last) = chunks.last() {
                let rem = if total % size == 0 { size } else { total % size };
                assert_eq!(last.end - last.start, rem);
            }
        }
    }
}
