use reactor::connection::host_partition;
use reactor::partition::{chunk_size, partition, Chunk};

fn bounds(chunks: &[Chunk]) -> Vec<(usize, usize)> {
    chunks.iter().map(|chunk| (chunk.start, chunk.end)).collect()
}

#[test]
fn chunk_size_rounds_the_quotient_up() {
    assert_eq!(chunk_size(10, 4), 3);
    assert_eq!(chunk_size(10000, 3), 3334);
    assert_eq!(chunk_size(8, 4), 2);
    assert_eq!(chunk_size(4, 2), 2);
    assert_eq!(chunk_size(1, 16), 1);
    assert_eq!(chunk_size(usize::MAX, 2), usize::MAX / 2 + 1);
    assert_eq!(chunk_size(usize::MAX, usize::MAX), 1);
}

#[test]
fn chunk_size_of_an_empty_population_is_zero() {
    assert_eq!(chunk_size(0, 4), 0);
    assert_eq!(chunk_size(0, 0), 0);
}

#[test]
fn zero_workers_are_served_by_one() {
    assert_eq!(chunk_size(7, 0), 7);
    assert_eq!(bounds(&partition(7, 0)), vec![(0, 7)]);
    assert_eq!(bounds(&partition(7, 1)), vec![(0, 7)]);
}

#[test]
fn partition_of_ten_over_four_leaves_a_short_last_chunk() {
    assert_eq!(bounds(&partition(10, 4)), vec![(0, 3), (3, 6), (6, 9), (9, 10)]);
}

#[test]
fn partition_of_four_over_two_is_even() {
    assert_eq!(bounds(&partition(4, 2)), vec![(0, 2), (2, 4)]);
}

#[test]
fn partition_may_need_fewer_chunks_than_workers() {
    assert_eq!(bounds(&partition(4, 3)), vec![(0, 2), (2, 4)]);
    assert_eq!(bounds(&partition(3, 8)), vec![(0, 1), (1, 2), (2, 3)]);
}

#[test]
fn partition_of_an_empty_population_has_no_chunk() {
    assert!(partition(0, 4).is_empty());
    assert!(partition(0, 0).is_empty());
}

#[test]
fn every_particle_lies_in_exactly_one_chunk() {
    for particles in 0..40usize {
        for workers in 0..12usize {
            let chunks = partition(particles, workers);
            for index in 0..particles {
                let holders = chunks.iter().filter(|chunk| chunk.contains(index)).count();
                assert_eq!(holders, 1, "{} over {}: particle {}", particles, workers, index);
            }
            let total: usize = chunks.iter().map(|chunk| chunk.len()).sum();
            assert_eq!(total, particles);
            assert!(chunks.len() <= workers.max(1));
        }
    }
}

#[test]
fn chunks_follow_one_another_without_gaps() {
    for particles in 1..40usize {
        for workers in 0..12usize {
            let chunks = partition(particles, workers);
            let size = chunk_size(particles, workers);
            assert_eq!(chunks[0].start, 0);
            assert_eq!(chunks[chunks.len() - 1].end, particles);
            for k in 0..chunks.len() {
                assert!(chunks[k].start < chunks[k].end);
                if k + 1 < chunks.len() {
                    assert_eq!(chunks[k].end, chunks[k + 1].start);
                    assert_eq!(chunks[k].len(), size);
                } else {
                    assert!(chunks[k].len() <= size);
                }
            }
        }
    }
}

#[test]
fn sizes_differ_by_at_most_one_when_the_last_chunk_is_one_short() {
    let lens: Vec<usize> = partition(8, 4).iter().map(|chunk| chunk.len()).collect();
    assert_eq!(lens, vec![2, 2, 2, 2]);
    let lens: Vec<usize> = partition(11, 4).iter().map(|chunk| chunk.len()).collect();
    assert_eq!(lens, vec![3, 3, 3, 2]);
}

#[test]
fn sizes_differ_by_more_when_the_last_chunk_is_shorter() {
    let lens: Vec<usize> = partition(10, 4).iter().map(|chunk| chunk.len()).collect();
    assert_eq!(lens, vec![3, 3, 3, 1]);
}

#[test]
fn chunk_len_and_contains() {
    let chunk = Chunk { start: 3, end: 6 };
    assert_eq!(chunk.len(), 3);
    assert!(!chunk.contains(2));
    assert!(chunk.contains(3));
    assert!(chunk.contains(5));
    assert!(!chunk.contains(6));
    let backwards = Chunk { start: 6, end: 3 };
    assert_eq!(backwards.len(), 0);
    assert!(!backwards.contains(4));
}

#[test]
fn host_partition_covers_the_population() {
    let chunks = host_partition(1000);
    assert!(!chunks.is_empty());
    assert_eq!(chunks[0].start, 0);
    assert_eq!(chunks[chunks.len() - 1].end, 1000);
    for k in 0..chunks.len() - 1 {
        assert_eq!(chunks[k].end, chunks[k + 1].start);
    }
    assert!(host_partition(0).is_empty());
}
