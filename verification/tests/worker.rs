use reactor::partition::{partition, Chunk};
use reactor::worker::Worker;

fn run(chunk: Chunk, iterations: usize) -> Vec<usize> {
    let mut worker = Worker::new(chunk, iterations);
    let mut emitted = Vec::new();
    while let Some(particle) = worker.next() {
        emitted.push(particle);
    }
    assert_eq!(worker.next(), None);
    emitted
}

#[test]
fn a_worker_emits_its_whole_chunk_once_per_iteration() {
    let emitted = run(Chunk { start: 3, end: 6 }, 3);
    assert_eq!(emitted, vec![3, 4, 5, 3, 4, 5, 3, 4, 5]);
}

#[test]
fn a_worker_on_one_particle_emits_it_every_iteration() {
    assert_eq!(run(Chunk { start: 9, end: 10 }, 4), vec![9, 9, 9, 9]);
}

#[test]
fn a_worker_without_iterations_emits_nothing() {
    assert_eq!(run(Chunk { start: 0, end: 5 }, 0), Vec::<usize>::new());
}

#[test]
fn a_worker_on_an_empty_chunk_emits_nothing() {
    assert_eq!(run(Chunk { start: 4, end: 4 }, 10), Vec::<usize>::new());
    assert_eq!(run(Chunk { start: 6, end: 3 }, 10), Vec::<usize>::new());
}

#[test]
fn a_finished_worker_stays_finished() {
    let mut worker = Worker::new(Chunk { start: 0, end: 1 }, 1);
    assert_eq!(worker.next(), Some(0));
    assert_eq!(worker.next(), None);
    assert_eq!(worker.next(), None);
}

#[test]
fn the_workers_of_a_partition_emit_every_particle_every_iteration() {
    for particles in 0..20usize {
        for workers in 0..6usize {
            for iterations in 0..4usize {
                let mut seen = vec![0usize; particles];
                let mut total = 0;
                for chunk in partition(particles, workers) {
                    for particle in run(chunk, iterations) {
                        seen[particle] += 1;
                        total += 1;
                    }
                }
                assert_eq!(total, particles * iterations);
                assert!(seen.iter().all(|&count| count == iterations));
            }
        }
    }
}

#[test]
fn a_worker_at_the_end_of_the_index_range_does_not_overflow() {
    let chunk = Chunk { start: usize::MAX - 2, end: usize::MAX };
    assert_eq!(run(chunk, 2), vec![usize::MAX - 2, usize::MAX - 1, usize::MAX - 2, usize::MAX - 1]);
}
