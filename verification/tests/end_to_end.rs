use reactor::aggregator::{Aggregator, Message};
use reactor::partition::partition;
use reactor::types::transform::TransformBuilder;
use reactor::types::{Number, Particle, Point, System};
use reactor::variations::{Linear, Variation};
use reactor::wire::{decode, Record, RECORD_LEN};
use reactor::worker::Worker;

fn number(value: f32) -> Number {
    Number::from_bits(value.to_bits())
}

fn value(number: Number) -> f32 {
    f32::from_bits(number.to_bits())
}

fn blend(color: Number, toward: Number) -> Number {
    number((value(color) + value(toward)) / 2.0)
}

fn streams(particles: usize, iterations: usize, workers: usize) -> Vec<Vec<Message>> {
    let system = System { ttl: 30 };
    let orbit = TransformBuilder::new()
        .add_variation(Variation::Linear(Linear))
        .color(number(1.0))
        .finalize();
    let export = TransformBuilder::new()
        .add_variation(Variation::Linear(Linear))
        .color(number(1.0))
        .finalize();
    assert_eq!(orbit.variations()[0].variation, Variation::Linear(Linear));
    assert_eq!(export.variations()[0].variation, Variation::Linear(Linear));
    let seed = Point::new(number(1.0), number(1.0));
    let mut population: Vec<Particle> = system.make_particles(&vec![seed; particles]);
    let mut streams = Vec::new();
    for chunk in partition(particles, workers) {
        let mut stream = Vec::new();
        let mut worker = Worker::new(chunk, iterations);
        while let Some(index) = worker.next() {
            let color = blend(population[index].color, orbit.color());
            system.animate_particle_mut(&mut population[index], &Linear, color);
            stream.push(Message::Generated(population[index].projected(&Linear)));
        }
        stream.push(Message::Finished);
        streams.push(stream);
    }
    streams
}

fn aggregate(workers: usize, messages: &[Message]) -> Vec<Record> {
    let mut aggregator = Aggregator::new(workers);
    let mut sink = Vec::new();
    let consumed = aggregator.drain(messages, &mut sink);
    assert_eq!(consumed, messages.len());
    assert!(aggregator.is_done());
    assert_eq!(sink.len() % RECORD_LEN, 0);
    sink.chunks(RECORD_LEN).map(|bytes| decode(bytes).unwrap()).collect()
}

#[test]
fn four_particles_two_iterations_two_workers_under_linear() {
    let streams = streams(4, 2, 2);
    assert_eq!(streams.len(), 2);
    let messages: Vec<Message> = streams.concat();
    let records = aggregate(2, &messages);
    assert_eq!(records.len(), 8);
    for record in &records {
        assert_eq!(value(record.point.x), 1.0);
        assert_eq!(value(record.point.y), 1.0);
    }
    let colors: Vec<f32> = records.iter().map(|record| value(record.color)).collect();
    assert_eq!(colors, vec![0.5, 0.5, 0.75, 0.75, 0.5, 0.5, 0.75, 0.75]);
}

#[test]
fn four_particles_two_iterations_two_workers_taking_turns() {
    let streams = streams(4, 2, 2);
    let mut messages = Vec::new();
    for i in 0..streams[0].len() {
        messages.push(streams[0][i]);
        messages.push(streams[1][i]);
    }
    let records = aggregate(2, &messages);
    assert_eq!(records.len(), 8);
    for record in &records {
        assert_eq!(value(record.point.x), 1.0);
        assert_eq!(value(record.point.y), 1.0);
    }
    let colors: Vec<f32> = records.iter().map(|record| value(record.color)).collect();
    assert_eq!(colors, vec![0.5, 0.5, 0.5, 0.5, 0.75, 0.75, 0.75, 0.75]);
}

#[test]
fn a_connection_yields_one_record_per_particle_and_iteration() {
    for particles in 0..12usize {
        for iterations in 0..4usize {
            for workers in 0..5usize {
                let streams = streams(particles, iterations, workers);
                let messages: Vec<Message> = streams.concat();
                let records = aggregate(streams.len(), &messages);
                assert_eq!(records.len(), particles * iterations);
            }
        }
    }
}
