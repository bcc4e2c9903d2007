use reactor::types::transform::{TransformBuilder, Weighted};
use reactor::types::{AffineTransformation, Applicable, Number, Particle, Point, System};
use reactor::variations::{DeJong, Linear, Variation};

fn number(value: f32) -> Number {
    Number::from_bits(value.to_bits())
}

struct Swap;

impl Applicable for Swap {
    fn apply(&self, point: &Point) -> Point {
        Point::new(point.y, point.x)
    }
}

#[test]
fn numbers_keep_their_bits() {
    assert_eq!(Number::from_bits(0xDEAD_BEEF).to_bits(), 0xDEAD_BEEF);
    assert_eq!(Number::zero().to_bits(), 0.0f32.to_bits());
    assert_eq!(Number::one().to_bits(), 1.0f32.to_bits());
    assert_eq!(f32::from_bits(number(0.75).to_bits()), 0.75);
}

#[test]
fn linear_returns_the_point_unchanged() {
    let values = [0.0f32, -0.0, 1.0, -7.25, 1.0e30, f32::INFINITY, f32::NAN];
    for &x in &values {
        for &y in &values {
            let point = Point::new(number(x), number(y));
            assert_eq!(Linear.apply(&point), point);
        }
    }
}

#[test]
fn a_new_particle_has_color_zero_and_the_systems_lifetime() {
    let system = System { ttl: 30 };
    let seed = Point::new(number(0.25), number(-0.5));
    let particle = system.make_particle(seed);
    assert_eq!(particle.point, seed);
    assert_eq!(f32::from_bits(particle.color.to_bits()), 0.0);
    assert_eq!(particle.color, Number::zero());
    assert_eq!(particle.ttl, 30);
}

#[test]
fn a_population_has_one_particle_at_each_seed() {
    let system = System { ttl: 12 };
    let seeds: Vec<Point> =
        (0..5).map(|i| Point::new(number(i as f32), number(-(i as f32)))).collect();
    let particles = system.make_particles(&seeds);
    assert_eq!(particles.len(), 5);
    for (particle, seed) in particles.iter().zip(&seeds) {
        assert_eq!(*particle, system.make_particle(*seed));
    }
    assert_eq!(particles[3].point, Point::new(number(3.0), number(-3.0)));
    assert!(system.make_particles(&[]).is_empty());
}

#[test]
fn animating_moves_the_point_and_sets_the_color() {
    let system = System { ttl: 30 };
    let mut particle = system.make_particle(Point::new(number(1.0), number(2.0)));
    system.animate_particle_mut(&mut particle, &Swap, number(0.5));
    assert_eq!(particle.point, Point::new(number(2.0), number(1.0)));
    assert_eq!(particle.color, number(0.5));
    assert_eq!(particle.ttl, 30);
    system.animate_particle_mut(&mut particle, &Linear, number(0.75));
    assert_eq!(particle.point, Point::new(number(2.0), number(1.0)));
    assert_eq!(particle.color, number(0.75));
    assert_eq!(particle.ttl, 30);
}

#[test]
fn the_lifetime_is_not_counted_down() {
    let system = System { ttl: 2 };
    let mut particle = system.make_particle(Point::new(number(1.0), number(2.0)));
    for _ in 0..10 {
        system.animate_particle_mut(&mut particle, &Linear, number(0.5));
    }
    assert_eq!(particle.ttl, 2);
    assert_eq!(particle.point, Point::new(number(1.0), number(2.0)));
}

#[test]
fn projecting_leaves_the_particle_alone() {
    let particle = Particle { point: Point::new(number(1.0), number(2.0)), color: number(0.5), ttl: 9 };
    let image = particle.projected(&Swap);
    assert_eq!(image.point, Point::new(number(2.0), number(1.0)));
    assert_eq!(image.color, number(0.5));
    assert_eq!(image.ttl, 9);
    assert_eq!(particle.point, Point::new(number(1.0), number(2.0)));
    assert_eq!(particle.projected(&Linear), particle);
}

#[test]
fn a_new_builder_is_empty() {
    let transform = TransformBuilder::new().finalize();
    assert!(transform.variations().is_empty());
    assert_eq!(transform.color(), Number::zero());
    assert!(transform.pre().is_identity());
    assert!(transform.post().is_identity());
}

#[test]
fn the_builder_keeps_variations_in_call_order() {
    let de_jong = DeJong(number(-1.86), number(1.1), number(-1.08), number(-1.42));
    let transform = TransformBuilder::new()
        .add_variation(Variation::DeJong(de_jong))
        .add_weighted_variation(Variation::Linear(Linear), number(0.25))
        .add_variation(Variation::Linear(Linear))
        .color(number(1.0))
        .finalize();
    assert_eq!(
        transform.variations(),
        &vec![
            Weighted { variation: Variation::DeJong(de_jong), weight: number(1.0) },
            Weighted { variation: Variation::Linear(Linear), weight: number(0.25) },
            Weighted { variation: Variation::Linear(Linear), weight: number(1.0) },
        ]
    );
    assert_eq!(transform.color(), number(1.0));
}

#[test]
fn the_builder_keeps_the_last_color() {
    let transform = TransformBuilder::new().color(number(0.25)).color(number(0.5)).finalize();
    assert_eq!(transform.color(), number(0.5));
}

#[test]
fn the_builder_keeps_the_affine_maps() {
    let shift = AffineTransformation { c: number(2.0), f: number(-1.0), ..AffineTransformation::identity() };
    let scale = AffineTransformation { a: number(0.5), e: number(0.5), ..AffineTransformation::identity() };
    let transform = TransformBuilder::new()
        .pre(shift)
        .post(scale)
        .add_variation(Variation::Linear(Linear))
        .finalize();
    assert_eq!(transform.pre(), shift);
    assert_eq!(transform.post(), scale);
    assert!(!transform.pre().is_identity());
    assert_eq!(transform.variations().len(), 1);
}

#[test]
fn the_identity_map_has_ones_on_the_diagonal() {
    let identity = AffineTransformation::identity();
    assert!(identity.is_identity());
    assert_eq!(f32::from_bits(identity.a.to_bits()), 1.0);
    assert_eq!(f32::from_bits(identity.b.to_bits()), 0.0);
    assert_eq!(f32::from_bits(identity.c.to_bits()), 0.0);
    assert_eq!(f32::from_bits(identity.d.to_bits()), 0.0);
    assert_eq!(f32::from_bits(identity.e.to_bits()), 1.0);
    assert_eq!(f32::from_bits(identity.f.to_bits()), 0.0);
    let almost = AffineTransformation { b: number(-0.0), ..identity };
    assert!(!almost.is_identity());
}
