//! Tests of distance attenuation, spatial gain and panning.

use rg3d::context::{distance_gain_for, DistanceModel};
use rg3d::listener::{Listener, Vec3};
use rg3d::math::SCALE;
use rg3d::renderer::render_source_default;
use rg3d::source::{GenericSource, SoundSource, SpatialSource};

fn origin_listener() -> Listener {
    Listener::new(Vec3::new(0, 0, 0), Vec3::new(SCALE, 0, 0))
}

fn mono_frame(samples: &[i64]) -> Vec<(i64, i64)> {
    samples.iter().map(|&s| (s, s)).collect()
}

fn spatial_at(x: i64, y: i64, z: i64) -> SpatialSource {
    let generic = GenericSource::new(SCALE, 0, 1, mono_frame(&[SCALE]));
    SpatialSource::new(generic, Vec3::new(x, y, z), SCALE, 8 * SCALE, SCALE)
}

#[test]
fn distance_is_euclidean() {
    // A 3-4-5 triangle: distance 5.0 in Q16.
    let src = spatial_at(3 * SCALE, 4 * SCALE, 0);
    assert_eq!(src.distance_to(&origin_listener()), 5 * SCALE);
}

#[test]
fn inverse_model_exact_values() {
    // radius 1.0, rolloff 1.0: gain(2.0) = 1/(1 + 1) = 0.5.
    let g2 = distance_gain_for(DistanceModel::InverseDistance, 2 * SCALE, SCALE, 8 * SCALE, SCALE);
    assert_eq!(g2, SCALE / 2);
    // gain(3.0) = 1/3, truncated.
    let g3 = distance_gain_for(DistanceModel::InverseDistance, 3 * SCALE, SCALE, 8 * SCALE, SCALE);
    assert_eq!(g3, SCALE / 3);
    // Inside the radius there is no attenuation.
    let g0 = distance_gain_for(DistanceModel::InverseDistance, SCALE / 2, SCALE, 8 * SCALE, SCALE);
    assert_eq!(g0, SCALE);
    // Monotone non-increasing in distance.
    assert!(g3 < g2);
}

#[test]
fn exponent_model_exact_values() {
    // radius 1.0, rolloff 2.0 (integer exponent 2): gain(2.0) = (1/2)^2.
    let g = distance_gain_for(
        DistanceModel::ExponentDistance,
        2 * SCALE,
        SCALE,
        8 * SCALE,
        2 * SCALE,
    );
    assert_eq!(g, SCALE / 4);
    let g4 = distance_gain_for(
        DistanceModel::ExponentDistance,
        4 * SCALE,
        SCALE,
        8 * SCALE,
        2 * SCALE,
    );
    assert_eq!(g4, SCALE / 16);
    assert!(g4 < g);
}

#[test]
fn linear_model_exact_values() {
    // radius 1.0, maximum 2.0, rolloff 1.0: gain(1.5) = 1 - 0.5 = 0.5.
    let g = distance_gain_for(
        DistanceModel::LinearDistance,
        SCALE + SCALE / 2,
        SCALE,
        2 * SCALE,
        SCALE,
    );
    assert_eq!(g, SCALE / 2);
    // At and past the maximum distance the gain sits at the floor.
    let gmax = distance_gain_for(DistanceModel::LinearDistance, 2 * SCALE, SCALE, 2 * SCALE, SCALE);
    assert_eq!(gmax, 0);
    let gpast = distance_gain_for(DistanceModel::LinearDistance, 3 * SCALE, SCALE, 2 * SCALE, SCALE);
    assert_eq!(gpast, 0);
}

#[test]
fn panning_follows_ear_axis() {
    let listener = origin_listener();
    // Straight toward the right ear: full right.
    assert_eq!(spatial_at(4 * SCALE, 0, 0).get_panning(&listener), SCALE);
    // Straight away from it: full left.
    assert_eq!(spatial_at(-4 * SCALE, 0, 0).get_panning(&listener), -SCALE);
    // Perpendicular: centered.
    assert_eq!(spatial_at(0, 4 * SCALE, 0).get_panning(&listener), 0);
    // On the listener: centered by convention.
    assert_eq!(spatial_at(0, 0, 0).get_panning(&listener), 0);
}

#[test]
fn spatial_source_attenuates_and_pans() {
    // A mono source 2.0 to the right under the inverse model: distance gain
    // 0.5, full right panning, so left = 0.5 * (1 + 1) = 1.0, right = 0.
    let mut src = SoundSource::Spatial(spatial_at(2 * SCALE, 0, 0));
    let mut mix = vec![(0i64, 0i64)];
    render_source_default(
        &mut src,
        &origin_listener(),
        DistanceModel::InverseDistance,
        &mut mix,
    );
    assert_eq!(mix[0], (SCALE, 0));
}

#[test]
fn get_distance_gain_uses_model() {
    let listener = origin_listener();
    let src = spatial_at(2 * SCALE, 0, 0);
    assert_eq!(src.get_distance_gain(&listener, DistanceModel::InverseDistance), SCALE / 2);
    assert_eq!(
        src.get_distance_gain(&listener, DistanceModel::ExponentDistance),
        SCALE / 2
    );
}
