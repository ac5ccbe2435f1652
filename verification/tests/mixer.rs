//! Tests of the click-free mixer and the default render path.

use rg3d::math::SCALE;
use rg3d::renderer::{render_source_default, render_with_params};
use rg3d::context::DistanceModel;
use rg3d::listener::{Listener, Vec3};
use rg3d::source::{GenericSource, SoundSource};

fn zero_buffer(n: usize) -> Vec<(i64, i64)> {
    let mut v = Vec::new();
    for _ in 0..n {
        v.push((0i64, 0i64));
    }
    v
}

fn origin_listener() -> Listener {
    Listener::new(Vec3::new(0, 0, 0), Vec3::new(SCALE, 0, 0))
}

fn mono_frame(samples: &[i64]) -> Vec<(i64, i64)> {
    samples.iter().map(|&s| (s, s)).collect()
}

#[test]
fn interpolation_ramp_concrete_scenario() {
    // Buffer length 4, previous gain 0, target gain 1.0, unit input samples:
    // the ramp parameter runs 0, 1/4, 1/2, 3/4, so the output left channel
    // is 0, 0.25, 0.5, 0.75 in Q16.
    let mut source = GenericSource::new(SCALE, 0, 2, mono_frame(&[SCALE, SCALE, SCALE, SCALE]));
    source.last_left_gain = Some(0);
    source.last_right_gain = Some(0);
    let mut mix = zero_buffer(4);
    render_with_params(&mut source, SCALE, SCALE, &mut mix);
    let left: Vec<i64> = mix.iter().map(|c| c.0).collect();
    assert_eq!(left, vec![0, 16384, 32768, 49152]);
}

#[test]
fn first_sample_uses_previous_gain() {
    // The first output sample is rendered with the previous tick's gain
    // exactly (ramp parameter 0).
    let mut source = GenericSource::new(SCALE, 0, 2, mono_frame(&[SCALE, SCALE, SCALE, SCALE]));
    source.last_left_gain = Some(SCALE);
    source.last_right_gain = Some(SCALE);
    let mut mix = zero_buffer(4);
    render_with_params(&mut source, 0, 0, &mut mix);
    assert_eq!(mix[0].0, SCALE);
    assert_eq!(mix[3].0, SCALE / 4);
    // After the call the stored last gain is what the caller hands next tick;
    // the default path stores the new target (see last_gains_store_targets).
}

#[test]
fn first_tick_is_flat() {
    // A source with no previous gain renders its whole first tick with the
    // flat target gain: the lazily initialized last gain equals the target.
    let half = SCALE / 2;
    let mut source = GenericSource::new(half, 0, 2, mono_frame(&[SCALE, SCALE, SCALE]));
    let mut mix = zero_buffer(3);
    render_source_default(
        &mut SoundSource::Generic(source),
        &origin_listener(),
        DistanceModel::InverseDistance,
        &mut mix,
    );
    assert_eq!(mix, vec![(half, half), (half, half), (half, half)]);
    // Rebuild to inspect the stored gains.
    source = GenericSource::new(half, 0, 2, mono_frame(&[SCALE]));
    let mut one = zero_buffer(1);
    let mut wrapped = SoundSource::Generic(source);
    render_source_default(
        &mut wrapped,
        &origin_listener(),
        DistanceModel::InverseDistance,
        &mut one,
    );
    match wrapped {
        SoundSource::Generic(g) => {
            assert_eq!(g.last_left_gain, Some(half));
            assert_eq!(g.last_right_gain, Some(half));
        },
        _ => unreachable!(),
    }
}

#[test]
fn steady_state_equals_flat_mixing() {
    // With the previous gain equal to the target, interpolation is identity.
    let half = SCALE / 2;
    let mut source = GenericSource::new(half, 0, 2, mono_frame(&[SCALE, SCALE, SCALE, SCALE]));
    source.last_left_gain = Some(half);
    source.last_right_gain = Some(half);
    let mut mix = zero_buffer(4);
    render_with_params(&mut source, half, half, &mut mix);
    assert_eq!(mix, vec![(half, half); 4]);
}

#[test]
fn accumulation_is_additive_and_commutative() {
    // Rendering A then B equals rendering B then A, and equals the cellwise
    // sum of rendering each alone into a zeroed buffer.
    let listener = origin_listener();
    let model = DistanceModel::InverseDistance;
    let make_a = || SoundSource::Generic(GenericSource::new(SCALE, 0, 2, mono_frame(&[100, 200, 300])));
    let make_b =
        || SoundSource::Generic(GenericSource::new(SCALE / 2, SCALE, 2, mono_frame(&[4000, -4000, 800])));

    let mut ab = zero_buffer(3);
    render_source_default(&mut make_a(), &listener, model, &mut ab);
    render_source_default(&mut make_b(), &listener, model, &mut ab);

    let mut ba = zero_buffer(3);
    render_source_default(&mut make_b(), &listener, model, &mut ba);
    render_source_default(&mut make_a(), &listener, model, &mut ba);

    let mut only_a = zero_buffer(3);
    render_source_default(&mut make_a(), &listener, model, &mut only_a);
    let mut only_b = zero_buffer(3);
    render_source_default(&mut make_b(), &listener, model, &mut only_b);

    assert_eq!(ab, ba);
    for i in 0..3 {
        assert_eq!(ab[i].0, only_a[i].0 + only_b[i].0);
        assert_eq!(ab[i].1, only_a[i].1 + only_b[i].1);
    }
}

#[test]
fn panning_splits_channels() {
    // left = gain * (1 + panning), right = gain * (1 - panning).
    let mut src = SoundSource::Generic(GenericSource::new(SCALE, SCALE / 2, 2, mono_frame(&[SCALE])));
    let mut mix = zero_buffer(1);
    render_source_default(
        &mut src,
        &origin_listener(),
        DistanceModel::InverseDistance,
        &mut mix,
    );
    assert_eq!(mix[0].0, SCALE + SCALE / 2);
    assert_eq!(mix[0].1, SCALE / 2);
}

#[test]
fn last_gains_store_targets() {
    let mut src = SoundSource::Generic(GenericSource::new(SCALE, SCALE / 2, 2, mono_frame(&[SCALE])));
    let mut mix = zero_buffer(1);
    render_source_default(
        &mut src,
        &origin_listener(),
        DistanceModel::InverseDistance,
        &mut mix,
    );
    match src {
        SoundSource::Generic(g) => {
            assert_eq!(g.last_left_gain, Some(SCALE + SCALE / 2));
            assert_eq!(g.last_right_gain, Some(SCALE / 2));
        },
        _ => unreachable!(),
    }
}

#[test]
fn empty_buffer_and_short_frames() {
    // An empty mix buffer is untouched; a frame shorter than the buffer
    // leaves the tail cells unchanged.
    let mut src = GenericSource::new(SCALE, 0, 2, mono_frame(&[SCALE]));
    let mut empty = zero_buffer(0);
    render_with_params(&mut src, SCALE, SCALE, &mut empty);
    assert!(empty.is_empty());

    let mut src2 = GenericSource::new(SCALE, 0, 2, mono_frame(&[SCALE]));
    let mut mix = zero_buffer(3);
    render_with_params(&mut src2, SCALE, SCALE, &mut mix);
    assert_eq!(mix[0], (SCALE, SCALE));
    assert_eq!(mix[1], (0, 0));
    assert_eq!(mix[2], (0, 0));
}
