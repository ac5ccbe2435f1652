//! Tests of the HRTF convolution engine and the renderer strategy switch.

use rg3d::context::DistanceModel;
use rg3d::hrtf::{HrirPair, HrtfRenderer};
use rg3d::listener::{Listener, Vec3};
use rg3d::math::SCALE;
use rg3d::renderer::{render_source_default, Renderer};
use rg3d::source::{GenericSource, SoundSource, SpatialSource};

fn origin_listener() -> Listener {
    Listener::new(Vec3::new(0, 0, 0), Vec3::new(SCALE, 0, 0))
}

fn mono_frame(samples: &[i64]) -> Vec<(i64, i64)> {
    samples.iter().map(|&s| (s, s)).collect()
}

fn zero_buffer(n: usize) -> Vec<(i64, i64)> {
    let mut v = Vec::new();
    for _ in 0..n {
        v.push((0i64, 0i64));
    }
    v
}

/// A dataset whose every sector holds the identity filter of the given
/// length: a unit first tap and zeros after it.
fn identity_dataset(ir_len: usize) -> HrtfRenderer {
    let mut hrirs = Vec::new();
    for _ in 0..8 {
        let mut left = vec![0i64; ir_len];
        let mut right = vec![0i64; ir_len];
        left[0] = SCALE;
        right[0] = SCALE;
        hrirs.push(HrirPair { left, right });
    }
    HrtfRenderer::new(hrirs, ir_len)
}

fn mono_spatial(samples: &[i64]) -> SpatialSource {
    let generic = GenericSource::new(SCALE, 0, 1, mono_frame(samples));
    SpatialSource::new(generic, Vec3::new(0, 0, 0), SCALE, 8 * SCALE, SCALE)
}

#[test]
fn identity_filter_passes_input_through() {
    // Source on the listener (no attenuation), unit gain, identity filter:
    // the binaural output is the mono input on both channels.
    let engine = identity_dataset(1);
    let mut src = mono_spatial(&[1000, -2000, 3000]);
    let mut mix = zero_buffer(3);
    engine.render_source(&mut src, &origin_listener(), DistanceModel::InverseDistance, &mut mix);
    assert_eq!(mix, vec![(1000, 1000), (-2000, -2000), (3000, 3000)]);
}

#[test]
fn first_render_creates_state() {
    let engine = identity_dataset(2);
    let mut src = mono_spatial(&[100, 200, 300]);
    assert!(src.hrtf_state.is_none());
    let mut mix = zero_buffer(3);
    engine.render_source(&mut src, &origin_listener(), DistanceModel::InverseDistance, &mut mix);
    let state = src.hrtf_state.as_ref().expect("state created on first render");
    // The history keeps the tail of the input stream: one sample for a
    // two-tap filter.
    assert_eq!(state.history, vec![300]);
    // The source sits on the listener, so the direction sector is the one
    // of the all-nonnegative octant.
    assert_eq!(state.prev_ir_index, 0);
    // A two-tap identity filter still passes the input through.
    assert_eq!(mix, vec![(100, 100), (200, 200), (300, 300)]);
}

#[test]
fn history_carries_across_ticks() {
    // A pure one-step delay filter: tap 0 is zero, tap 1 is unit. The first
    // output sample of the second tick is the last input of the first one.
    let mut hrirs = Vec::new();
    for _ in 0..8 {
        hrirs.push(HrirPair { left: vec![0, SCALE], right: vec![0, SCALE] });
    }
    let engine = HrtfRenderer::new(hrirs, 2);
    let mut src = mono_spatial(&[10, 20]);
    let mut mix = zero_buffer(2);
    engine.render_source(&mut src, &origin_listener(), DistanceModel::InverseDistance, &mut mix);
    // Delayed by one: history starts zeroed.
    assert_eq!(mix, vec![(0, 0), (10, 10)]);
    // Next tick with fresh samples: the delay line continues across ticks.
    src.generic.frame_samples = mono_frame(&[30, 40]);
    let mut mix2 = zero_buffer(2);
    engine.render_source(&mut src, &origin_listener(), DistanceModel::InverseDistance, &mut mix2);
    assert_eq!(mix2, vec![(20, 20), (30, 30)]);
}

#[test]
fn hrtf_attenuates_by_distance() {
    // Source 2.0 to the right, inverse model: distance gain 0.5 scales the
    // convolved output.
    let engine = identity_dataset(1);
    let generic = GenericSource::new(SCALE, 0, 1, mono_frame(&[1000]));
    let mut src = SpatialSource::new(generic, Vec3::new(2 * SCALE, 0, 0), SCALE, 8 * SCALE, SCALE);
    let mut mix = zero_buffer(1);
    engine.render_source(&mut src, &origin_listener(), DistanceModel::InverseDistance, &mut mix);
    assert_eq!(mix, vec![(500, 500)]);
}

#[test]
fn stereo_source_falls_back_to_default_path() {
    // With HRTF active, a stereo source is still rendered through the
    // default panning path: non-silent, and identical to what the default
    // renderer produces.
    let listener = origin_listener();
    let model = DistanceModel::InverseDistance;
    let make_stereo = || {
        let generic = GenericSource::new(SCALE, 0, 2, mono_frame(&[1000, 2000]));
        SoundSource::Spatial(SpatialSource::new(
            generic,
            Vec3::new(0, 0, 0),
            SCALE,
            8 * SCALE,
            SCALE,
        ))
    };
    let hrtf = Renderer::HrtfRenderer(identity_dataset(1));
    let mut through_hrtf = make_stereo();
    let mut mix_hrtf = zero_buffer(2);
    hrtf.render_source(&mut through_hrtf, &listener, model, &mut mix_hrtf);

    let mut through_default = make_stereo();
    let mut mix_default = zero_buffer(2);
    render_source_default(&mut through_default, &listener, model, &mut mix_default);

    assert_eq!(mix_hrtf, mix_default);
    assert!(mix_hrtf[0].0 != 0 && mix_hrtf[0].1 != 0);
    // The fallback went through the mixer: last gains were stored, and no
    // convolution state was created.
    match through_hrtf {
        SoundSource::Spatial(s) => {
            assert_eq!(s.generic.last_left_gain, Some(SCALE));
            assert!(s.hrtf_state.is_none());
        },
        _ => unreachable!(),
    }
}

#[test]
fn default_renderer_never_convolves() {
    // Under the default strategy even a mono spatial source takes the
    // panning path: no convolution state appears.
    let renderer = Renderer::Default;
    let mut src = SoundSource::Spatial(mono_spatial(&[1000]));
    let mut mix = zero_buffer(1);
    renderer.render_source(&mut src, &origin_listener(), DistanceModel::InverseDistance, &mut mix);
    match src {
        SoundSource::Spatial(s) => assert!(s.hrtf_state.is_none()),
        _ => unreachable!(),
    }
    assert_eq!(mix, vec![(1000, 1000)]);
}

#[test]
fn render_pass_accumulates_all_sources() {
    // One pass over a mono source (convolved) and a generic source (mixed)
    // adds both into the same buffer.
    let renderer = Renderer::HrtfRenderer(identity_dataset(1));
    let mut sources = vec![
        SoundSource::Spatial(mono_spatial(&[100, 100])),
        SoundSource::Generic(GenericSource::new(SCALE, 0, 2, mono_frame(&[7, 7]))),
    ];
    let mut mix = zero_buffer(2);
    renderer.render(&mut sources, &origin_listener(), DistanceModel::InverseDistance, &mut mix);
    assert_eq!(mix, vec![(107, 107), (107, 107)]);
}

#[test]
fn renderer_switch_resets_state() {
    // Switching away from HRTF discards the per-source convolution slot.
    let engine = identity_dataset(2);
    let mut src = mono_spatial(&[1, 2, 3]);
    let mut mix = zero_buffer(3);
    engine.render_source(&mut src, &origin_listener(), DistanceModel::InverseDistance, &mut mix);
    assert!(src.hrtf_state.is_some());
    src.reset_hrtf_state();
    assert!(src.hrtf_state.is_none());
}
