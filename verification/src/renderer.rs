//! The rendering pipeline: target-gain computation, the click-free mixer
//! that accumulates one source into the shared mix buffer under a linear
//! gain ramp, and the mixing laws (superposition, first-tick flatness,
//! interpolation boundary, steady-state identity).

use vstd::prelude::*;
use crate::context::DistanceModel;
use crate::hrtf::HrtfRenderer;
use crate::listener::Listener;
use crate::math::{
    div_trunc, div_trunc_i64, lemma_div_trunc_bound, lemma_div_trunc_cancel, CONTRIB_LIMIT,
    GAIN_BOUND, GAIN_LIMIT, MAX_TICK_LEN, MIX_LIMIT, SAMPLE_LIMIT, SCALE,
};
use crate::source::{GenericSource, SoundSource, SpatialSource};

verus! {

/// Left target gain from a source gain and a panning value:
/// `gain * (1 + panning)` in Q16.
pub open spec fn left_gain_of(gain: int, panning: int) -> int {
    div_trunc(gain * (SCALE as int + panning), SCALE as int)
}

/// Right target gain from a source gain and a panning value:
/// `gain * (1 - panning)` in Q16.
pub open spec fn right_gain_of(gain: int, panning: int) -> int {
    div_trunc(gain * (SCALE as int - panning), SCALE as int)
}

/// The gain the interpolation starts from: the previous tick's gain, or the
/// new target itself on a source's first render call.
pub open spec fn effective_last(last: Option<i64>, target: int) -> int {
    match last {
        Some(g) => g as int,
        None => target,
    }
}

/// Numerator of the linearly interpolated gain at sample `i` of a tick of
/// length `n`: the interpolated gain is this divided by `n` (the ramp
/// parameter is `t = i / n`).
pub open spec fn gain_ramp_num(last: int, target: int, i: int, n: int) -> int {
    last * (n - i) + target * i
}

/// What one rendered sample adds to a mix cell: the interpolated gain times
/// the raw sample, renormalized by the ramp divisor `n` and the Q16 scale.
pub open spec fn sample_increment(last: int, target: int, raw: int, i: int, n: int) -> int {
    div_trunc(gain_ramp_num(last, target, i, n) * raw, n * (SCALE as int))
}

/// How many samples a tick actually mixes: the shorter of the mix buffer and
/// the source's frame.
pub open spec fn mixed_len(src: GenericSource, n: int) -> int {
    if src.frame_samples@.len() < n {
        src.frame_samples@.len() as int
    } else {
        n
    }
}

/// Left-channel contribution of a generic source at sample `i`, given its
/// target left gain.
pub open spec fn contrib_left(src: GenericSource, target: int, i: int, n: int) -> int {
    sample_increment(
        effective_last(src.last_left_gain, target),
        target,
        src.frame_samples@[i].0 as int,
        i,
        n,
    )
}

/// Right-channel contribution of a generic source at sample `i`, given its
/// target right gain.
pub open spec fn contrib_right(src: GenericSource, target: int, i: int, n: int) -> int {
    sample_increment(
        effective_last(src.last_right_gain, target),
        target,
        src.frame_samples@[i].1 as int,
        i,
        n,
    )
}

/// All cells of a mix buffer lie within `limit` in magnitude.
pub open spec fn mix_bounded(mix: Seq<(i64, i64)>, limit: int) -> bool {
    forall|i: int|
        0 <= i < mix.len() ==> -limit <= (#[trigger] mix[i]).0 <= limit && -limit <= mix[i].1
            <= limit
}

/// A machine-word buffer read as a sequence of mathematical integer pairs.
pub open spec fn as_ints(mix: Seq<(i64, i64)>) -> Seq<(int, int)> {
    Seq::new(mix.len(), |i: int| (mix[i].0 as int, mix[i].1 as int))
}

/// The buffer after the click-free mixer accumulates `src` into `mix` with
/// target gains `target_left`/`target_right`: each mixed cell grows by the
/// source's ramped contribution, and cells past the source's frame are
/// untouched.
pub open spec fn mixed_with(
    mix: Seq<(int, int)>,
    src: GenericSource,
    target_left: int,
    target_right: int,
) -> Seq<(int, int)> {
    Seq::new(
        mix.len(),
        |i: int|
            if i < mixed_len(src, mix.len() as int) {
                (
                    mix[i].0 + contrib_left(src, target_left, i, mix.len() as int),
                    mix[i].1 + contrib_right(src, target_right, i, mix.len() as int),
                )
            } else {
                mix[i]
            },
    )
}

/// One sample's increment never exceeds `CONTRIB_LIMIT` in magnitude.
pub proof fn lemma_sample_increment_bound(last: int, target: int, raw: int, i: int, n: int)
    requires
        -GAIN_BOUND <= last <= GAIN_BOUND,
        -GAIN_BOUND <= target <= GAIN_BOUND,
        -SAMPLE_LIMIT <= raw <= SAMPLE_LIMIT,
        0 <= i < n,
        n <= MAX_TICK_LEN,
    ensures
        -536870912 <= sample_increment(last, target, raw, i, n) <= 536870912,
        -CONTRIB_LIMIT <= sample_increment(last, target, raw, i, n) <= CONTRIB_LIMIT,
{
    let s = SCALE as int;
    let ramp = gain_ramp_num(last, target, i, n);
    assert(-(n * 33554432) <= ramp <= n * 33554432) by (nonlinear_arith)
        requires
            -33554432 <= last <= 33554432,
            -33554432 <= target <= 33554432,
            0 <= i < n,
            ramp == last * (n - i) + target * i,
    ;
    assert(-(n * 35184372088832) <= ramp * raw <= n * 35184372088832) by (nonlinear_arith)
        requires
            -(n * 33554432) <= ramp <= n * 33554432,
            -1048576 <= raw <= 1048576,
            n >= 1,
    ;
    lemma_div_trunc_bound(ramp * raw, n * s, n * 35184372088832);
    lemma_div_trunc_cancel(n, 35184372088832, s);
    assert(div_trunc(n * 35184372088832, n * s) == div_trunc(35184372088832, s));
    assert((n * 35184372088832) / (n * s) == div_trunc(n * 35184372088832, n * s)) by {
        assert(n * 35184372088832 >= 0) by (nonlinear_arith)
            requires
                n >= 1,
        ;
    }
    assert(div_trunc(35184372088832, s) == 536870912);
}

/// A ramp between equal endpoints is flat: the increment collapses to the
/// plain (non-interpolated) gain application.
pub proof fn lemma_ramp_collapse(g: int, raw: int, i: int, n: int)
    requires
        0 <= i < n,
    ensures
        sample_increment(g, g, raw, i, n) == div_trunc(g * raw, SCALE as int),
{
    let s = SCALE as int;
    assert(gain_ramp_num(g, g, i, n) == g * n) by (nonlinear_arith);
    assert((g * n) * raw == n * (g * raw)) by (nonlinear_arith);
    lemma_div_trunc_cancel(n, g * raw, s);
}

/// First-tick flatness: with no prior last-gain, every sample of the tick is
/// rendered with the flat target gain; the interpolation has no effect.
pub proof fn lemma_first_tick_flat(src: GenericSource, target_left: int, target_right: int, i: int, n: int)
    requires
        src.last_left_gain is None,
        src.last_right_gain is None,
        0 <= i < n,
    ensures
        contrib_left(src, target_left, i, n) == div_trunc(
            target_left * src.frame_samples@[i].0,
            SCALE as int,
        ),
        contrib_right(src, target_right, i, n) == div_trunc(
            target_right * src.frame_samples@[i].1,
            SCALE as int,
        ),
{
    lemma_ramp_collapse(target_left, src.frame_samples@[i].0 as int, i, n);
    lemma_ramp_collapse(target_right, src.frame_samples@[i].1 as int, i, n);
}

/// Steady-state identity: if the target gain is unchanged from the previous
/// tick, interpolation has no effect and the output equals flat-gain mixing.
pub proof fn lemma_steady_state(src: GenericSource, target_left: i64, target_right: i64, i: int, n: int)
    requires
        src.last_left_gain == Some(target_left),
        src.last_right_gain == Some(target_right),
        0 <= i < n,
    ensures
        contrib_left(src, target_left as int, i, n) == div_trunc(
            target_left as int * src.frame_samples@[i].0,
            SCALE as int,
        ),
        contrib_right(src, target_right as int, i, n) == div_trunc(
            target_right as int * src.frame_samples@[i].1,
            SCALE as int,
        ),
{
    lemma_ramp_collapse(target_left as int, src.frame_samples@[i].0 as int, i, n);
    lemma_ramp_collapse(target_right as int, src.frame_samples@[i].1 as int, i, n);
}

/// Interpolation boundary: the first sample of a tick is rendered with the
/// previous tick's gain exactly, and the ramp moves monotonically from the
/// previous gain toward the target (reaching it only at the ramp parameter
/// `i == n`, one past the last sample).
pub proof fn lemma_interpolation_boundary(last: int, target: int, raw: int, n: int)
    requires
        1 <= n,
    ensures
        sample_increment(last, target, raw, 0, n) == div_trunc(last * raw, SCALE as int),
        forall|i: int, j: int|
            0 <= i <= j <= n && last <= target ==> #[trigger] gain_ramp_num(last, target, i, n)
                <= #[trigger] gain_ramp_num(last, target, j, n),
        gain_ramp_num(last, target, n, n) == target * n,
{
    let s = SCALE as int;
    assert(gain_ramp_num(last, target, 0, n) == last * n) by (nonlinear_arith);
    assert((last * n) * raw == n * (last * raw)) by (nonlinear_arith);
    lemma_div_trunc_cancel(n, last * raw, s);
    assert forall|i: int, j: int|
        0 <= i <= j <= n && last <= target implies #[trigger] gain_ramp_num(last, target, i, n)
        <= #[trigger] gain_ramp_num(last, target, j, n) by {
        assert(last * (n - i) + target * i <= last * (n - j) + target * j) by (nonlinear_arith)
            requires
                0 <= i <= j <= n,
                last <= target,
        ;
    }
    assert(gain_ramp_num(last, target, n, n) == target * n) by (nonlinear_arith);
}

/// Accumulate one source's tick into the mix buffer under a linear gain ramp
/// from the previous tick's gains to the given targets. Mirrors the
/// click-free mixer: sample `i` of `n` is scaled by the gain interpolated at
/// `t = i / n`, and the result is added — never written — into the buffer.
/// The source's last-gain fields are lazily initialized to the targets on the
/// first call, so a first tick is rendered flat.
pub fn render_with_params(
    source: &mut GenericSource,
    left_gain: i64,
    right_gain: i64,
    mix_buffer: &mut Vec<(i64, i64)>,
)
    requires
        old(source).well_formed(),
        -GAIN_BOUND <= left_gain <= GAIN_BOUND,
        -GAIN_BOUND <= right_gain <= GAIN_BOUND,
        old(mix_buffer)@.len() <= MAX_TICK_LEN,
        mix_bounded(old(mix_buffer)@, MIX_LIMIT as int),
    ensures
        *final(source) == (GenericSource {
            last_left_gain: Some(effective_last(old(source).last_left_gain, left_gain as int) as i64),
            last_right_gain: Some(
                effective_last(old(source).last_right_gain, right_gain as int) as i64,
            ),
            ..*old(source)
        }),
        final(source).well_formed(),
        final(mix_buffer)@.len() == old(mix_buffer)@.len(),
        as_ints(final(mix_buffer)@) == mixed_with(
            as_ints(old(mix_buffer)@),
            *old(source),
            left_gain as int,
            right_gain as int,
        ),
        mix_bounded(final(mix_buffer)@, MIX_LIMIT as int + CONTRIB_LIMIT as int),
{
    let n: usize = mix_buffer.len();
    let eff_left: i64 = match source.last_left_gain {
        Some(g) => g,
        None => left_gain,
    };
    let eff_right: i64 = match source.last_right_gain {
        Some(g) => g,
        None => right_gain,
    };
    source.last_left_gain = Some(eff_left);
    source.last_right_gain = Some(eff_right);
    let samples_len: usize = source.frame_samples.len();
    let m: usize = if samples_len < n {
        samples_len
    } else {
        n
    };
    let mut i: usize = 0;
    while i < m
        invariant
            0 <= i <= m,
            m <= n <= MAX_TICK_LEN,
            m as int == mixed_len(*old(source), n as int),
            mix_buffer@.len() == n == old(mix_buffer)@.len(),
            *source == (GenericSource {
                last_left_gain: Some(eff_left),
                last_right_gain: Some(eff_right),
                ..*old(source)
            }),
            old(source).well_formed(),
            eff_left as int == effective_last(old(source).last_left_gain, left_gain as int),
            eff_right as int == effective_last(old(source).last_right_gain, right_gain as int),
            -GAIN_BOUND <= eff_left <= GAIN_BOUND,
            -GAIN_BOUND <= eff_right <= GAIN_BOUND,
            -GAIN_BOUND <= left_gain <= GAIN_BOUND,
            -GAIN_BOUND <= right_gain <= GAIN_BOUND,
            forall|j: int|
                0 <= j < i ==> (#[trigger] mix_buffer@[j]).0 == old(mix_buffer)@[j].0
                    + contrib_left(*old(source), left_gain as int, j, n as int)
                    && mix_buffer@[j].1 == old(mix_buffer)@[j].1 + contrib_right(
                    *old(source),
                    right_gain as int,
                    j,
                    n as int,
                ),
            forall|j: int| i <= j < n ==> #[trigger] mix_buffer@[j] == old(mix_buffer)@[j],
            forall|j: int|
                0 <= j < n ==> -MIX_LIMIT <= (#[trigger] old(mix_buffer)@[j]).0 <= MIX_LIMIT
                    && -MIX_LIMIT <= old(mix_buffer)@[j].1 <= MIX_LIMIT,
            forall|j: int|
                0 <= j < n ==> -(MIX_LIMIT + CONTRIB_LIMIT) <= (#[trigger] mix_buffer@[j]).0 <= (
                MIX_LIMIT + CONTRIB_LIMIT) && -(MIX_LIMIT + CONTRIB_LIMIT) <= mix_buffer@[j].1 <= (
                MIX_LIMIT + CONTRIB_LIMIT),
        decreases m - i,
    {
        let (raw_left, raw_right) = source.frame_samples[i];
        proof {
            assert(-2199023255552 <= eff_left as int * ((n - i) as int) <= 2199023255552)
                by (nonlinear_arith)
                requires
                    -33554432 <= eff_left <= 33554432,
                    0 <= (n - i) as int <= 65536,
            ;
            assert(-2199023255552 <= left_gain as int * (i as int) <= 2199023255552)
                by (nonlinear_arith)
                requires
                    -33554432 <= left_gain <= 33554432,
                    0 <= i <= 65536,
            ;
            assert(-2199023255552 <= eff_right as int * ((n - i) as int) <= 2199023255552)
                by (nonlinear_arith)
                requires
                    -33554432 <= eff_right <= 33554432,
                    0 <= (n - i) as int <= 65536,
            ;
            assert(-2199023255552 <= right_gain as int * (i as int) <= 2199023255552)
                by (nonlinear_arith)
                requires
                    -33554432 <= right_gain <= 33554432,
                    0 <= i <= 65536,
            ;
        }
        let ramp_left: i64 = eff_left * ((n - i) as i64) + left_gain * (i as i64);
        let ramp_right: i64 = eff_right * ((n - i) as i64) + right_gain * (i as i64);
        proof {
            assert(-4611686018427387904 <= ramp_left as int * raw_left as int
                <= 4611686018427387904) by (nonlinear_arith)
                requires
                    -4398046511104 <= ramp_left <= 4398046511104,
                    -1048576 <= raw_left <= 1048576,
            ;
            assert(-4611686018427387904 <= ramp_right as int * raw_right as int
                <= 4611686018427387904) by (nonlinear_arith)
                requires
                    -4398046511104 <= ramp_right <= 4398046511104,
                    -1048576 <= raw_right <= 1048576,
            ;
        }
        let num_left: i64 = ramp_left * raw_left;
        let num_right: i64 = ramp_right * raw_right;
        let divisor: i64 = (n as i64) * SCALE;
        let inc_left = div_trunc_i64(num_left, divisor);
        let inc_right = div_trunc_i64(num_right, divisor);
        proof {
            lemma_sample_increment_bound(
                eff_left as int,
                left_gain as int,
                raw_left as int,
                i as int,
                n as int,
            );
            lemma_sample_increment_bound(
                eff_right as int,
                right_gain as int,
                raw_right as int,
                i as int,
                n as int,
            );
            assert(inc_left == sample_increment(
                eff_left as int,
                left_gain as int,
                raw_left as int,
                i as int,
                n as int,
            ));
            assert(inc_right == sample_increment(
                eff_right as int,
                right_gain as int,
                raw_right as int,
                i as int,
                n as int,
            ));
        }
        let cell = mix_buffer[i];
        mix_buffer[i] = (cell.0 + inc_left, cell.1 + inc_right);
        i = i + 1;
    }
    proof {
        assert(as_ints(mix_buffer@) =~= mixed_with(
            as_ints(old(mix_buffer)@),
            *old(source),
            left_gain as int,
            right_gain as int,
        ));
    }
}

/// The contribution a source adds to a cell, extended by zero past its frame.
pub open spec fn contrib_left_total(src: GenericSource, target: int, i: int, n: int) -> int {
    if 0 <= i < mixed_len(src, n) {
        contrib_left(src, target, i, n)
    } else {
        0
    }
}

/// The contribution a source adds to a cell, extended by zero past its frame.
pub open spec fn contrib_right_total(src: GenericSource, target: int, i: int, n: int) -> int {
    if 0 <= i < mixed_len(src, n) {
        contrib_right(src, target, i, n)
    } else {
        0
    }
}

/// The combined gain of a spatial source: its distance gain times the
/// generic payload's own gain, Q16.
pub open spec fn combined_spatial_gain(
    src: SpatialSource,
    listener: Listener,
    model: DistanceModel,
) -> int {
    div_trunc(src.spec_distance_gain(listener, model) * src.generic.gain, SCALE as int)
}

/// The target left gain the default path computes for a source this tick.
pub open spec fn target_left_gain(src: SoundSource, listener: Listener, model: DistanceModel) -> int {
    match src {
        SoundSource::Generic(g) => left_gain_of(g.gain as int, g.panning as int),
        SoundSource::Spatial(s) => left_gain_of(
            combined_spatial_gain(s, listener, model),
            s.spec_panning(listener),
        ),
    }
}

/// The target right gain the default path computes for a source this tick.
pub open spec fn target_right_gain(src: SoundSource, listener: Listener, model: DistanceModel) -> int {
    match src {
        SoundSource::Generic(g) => right_gain_of(g.gain as int, g.panning as int),
        SoundSource::Spatial(s) => right_gain_of(
            combined_spatial_gain(s, listener, model),
            s.spec_panning(listener),
        ),
    }
}

/// The source as the default path leaves it: its last-gain fields hold this
/// tick's targets, everything else untouched.
pub open spec fn after_default_render(
    src: SoundSource,
    listener: Listener,
    model: DistanceModel,
) -> SoundSource {
    let target_left = target_left_gain(src, listener, model);
    let target_right = target_right_gain(src, listener, model);
    match src {
        SoundSource::Generic(g) => SoundSource::Generic(
            GenericSource {
                last_left_gain: Some(target_left as i64),
                last_right_gain: Some(target_right as i64),
                ..g
            },
        ),
        SoundSource::Spatial(s) => SoundSource::Spatial(
            SpatialSource {
                generic: GenericSource {
                    last_left_gain: Some(target_left as i64),
                    last_right_gain: Some(target_right as i64),
                    ..s.generic
                },
                ..s
            },
        ),
    }
}

/// Target gains of bounded sources are bounded by `GAIN_BOUND`.
pub proof fn lemma_channel_gain_bounds(gain: int, panning: int)
    requires
        -GAIN_LIMIT <= gain <= GAIN_LIMIT,
        -SCALE <= panning <= SCALE,
    ensures
        -GAIN_BOUND <= left_gain_of(gain, panning) <= GAIN_BOUND,
        -GAIN_BOUND <= right_gain_of(gain, panning) <= GAIN_BOUND,
{
    let s = SCALE as int;
    assert(-2199023255552 <= gain * (s + panning) <= 2199023255552) by (nonlinear_arith)
        requires
            -16777216 <= gain <= 16777216,
            0 <= s + panning <= 131072,
    ;
    assert(-2199023255552 <= gain * (s - panning) <= 2199023255552) by (nonlinear_arith)
        requires
            -16777216 <= gain <= 16777216,
            0 <= s - panning <= 131072,
    ;
    lemma_div_trunc_bound(gain * (s + panning), s, 2199023255552);
    lemma_div_trunc_bound(gain * (s - panning), s, 2199023255552);
    assert(2199023255552int / 65536int == 33554432);
}

/// The combined gain of a well-formed spatial source stays within the plain
/// source-gain bound, since a distance gain never exceeds unit.
pub proof fn lemma_combined_gain_bound(src: SpatialSource, listener: Listener, model: DistanceModel)
    requires
        src.well_formed(),
        listener.well_formed(),
    ensures
        -GAIN_LIMIT <= combined_spatial_gain(src, listener, model) <= GAIN_LIMIT,
{
    let s = SCALE as int;
    crate::source::lemma_distance_in_range(src, listener);
    crate::context::lemma_attenuation_bounds(
        model,
        src.spec_distance_to(listener),
        src.radius as int,
        src.max_distance as int,
        src.rolloff_factor as int,
    );
    let dg = src.spec_distance_gain(listener, model);
    assert(-1099511627776 <= dg * src.generic.gain <= 1099511627776) by (nonlinear_arith)
        requires
            0 <= dg <= 65536,
            -16777216 <= src.generic.gain <= 16777216,
    ;
    lemma_div_trunc_bound(dg * src.generic.gain, s, 1099511627776);
    assert(1099511627776int / 65536int == 16777216);
}

/// Target gains computed by the default path are bounded by `GAIN_BOUND`.
pub proof fn lemma_target_gain_bounds(src: SoundSource, listener: Listener, model: DistanceModel)
    requires
        src.well_formed(),
        listener.well_formed(),
    ensures
        -GAIN_BOUND <= target_left_gain(src, listener, model) <= GAIN_BOUND,
        -GAIN_BOUND <= target_right_gain(src, listener, model) <= GAIN_BOUND,
{
    match src {
        SoundSource::Generic(g) => {
            lemma_channel_gain_bounds(g.gain as int, g.panning as int);
        },
        SoundSource::Spatial(s) => {
            lemma_combined_gain_bound(s, listener, model);
            lemma_channel_gain_bounds(
                combined_spatial_gain(s, listener, model),
                s.spec_panning(listener),
            );
        },
    }
}

/// Render one source through the default path: compute this tick's target
/// gains (for a spatial source, distance attenuation and directional panning
/// relative to the listener; for a generic source, its own gain and
/// panning), accumulate the source's frame into the mix buffer with the
/// click-free ramp, and store the targets as the source's last gains for the
/// next tick.
pub fn render_source_default(
    source: &mut SoundSource,
    listener: &Listener,
    distance_model: DistanceModel,
    mix_buffer: &mut Vec<(i64, i64)>,
)
    requires
        old(source).well_formed(),
        listener.well_formed(),
        old(mix_buffer)@.len() <= MAX_TICK_LEN,
        mix_bounded(old(mix_buffer)@, MIX_LIMIT as int),
    ensures
        *final(source) == after_default_render(*old(source), *listener, distance_model),
        final(source).well_formed(),
        final(mix_buffer)@.len() == old(mix_buffer)@.len(),
        as_ints(final(mix_buffer)@) == mixed_with(
            as_ints(old(mix_buffer)@),
            old(source).spec_generic(),
            target_left_gain(*old(source), *listener, distance_model),
            target_right_gain(*old(source), *listener, distance_model),
        ),
        mix_bounded(final(mix_buffer)@, MIX_LIMIT as int + CONTRIB_LIMIT as int),
{
    proof {
        lemma_target_gain_bounds(*old(source), *listener, distance_model);
    }
    match source {
        SoundSource::Generic(generic) => {
            let gain = generic.gain();
            let panning = generic.panning();
            proof {
                assert(-2199023255552 <= gain as int * ((SCALE + panning) as int)
                    <= 2199023255552) by (nonlinear_arith)
                    requires
                        -16777216 <= gain <= 16777216,
                        0 <= SCALE + panning <= 131072,
                ;
                assert(-2199023255552 <= gain as int * ((SCALE - panning) as int)
                    <= 2199023255552) by (nonlinear_arith)
                    requires
                        -16777216 <= gain <= 16777216,
                        0 <= SCALE - panning <= 131072,
                ;
            }
            let left_gain = div_trunc_i64(gain * (SCALE + panning), SCALE);
            let right_gain = div_trunc_i64(gain * (SCALE - panning), SCALE);
            render_with_params(generic, left_gain, right_gain, mix_buffer);
            generic.last_left_gain = Some(left_gain);
            generic.last_right_gain = Some(right_gain);
        },
        SoundSource::Spatial(spatial) => {
            let distance_gain = spatial.get_distance_gain(listener, distance_model);
            let panning = spatial.get_panning(listener);
            proof {
                assert(-1099511627776 <= distance_gain as int * spatial.generic.gain as int
                    <= 1099511627776) by (nonlinear_arith)
                    requires
                        0 <= distance_gain <= 65536,
                        -16777216 <= spatial.generic.gain <= 16777216,
                ;
            }
            let gain = div_trunc_i64(distance_gain * spatial.generic.gain, SCALE);
            proof {
                lemma_combined_gain_bound(*spatial, *listener, distance_model);
            }
            proof {
                assert(-2199023255552 <= gain as int * ((SCALE + panning) as int)
                    <= 2199023255552) by (nonlinear_arith)
                    requires
                        -16777216 <= gain <= 16777216,
                        0 <= SCALE + panning <= 131072,
                ;
                assert(-2199023255552 <= gain as int * ((SCALE - panning) as int)
                    <= 2199023255552) by (nonlinear_arith)
                    requires
                        -16777216 <= gain <= 16777216,
                        0 <= SCALE - panning <= 131072,
                ;
            }
            let left_gain = div_trunc_i64(gain * (SCALE + panning), SCALE);
            let right_gain = div_trunc_i64(gain * (SCALE - panning), SCALE);
            render_with_params(&mut spatial.generic, left_gain, right_gain, mix_buffer);
            spatial.generic.last_left_gain = Some(left_gain);
            spatial.generic.last_right_gain = Some(right_gain);
        },
    }
}

/// The per-context renderer strategy: exactly one is active at a time.
pub enum Renderer {
    /// Stateless default renderer: gain/panning calculation and the
    /// click-free mixer.
    Default,
    /// Binaural rendering for mono sources; stereo sources are still
    /// rendered through the default path.
    HrtfRenderer(HrtfRenderer),
}

impl Renderer {
    pub open spec fn well_formed(self) -> bool {
        match self {
            Renderer::Default => true,
            Renderer::HrtfRenderer(h) => h.well_formed(),
        }
    }
}

/// The selector's routing policy: the convolution engine handles a source
/// only when HRTF is active and the source is a single-channel spatial
/// source; everything else — in particular any stereo source — takes the
/// default path. The fallback is policy, not an error.
pub open spec fn uses_hrtf(r: Renderer, src: SoundSource) -> bool {
    match r {
        Renderer::Default => false,
        Renderer::HrtfRenderer(_) => match src {
            SoundSource::Spatial(s) => s.generic.channel_count == 1,
            SoundSource::Generic(_) => false,
        },
    }
}

/// The buffer after the active strategy accumulates one source.
pub open spec fn rendered_with(
    mix: Seq<(int, int)>,
    r: Renderer,
    src: SoundSource,
    listener: Listener,
    model: DistanceModel,
) -> Seq<(int, int)> {
    if uses_hrtf(r, src) {
        crate::hrtf::hrtf_mixed_with(mix, r->HrtfRenderer_0, src->Spatial_0, listener, model)
    } else {
        mixed_with(
            mix,
            src.spec_generic(),
            target_left_gain(src, listener, model),
            target_right_gain(src, listener, model),
        )
    }
}

/// All integer pairs of a buffer lie within `limit` in magnitude.
pub open spec fn ints_bounded(mix: Seq<(int, int)>, limit: int) -> bool {
    forall|i: int|
        0 <= i < mix.len() ==> -limit <= (#[trigger] mix[i]).0 <= limit && -limit <= mix[i].1
            <= limit
}

/// One default-path contribution never exceeds the shared limit.
pub proof fn lemma_default_contrib_bound(
    src: SoundSource,
    listener: Listener,
    model: DistanceModel,
    i: int,
    n: int,
)
    requires
        src.well_formed(),
        listener.well_formed(),
        0 <= i < mixed_len(src.spec_generic(), n),
        n <= MAX_TICK_LEN,
    ensures
        -CONTRIB_LIMIT <= contrib_left(
            src.spec_generic(),
            target_left_gain(src, listener, model),
            i,
            n,
        ) <= CONTRIB_LIMIT,
        -CONTRIB_LIMIT <= contrib_right(
            src.spec_generic(),
            target_right_gain(src, listener, model),
            i,
            n,
        ) <= CONTRIB_LIMIT,
{
    let g = src.spec_generic();
    let tl = target_left_gain(src, listener, model);
    let tr = target_right_gain(src, listener, model);
    lemma_target_gain_bounds(src, listener, model);
    lemma_sample_increment_bound(
        effective_last(g.last_left_gain, tl),
        tl,
        g.frame_samples@[i].0 as int,
        i,
        n,
    );
    lemma_sample_increment_bound(
        effective_last(g.last_right_gain, tr),
        tr,
        g.frame_samples@[i].1 as int,
        i,
        n,
    );
}

/// Rendering one source grows no buffer cell by more than `CONTRIB_LIMIT`.
pub proof fn lemma_rendered_with_growth(
    mix: Seq<(int, int)>,
    r: Renderer,
    src: SoundSource,
    listener: Listener,
    model: DistanceModel,
    limit: int,
)
    requires
        r.well_formed(),
        src.well_formed(),
        listener.well_formed(),
        mix.len() <= MAX_TICK_LEN,
        ints_bounded(mix, limit),
        limit >= 0,
    ensures
        rendered_with(mix, r, src, listener, model).len() == mix.len(),
        ints_bounded(rendered_with(mix, r, src, listener, model), limit + CONTRIB_LIMIT),
{
    let out = rendered_with(mix, r, src, listener, model);
    let n = mix.len() as int;
    assert forall|i: int|
        0 <= i < out.len() implies -(limit + CONTRIB_LIMIT) <= (#[trigger] out[i]).0 <= limit
        + CONTRIB_LIMIT && -(limit + CONTRIB_LIMIT) <= out[i].1 <= limit + CONTRIB_LIMIT by {
        if uses_hrtf(r, src) {
            if i < mixed_len(src.spec_generic(), n) {
                crate::hrtf::lemma_hrtf_contrib_bound(
                    r->HrtfRenderer_0,
                    src->Spatial_0,
                    listener,
                    model,
                    i,
                    n,
                );
            }
        } else {
            if i < mixed_len(src.spec_generic(), n) {
                lemma_default_contrib_bound(src, listener, model, i, n);
            }
        }
    }
}

impl Renderer {
    /// Render one source by the active strategy: route a mono spatial
    /// source through the convolution engine when HRTF is active, and
    /// everything else — including any stereo source under HRTF — through
    /// the gain/panning calculator and the click-free mixer.
    pub fn render_source(
        &self,
        source: &mut SoundSource,
        listener: &Listener,
        distance_model: DistanceModel,
        mix_buffer: &mut Vec<(i64, i64)>,
    )
        requires
            self.well_formed(),
            old(source).well_formed(),
            listener.well_formed(),
            old(mix_buffer)@.len() <= MAX_TICK_LEN,
            mix_bounded(old(mix_buffer)@, MIX_LIMIT as int),
        ensures
            final(source).well_formed(),
            final(mix_buffer)@.len() == old(mix_buffer)@.len(),
            as_ints(final(mix_buffer)@) == rendered_with(
                as_ints(old(mix_buffer)@),
                *self,
                *old(source),
                *listener,
                distance_model,
            ),
            mix_bounded(final(mix_buffer)@, MIX_LIMIT as int + CONTRIB_LIMIT as int),
            !uses_hrtf(*self, *old(source)) ==> *final(source) == after_default_render(
                *old(source),
                *listener,
                distance_model,
            ),
            uses_hrtf(*self, *old(source)) ==> (*final(source)) is Spatial
                && (*final(source))->Spatial_0.generic == (*old(source))->Spatial_0.generic
                && (*final(source))->Spatial_0.hrtf_state is Some,
    {
        let hrtf_route: bool = match self {
            Renderer::Default => false,
            Renderer::HrtfRenderer(_) => match &*source {
                SoundSource::Spatial(s) => s.generic.channel_count == 1,
                SoundSource::Generic(_) => false,
            },
        };
        if hrtf_route {
            match self {
                Renderer::HrtfRenderer(h) => {
                    match source {
                        SoundSource::Spatial(spatial) => {
                            h.render_source(spatial, listener, distance_model, mix_buffer);
                        },
                        SoundSource::Generic(_) => {
                            proof {
                                assert(false);
                            }
                        },
                    }
                },
                Renderer::Default => {
                    proof {
                        assert(false);
                    }
                },
            }
        } else {
            render_source_default(source, listener, distance_model, mix_buffer);
        }
    }
}

/// The left contribution one render pass adds for a source at a cell, under
/// the active strategy, extended by zero past the source's frame.
pub open spec fn tick_contrib_left(
    r: Renderer,
    src: SoundSource,
    listener: Listener,
    model: DistanceModel,
    i: int,
    n: int,
) -> int {
    if uses_hrtf(r, src) {
        if 0 <= i < mixed_len(src.spec_generic(), n) {
            crate::hrtf::hrtf_contrib_left(r->HrtfRenderer_0, src->Spatial_0, listener, model, i, n)
        } else {
            0
        }
    } else {
        contrib_left_total(src.spec_generic(), target_left_gain(src, listener, model), i, n)
    }
}

/// The right contribution one render pass adds for a source at a cell.
pub open spec fn tick_contrib_right(
    r: Renderer,
    src: SoundSource,
    listener: Listener,
    model: DistanceModel,
    i: int,
    n: int,
) -> int {
    if uses_hrtf(r, src) {
        if 0 <= i < mixed_len(src.spec_generic(), n) {
            crate::hrtf::hrtf_contrib_right(r->HrtfRenderer_0, src->Spatial_0, listener, model, i, n)
        } else {
            0
        }
    } else {
        contrib_right_total(src.spec_generic(), target_right_gain(src, listener, model), i, n)
    }
}

/// Superposition under either strategy: a source's contribution does not
/// depend on the buffer contents, so rendering two sources in either order
/// gives the same buffer — the cellwise sum of the starting buffer and each
/// source's own contribution.
pub proof fn lemma_render_superposition(
    mix: Seq<(int, int)>,
    r: Renderer,
    a: SoundSource,
    b: SoundSource,
    listener: Listener,
    model: DistanceModel,
)
    ensures
        rendered_with(rendered_with(mix, r, a, listener, model), r, b, listener, model)
            == rendered_with(rendered_with(mix, r, b, listener, model), r, a, listener, model),
        forall|i: int|
            0 <= i < mix.len() ==> (#[trigger] rendered_with(
                rendered_with(mix, r, a, listener, model),
                r,
                b,
                listener,
                model,
            )[i]) == (
                mix[i].0 + tick_contrib_left(r, a, listener, model, i, mix.len() as int)
                    + tick_contrib_left(r, b, listener, model, i, mix.len() as int),
                mix[i].1 + tick_contrib_right(r, a, listener, model, i, mix.len() as int)
                    + tick_contrib_right(r, b, listener, model, i, mix.len() as int),
            ),
{
    let n = mix.len() as int;
    let ab = rendered_with(rendered_with(mix, r, a, listener, model), r, b, listener, model);
    let ba = rendered_with(rendered_with(mix, r, b, listener, model), r, a, listener, model);
    assert forall|i: int| 0 <= i < n implies #[trigger] ab[i] == (
        mix[i].0 + tick_contrib_left(r, a, listener, model, i, n) + tick_contrib_left(
            r,
            b,
            listener,
            model,
            i,
            n,
        ),
        mix[i].1 + tick_contrib_right(r, a, listener, model, i, n) + tick_contrib_right(
            r,
            b,
            listener,
            model,
            i,
            n,
        ),
    ) by {
    }
    assert forall|i: int| 0 <= i < n implies ab[i] == ba[i] by {
        assert(ba[i] == (
            mix[i].0 + tick_contrib_left(r, b, listener, model, i, n) + tick_contrib_left(
                r,
                a,
                listener,
                model,
                i,
                n,
            ),
            mix[i].1 + tick_contrib_right(r, b, listener, model, i, n) + tick_contrib_right(
                r,
                a,
                listener,
                model,
                i,
                n,
            ),
        ));
    }
    assert(ab =~= ba);
}

/// Largest number of sources one render pass accepts.
pub const MAX_SOURCES: usize = 65536;

/// Largest magnitude a mix cell may hold when a render pass starts, leaving
/// headroom for every source's contribution.
pub const TICK_INPUT_LIMIT: i64 = 576460752303423488;

/// The buffer after the active strategy accumulates every source in order.
pub open spec fn rendered_all(
    mix: Seq<(int, int)>,
    r: Renderer,
    sources: Seq<SoundSource>,
    listener: Listener,
    model: DistanceModel,
) -> Seq<(int, int)>
    decreases sources.len(),
{
    if sources.len() == 0 {
        mix
    } else {
        rendered_with(
            rendered_all(mix, r, sources.drop_last(), listener, model),
            r,
            sources.last(),
            listener,
            model,
        )
    }
}

/// Unrolling [`rendered_all`] one source at a time.
pub proof fn lemma_rendered_all_step(
    mix: Seq<(int, int)>,
    r: Renderer,
    sources: Seq<SoundSource>,
    k: int,
    listener: Listener,
    model: DistanceModel,
)
    requires
        0 <= k < sources.len(),
    ensures
        rendered_all(mix, r, sources.take(k + 1), listener, model) == rendered_with(
            rendered_all(mix, r, sources.take(k), listener, model),
            r,
            sources[k],
            listener,
            model,
        ),
{
    assert(sources.take(k + 1).drop_last() =~= sources.take(k));
    assert(sources.take(k + 1).last() == sources[k]);
}

impl Renderer {
    /// One render pass: classify and accumulate every active source into the
    /// shared mix buffer, all sources adding into the same cells. Per-source
    /// interpolation and convolution state is updated in each source's own
    /// slot.
    pub fn render(
        &self,
        sources: &mut Vec<SoundSource>,
        listener: &Listener,
        distance_model: DistanceModel,
        mix_buffer: &mut Vec<(i64, i64)>,
    )
        requires
            self.well_formed(),
            listener.well_formed(),
            forall|k: int|
                0 <= k < old(sources)@.len() ==> (#[trigger] old(sources)@[k]).well_formed(),
            old(sources)@.len() <= MAX_SOURCES,
            old(mix_buffer)@.len() <= MAX_TICK_LEN,
            mix_bounded(old(mix_buffer)@, TICK_INPUT_LIMIT as int),
        ensures
            final(sources)@.len() == old(sources)@.len(),
            forall|k: int|
                0 <= k < old(sources)@.len() ==> (#[trigger] final(sources)@[k]).well_formed(),
            forall|k: int|
                0 <= k < old(sources)@.len() && !uses_hrtf(*self, old(sources)@[k])
                    ==> #[trigger] final(sources)@[k] == after_default_render(
                    old(sources)@[k],
                    *listener,
                    distance_model,
                ),
            forall|k: int|
                0 <= k < old(sources)@.len() && uses_hrtf(*self, old(sources)@[k])
                    ==> (#[trigger] final(sources)@[k]) is Spatial
                    && final(sources)@[k]->Spatial_0.generic == old(
                    sources,
                )@[k]->Spatial_0.generic && final(sources)@[k]->Spatial_0.hrtf_state is Some,
            final(mix_buffer)@.len() == old(mix_buffer)@.len(),
            as_ints(final(mix_buffer)@) == rendered_all(
                as_ints(old(mix_buffer)@),
                *self,
                old(sources)@,
                *listener,
                distance_model,
            ),
    {
        let n_sources: usize = sources.len();
        let mut k: usize = 0;
        while k < n_sources
            invariant
                0 <= k <= n_sources,
                self.well_formed(),
                listener.well_formed(),
                sources@.len() == n_sources == old(sources)@.len(),
                n_sources <= MAX_SOURCES,
                mix_buffer@.len() == old(mix_buffer)@.len(),
                old(mix_buffer)@.len() <= MAX_TICK_LEN,
                forall|j: int|
                    0 <= j < n_sources ==> (#[trigger] old(sources)@[j]).well_formed(),
                forall|j: int| k <= j < n_sources ==> #[trigger] sources@[j] == old(sources)@[j],
                forall|j: int| 0 <= j < k ==> (#[trigger] sources@[j]).well_formed(),
                forall|j: int|
                    0 <= j < k && !uses_hrtf(*self, old(sources)@[j]) ==> #[trigger] sources@[j]
                        == after_default_render(old(sources)@[j], *listener, distance_model),
                forall|j: int|
                    0 <= j < k && uses_hrtf(*self, old(sources)@[j]) ==> (#[trigger] sources@[j]) is Spatial
                        && sources@[j]->Spatial_0.generic == old(sources)@[j]->Spatial_0.generic
                        && sources@[j]->Spatial_0.hrtf_state is Some,
                as_ints(mix_buffer@) == rendered_all(
                    as_ints(old(mix_buffer)@),
                    *self,
                    old(sources)@.take(k as int),
                    *listener,
                    distance_model,
                ),
                ints_bounded(
                    as_ints(mix_buffer@),
                    TICK_INPUT_LIMIT as int + k * (CONTRIB_LIMIT as int),
                ),
            decreases n_sources - k,
        {
            let ghost mix_before = mix_buffer@;
            let ghost sources_before = sources@;
            proof {
                assert(mix_bounded(mix_buffer@, MIX_LIMIT as int)) by {
                    assert forall|i: int|
                        0 <= i < mix_buffer@.len() implies -MIX_LIMIT <= (
                    #[trigger] mix_buffer@[i]).0 <= MIX_LIMIT && -MIX_LIMIT <= mix_buffer@[i].1
                        <= MIX_LIMIT by {
                        assert(as_ints(mix_buffer@)[i] == (
                            mix_buffer@[i].0 as int,
                            mix_buffer@[i].1 as int,
                        ));
                    }
                }
            }
            self.render_source(&mut sources[k], listener, distance_model, mix_buffer);
            proof {
                lemma_rendered_all_step(
                    as_ints(old(mix_buffer)@),
                    *self,
                    old(sources)@,
                    k as int,
                    *listener,
                    distance_model,
                );
                lemma_rendered_with_growth(
                    as_ints(mix_before),
                    *self,
                    sources_before[k as int],
                    *listener,
                    distance_model,
                    TICK_INPUT_LIMIT as int + k * (CONTRIB_LIMIT as int),
                );
            }
            k = k + 1;
        }
        proof {
            assert(old(sources)@.take(n_sources as int) =~= old(sources)@);
        }
    }
}

} // verus!
