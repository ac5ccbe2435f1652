//! The HRTF convolution engine: binaural rendering of mono spatial sources
//! by convolving their samples with direction-selected head-related impulse
//! responses, crossfading between the previous tick's response and the newly
//! selected one to avoid spatialization discontinuities.

use vstd::prelude::*;
use crate::context::DistanceModel;
use crate::listener::Listener;
use crate::math::{
    div_trunc, div_trunc_i64, lemma_div_trunc_bound, lemma_div_trunc_cancel, CONTRIB_LIMIT,
    GAIN_LIMIT, IR_COEF_LIMIT, IR_LEN_LIMIT, MAX_TICK_LEN, MIX_LIMIT, SAMPLE_LIMIT, SCALE,
};
use crate::renderer::{
    as_ints, combined_spatial_gain, gain_ramp_num, lemma_combined_gain_bound, mix_bounded,
    mixed_len,
};
use crate::source::{GenericSource, HrtfState, SpatialSource};

verus! {

/// One direction's pair of impulse responses, one filter per output channel.
pub struct HrirPair {
    pub left: Vec<i64>,
    pub right: Vec<i64>,
}

impl HrirPair {
    /// Both filters have the dataset's common length and Q16 coefficients no
    /// larger than unit.
    pub open spec fn well_formed_with(self, ir_len: int) -> bool {
        &&& self.left@.len() == ir_len
        &&& self.right@.len() == ir_len
        &&& forall|j: int|
            0 <= j < ir_len ==> -IR_COEF_LIMIT <= #[trigger] self.left@[j] <= IR_COEF_LIMIT
        &&& forall|j: int|
            0 <= j < ir_len ==> -IR_COEF_LIMIT <= #[trigger] self.right@[j] <= IR_COEF_LIMIT
    }
}

/// How many direction sectors the impulse-response dataset distinguishes.
pub const DIRECTION_SECTORS: usize = 8;

/// The stateful HRTF renderer: a precomputed impulse-response dataset, one
/// pair per direction sector. Per-source convolution state lives in each
/// source's own slot, not here.
pub struct HrtfRenderer {
    pub hrirs: Vec<HrirPair>,
    pub ir_len: usize,
}

impl HrtfRenderer {
    pub open spec fn well_formed(self) -> bool {
        &&& self.hrirs@.len() == DIRECTION_SECTORS
        &&& 1 <= self.ir_len <= IR_LEN_LIMIT
        &&& forall|k: int|
            0 <= k < DIRECTION_SECTORS ==> (#[trigger] self.hrirs@[k]).well_formed_with(
                self.ir_len as int,
            )
    }

    /// A renderer over the given dataset.
    pub fn new(hrirs: Vec<HrirPair>, ir_len: usize) -> (r: HrtfRenderer)
        requires
            hrirs@.len() == DIRECTION_SECTORS,
            1 <= ir_len <= IR_LEN_LIMIT,
            forall|k: int|
                0 <= k < DIRECTION_SECTORS ==> (#[trigger] hrirs@[k]).well_formed_with(
                    ir_len as int,
                ),
        ensures
            r.hrirs == hrirs,
            r.ir_len == ir_len,
            r.well_formed(),
    {
        HrtfRenderer { hrirs, ir_len }
    }
}

/// The direction sector of a relative position: one octant per sign pattern
/// of the coordinates. The dataset granularity is the collaborator's choice;
/// this core fixes only that the sector is a function of the direction.
pub open spec fn octant_index(rx: int, ry: int, rz: int) -> int {
    (if rx < 0 {
        1int
    } else {
        0int
    }) + (if ry < 0 {
        2int
    } else {
        0int
    }) + (if rz < 0 {
        4int
    } else {
        0int
    })
}

/// The direction sector of a source relative to a listener.
pub open spec fn direction_index(src: SpatialSource, listener: Listener) -> int {
    octant_index(
        src.position.x - listener.position.x,
        src.position.y - listener.position.y,
        src.position.z - listener.position.z,
    )
}

/// Partial convolution sum: the first `k` filter taps applied backward from
/// stream position `pos`.
pub open spec fn conv_partial(samples: Seq<i64>, ir: Seq<i64>, pos: int, k: int) -> int
    decreases k,
{
    if k <= 0 {
        0
    } else {
        conv_partial(samples, ir, pos, k - 1) + ir[k - 1] * samples[pos - (k - 1)]
    }
}

/// Full convolution of the filter against the stream at position `pos`.
pub open spec fn conv_at(samples: Seq<i64>, ir: Seq<i64>, pos: int) -> int {
    conv_partial(samples, ir, pos, ir.len() as int)
}

/// A partial convolution of bounded taps and samples is bounded by the tap
/// count times the coefficient and sample bounds.
pub proof fn lemma_conv_partial_bound(samples: Seq<i64>, ir: Seq<i64>, pos: int, k: int)
    requires
        0 <= k <= ir.len(),
        k - 1 <= pos < samples.len(),
        forall|j: int| 0 <= j < ir.len() ==> -IR_COEF_LIMIT <= #[trigger] ir[j] <= IR_COEF_LIMIT,
        forall|j: int|
            0 <= j < samples.len() ==> -SAMPLE_LIMIT <= #[trigger] samples[j] <= SAMPLE_LIMIT,
    ensures
        -(k * 68719476736) <= conv_partial(samples, ir, pos, k) <= k * 68719476736,
    decreases k,
{
    if k > 0 {
        lemma_conv_partial_bound(samples, ir, pos, k - 1);
        assert(-68719476736 <= ir[k - 1] * samples[pos - (k - 1)] <= 68719476736)
            by (nonlinear_arith)
            requires
                -65536 <= ir[k - 1] <= 65536,
                -1048576 <= samples[pos - (k - 1)] <= 1048576,
        ;
    }
}

/// Convolve the filter against the sample stream ending at `pos`.
fn convolve_at(samples: &Vec<i64>, ir: &Vec<i64>, pos: usize) -> (r: i64)
    requires
        1 <= ir@.len() <= IR_LEN_LIMIT,
        pos < samples@.len(),
        pos + 1 >= ir@.len(),
        forall|j: int| 0 <= j < ir@.len() ==> -IR_COEF_LIMIT <= #[trigger] ir@[j] <= IR_COEF_LIMIT,
        forall|j: int|
            0 <= j < samples@.len() ==> -SAMPLE_LIMIT <= #[trigger] samples@[j] <= SAMPLE_LIMIT,
    ensures
        r == conv_at(samples@, ir@, pos as int),
        -8796093022208 <= r <= 8796093022208,
{
    let ir_len: usize = ir.len();
    let mut acc: i64 = 0;
    let mut k: usize = 0;
    while k < ir_len
        invariant
            0 <= k <= ir_len,
            ir_len == ir@.len(),
            1 <= ir_len <= IR_LEN_LIMIT,
            pos < samples@.len(),
            pos + 1 >= ir_len,
            forall|j: int|
                0 <= j < ir@.len() ==> -IR_COEF_LIMIT <= #[trigger] ir@[j] <= IR_COEF_LIMIT,
            forall|j: int|
                0 <= j < samples@.len() ==> -SAMPLE_LIMIT <= #[trigger] samples@[j] <= SAMPLE_LIMIT,
            acc == conv_partial(samples@, ir@, pos as int, k as int),
            -(k * 68719476736) <= acc <= k * 68719476736,
        decreases ir_len - k,
    {
        let tap = ir[k];
        let sample = samples[pos - k];
        proof {
            assert(-68719476736 <= tap as int * sample as int <= 68719476736) by (nonlinear_arith)
                requires
                    -65536 <= tap <= 65536,
                    -1048576 <= sample <= 1048576,
            ;
        }
        acc = acc + tap * sample;
        k = k + 1;
    }
    proof {
        lemma_conv_partial_bound(samples@, ir@, pos as int, ir_len as int);
    }
    acc
}

/// Whether a source's stored convolution state fits this dataset: the right
/// history length and a valid previous sector.
pub open spec fn hrtf_state_ok(state: Option<HrtfState>, ir_len: int) -> bool {
    match state {
        Some(st) => st.history@.len() == ir_len - 1 && st.prev_ir_index < DIRECTION_SECTORS,
        None => false,
    }
}

/// The history the next convolution starts from: the stored tail, or zeros
/// on a source's first HRTF render (or after a dataset change).
pub open spec fn used_history(src: SpatialSource, ir_len: int) -> Seq<i64> {
    if hrtf_state_ok(src.hrtf_state, ir_len) {
        src.hrtf_state->Some_0.history@
    } else {
        Seq::new((ir_len - 1) as nat, |j: int| 0i64)
    }
}

/// The previous tick's sector: the stored one, or the new sector itself on a
/// first render, which makes the crossfade degenerate to direct application.
pub open spec fn used_prev_index(src: SpatialSource, new_index: int, ir_len: int) -> int {
    if hrtf_state_ok(src.hrtf_state, ir_len) {
        src.hrtf_state->Some_0.prev_ir_index as int
    } else {
        new_index
    }
}

/// The mono input samples of this tick: the engine assumes single-channel
/// input, so the left value of each decoded pair is the sample.
pub open spec fn mono_inputs(src: GenericSource, m: int) -> Seq<i64> {
    Seq::new(m as nat, |j: int| src.frame_samples@[j].0)
}

/// The convolution stream: the history tail followed by this tick's inputs.
pub open spec fn ext_samples(src: SpatialSource, ir_len: int, m: int) -> Seq<i64> {
    used_history(src, ir_len) + mono_inputs(src.generic, m)
}

/// Crossfade between the previous and the new convolution output across the
/// tick, normalized by the ramp divisor and the Q16 coefficient scale.
pub open spec fn crossfade(prev: int, next: int, i: int, n: int) -> int {
    div_trunc(gain_ramp_num(prev, next, i, n), n * (SCALE as int))
}

/// Left-channel HRTF contribution of a mono spatial source at sample `i`.
pub open spec fn hrtf_contrib_left(
    r: HrtfRenderer,
    src: SpatialSource,
    listener: Listener,
    model: DistanceModel,
    i: int,
    n: int,
) -> int {
    let ir_len = r.ir_len as int;
    let new_index = direction_index(src, listener);
    let prev_index = used_prev_index(src, new_index, ir_len);
    let ext = ext_samples(src, ir_len, mixed_len(src.generic, n));
    let pos = ir_len - 1 + i;
    let conv_prev = conv_at(ext, r.hrirs@[prev_index].left@, pos);
    let conv_next = conv_at(ext, r.hrirs@[new_index].left@, pos);
    div_trunc(
        crossfade(conv_prev, conv_next, i, n) * combined_spatial_gain(src, listener, model),
        SCALE as int,
    )
}

/// Right-channel HRTF contribution of a mono spatial source at sample `i`.
pub open spec fn hrtf_contrib_right(
    r: HrtfRenderer,
    src: SpatialSource,
    listener: Listener,
    model: DistanceModel,
    i: int,
    n: int,
) -> int {
    let ir_len = r.ir_len as int;
    let new_index = direction_index(src, listener);
    let prev_index = used_prev_index(src, new_index, ir_len);
    let ext = ext_samples(src, ir_len, mixed_len(src.generic, n));
    let pos = ir_len - 1 + i;
    let conv_prev = conv_at(ext, r.hrirs@[prev_index].right@, pos);
    let conv_next = conv_at(ext, r.hrirs@[new_index].right@, pos);
    div_trunc(
        crossfade(conv_prev, conv_next, i, n) * combined_spatial_gain(src, listener, model),
        SCALE as int,
    )
}

/// The buffer after the engine accumulates a mono spatial source.
pub open spec fn hrtf_mixed_with(
    mix: Seq<(int, int)>,
    r: HrtfRenderer,
    src: SpatialSource,
    listener: Listener,
    model: DistanceModel,
) -> Seq<(int, int)> {
    Seq::new(
        mix.len(),
        |i: int|
            if i < mixed_len(src.generic, mix.len() as int) {
                (
                    mix[i].0 + hrtf_contrib_left(r, src, listener, model, i, mix.len() as int),
                    mix[i].1 + hrtf_contrib_right(r, src, listener, model, i, mix.len() as int),
                )
            } else {
                mix[i]
            },
    )
}

/// The history the source carries out of this tick: the last `ir_len - 1`
/// samples of the convolution stream.
pub open spec fn next_history(src: SpatialSource, ir_len: int, m: int) -> Seq<i64> {
    let ext = ext_samples(src, ir_len, m);
    ext.subrange(ext.len() - (ir_len - 1), ext.len() as int)
}

/// On a first render the crossfade degenerates to direct application of the
/// newly selected impulse response: both convolutions use the same filter,
/// so the blend collapses to the plain normalized convolution output.
pub proof fn lemma_first_render_direct(conv: int, i: int, n: int)
    requires
        0 <= i < n,
    ensures
        crossfade(conv, conv, i, n) == div_trunc(conv, SCALE as int),
{
    assert(gain_ramp_num(conv, conv, i, n) == n * conv) by (nonlinear_arith);
    lemma_div_trunc_cancel(n, conv, SCALE as int);
}

/// A crossfaded, renormalized convolution output is bounded by the raw
/// convolution bound over the scale.
pub proof fn lemma_crossfade_bound(prev: int, next: int, i: int, n: int)
    requires
        -8796093022208 <= prev <= 8796093022208,
        -8796093022208 <= next <= 8796093022208,
        0 <= i < n,
        n <= MAX_TICK_LEN,
    ensures
        -134217728 <= crossfade(prev, next, i, n) <= 134217728,
{
    let s = SCALE as int;
    let ramp = gain_ramp_num(prev, next, i, n);
    assert(-(n * 8796093022208) <= ramp <= n * 8796093022208) by (nonlinear_arith)
        requires
            -8796093022208 <= prev <= 8796093022208,
            -8796093022208 <= next <= 8796093022208,
            0 <= i < n,
            ramp == prev * (n - i) + next * i,
    ;
    lemma_div_trunc_bound(ramp, n * s, n * 8796093022208);
    lemma_div_trunc_cancel(n, 8796093022208, s);
    assert((n * 8796093022208) / (n * s) == div_trunc(n * 8796093022208, n * s)) by {
        assert(n * 8796093022208 >= 0) by (nonlinear_arith)
            requires
                n >= 1,
        ;
    }
    assert(div_trunc(8796093022208, s) == 134217728);
}

/// Every sample of the convolution stream of a well-formed source is a
/// bounded sample value.
pub proof fn lemma_ext_samples_bounded(src: SpatialSource, ir_len: int, m: int)
    requires
        src.well_formed(),
        1 <= ir_len,
        0 <= m <= src.generic.frame_samples@.len(),
    ensures
        ext_samples(src, ir_len, m).len() == (ir_len - 1) + m,
        forall|x: int|
            0 <= x < ext_samples(src, ir_len, m).len() ==> -SAMPLE_LIMIT <= #[trigger] ext_samples(
                src,
                ir_len,
                m,
            )[x] <= SAMPLE_LIMIT,
{
    let ext = ext_samples(src, ir_len, m);
    assert forall|x: int| 0 <= x < ext.len() implies -SAMPLE_LIMIT <= #[trigger] ext[x]
        <= SAMPLE_LIMIT by {
        if x < ir_len - 1 {
            if hrtf_state_ok(src.hrtf_state, ir_len) {
                assert(ext[x] == src.hrtf_state->Some_0.history@[x]);
            } else {
                assert(ext[x] == 0i64);
            }
        } else {
            assert(ext[x] == src.generic.frame_samples@[x - (ir_len - 1)].0);
        }
    }
}

/// One HRTF output sample never exceeds the shared contribution limit.
pub proof fn lemma_hrtf_contrib_bound(
    r: HrtfRenderer,
    src: SpatialSource,
    listener: Listener,
    model: DistanceModel,
    i: int,
    n: int,
)
    requires
        r.well_formed(),
        src.well_formed(),
        listener.well_formed(),
        0 <= i < mixed_len(src.generic, n),
        n <= MAX_TICK_LEN,
    ensures
        -CONTRIB_LIMIT <= hrtf_contrib_left(r, src, listener, model, i, n) <= CONTRIB_LIMIT,
        -CONTRIB_LIMIT <= hrtf_contrib_right(r, src, listener, model, i, n) <= CONTRIB_LIMIT,
{
    let s = SCALE as int;
    let ir_len = r.ir_len as int;
    let m = mixed_len(src.generic, n);
    let new_index = direction_index(src, listener);
    let prev_index = used_prev_index(src, new_index, ir_len);
    let ext = ext_samples(src, ir_len, m);
    let pos = ir_len - 1 + i;
    lemma_ext_samples_bounded(src, ir_len, m);
    assert(0 <= new_index < DIRECTION_SECTORS);
    assert(0 <= prev_index < DIRECTION_SECTORS);
    let g = combined_spatial_gain(src, listener, model);
    lemma_combined_gain_bound(src, listener, model);
    let pl = r.hrirs@[prev_index].left@;
    let nl = r.hrirs@[new_index].left@;
    let pr = r.hrirs@[prev_index].right@;
    let nr = r.hrirs@[new_index].right@;
    lemma_conv_partial_bound(ext, pl, pos, ir_len);
    lemma_conv_partial_bound(ext, nl, pos, ir_len);
    lemma_conv_partial_bound(ext, pr, pos, ir_len);
    lemma_conv_partial_bound(ext, nr, pos, ir_len);
    lemma_crossfade_bound(conv_at(ext, pl, pos), conv_at(ext, nl, pos), i, n);
    lemma_crossfade_bound(conv_at(ext, pr, pos), conv_at(ext, nr, pos), i, n);
    let xl = crossfade(conv_at(ext, pl, pos), conv_at(ext, nl, pos), i, n);
    let xr = crossfade(conv_at(ext, pr, pos), conv_at(ext, nr, pos), i, n);
    assert(-2251799813685248 <= xl * g <= 2251799813685248) by (nonlinear_arith)
        requires
            -134217728 <= xl <= 134217728,
            -16777216 <= g <= 16777216,
    ;
    assert(-2251799813685248 <= xr * g <= 2251799813685248) by (nonlinear_arith)
        requires
            -134217728 <= xr <= 134217728,
            -16777216 <= g <= 16777216,
    ;
    lemma_div_trunc_bound(xl * g, s, 2251799813685248);
    lemma_div_trunc_bound(xr * g, s, 2251799813685248);
    assert(2251799813685248int / 65536int == 34359738368);
}

impl HrtfRenderer {
    /// Render one mono spatial source binaurally: select the impulse
    /// response by the direction from the listener to the source, crossfade
    /// from the previous tick's response across the tick's samples, convolve
    /// against the source's history-extended input stream, apply the
    /// distance-attenuated gain, and accumulate additively into the mix
    /// buffer. The source's convolution slot is created or refreshed with
    /// the new sector and the stream's tail.
    pub fn render_source(
        &self,
        source: &mut SpatialSource,
        listener: &Listener,
        distance_model: DistanceModel,
        mix_buffer: &mut Vec<(i64, i64)>,
    )
        requires
            self.well_formed(),
            old(source).well_formed(),
            old(source).generic.channel_count == 1,
            listener.well_formed(),
            old(mix_buffer)@.len() <= MAX_TICK_LEN,
            mix_bounded(old(mix_buffer)@, MIX_LIMIT as int),
        ensures
            final(source).generic == old(source).generic,
            final(source).position == old(source).position,
            final(source).radius == old(source).radius,
            final(source).max_distance == old(source).max_distance,
            final(source).rolloff_factor == old(source).rolloff_factor,
            final(source).hrtf_state is Some,
            final(source).hrtf_state->Some_0.prev_ir_index as int == direction_index(
                *old(source),
                *listener,
            ),
            final(source).hrtf_state->Some_0.history@ == next_history(
                *old(source),
                self.ir_len as int,
                mixed_len(old(source).generic, old(mix_buffer)@.len() as int),
            ),
            final(source).well_formed(),
            final(mix_buffer)@.len() == old(mix_buffer)@.len(),
            as_ints(final(mix_buffer)@) == hrtf_mixed_with(
                as_ints(old(mix_buffer)@),
                *self,
                *old(source),
                *listener,
                distance_model,
            ),
            mix_bounded(final(mix_buffer)@, MIX_LIMIT as int + CONTRIB_LIMIT as int),
    {
        let n: usize = mix_buffer.len();
        let ir_len: usize = self.ir_len;
        let rx = source.position.x - listener.position.x;
        let ry = source.position.y - listener.position.y;
        let rz = source.position.z - listener.position.z;
        let new_index: usize = (if rx < 0 {
            1
        } else {
            0
        }) + (if ry < 0 {
            2
        } else {
            0
        }) + (if rz < 0 {
            4
        } else {
            0
        });
        proof {
            assert(new_index as int == direction_index(*source, *listener));
            assert(new_index < DIRECTION_SECTORS);
        }
        let distance_gain = source.get_distance_gain(listener, distance_model);
        proof {
            assert(-1099511627776 <= distance_gain as int * source.generic.gain as int
                <= 1099511627776) by (nonlinear_arith)
                requires
                    0 <= distance_gain <= 65536,
                    -16777216 <= source.generic.gain <= 16777216,
            ;
        }
        let gain = div_trunc_i64(distance_gain * source.generic.gain, SCALE);
        proof {
            lemma_combined_gain_bound(*source, *listener, distance_model);
        }
        let mut prev_index: usize = new_index;
        let mut state_ok: bool = false;
        match &source.hrtf_state {
            Some(st) => {
                if st.prev_ir_index < DIRECTION_SECTORS && st.history.len() == ir_len - 1 {
                    prev_index = st.prev_ir_index;
                    state_ok = true;
                }
            },
            None => {},
        }
        proof {
            assert(state_ok == hrtf_state_ok(source.hrtf_state, ir_len as int));
            assert(prev_index as int == used_prev_index(*source, new_index as int, ir_len as int));
            assert(prev_index < DIRECTION_SECTORS);
        }
        let samples_len: usize = source.generic.frame_samples.len();
        let m: usize = if samples_len < n {
            samples_len
        } else {
            n
        };
        let mut combined: Vec<i64> = Vec::new();
        if state_ok {
            match &source.hrtf_state {
                Some(st) => {
                    let mut j: usize = 0;
                    while j < st.history.len()
                        invariant
                            0 <= j <= st.history@.len(),
                            combined@ == st.history@.take(j as int),
                        decreases st.history@.len() - j,
                    {
                        combined.push(st.history[j]);
                        j = j + 1;
                        proof {
                            assert(combined@ =~= st.history@.take(j as int));
                        }
                    }
                    proof {
                        assert(combined@ =~= st.history@);
                    }
                },
                None => {
                    proof {
                        assert(false);
                    }
                },
            }
        } else {
            let mut j: usize = 0;
            while j < ir_len - 1
                invariant
                    0 <= j <= ir_len - 1,
                    ir_len >= 1,
                    combined@.len() == j,
                    forall|x: int| 0 <= x < j ==> #[trigger] combined@[x] == 0i64,
                decreases ir_len - 1 - j,
            {
                combined.push(0);
                j = j + 1;
            }
            proof {
                assert(combined@ =~= Seq::new((ir_len - 1) as nat, |x: int| 0i64));
            }
        }
        proof {
            assert(combined@ == used_history(*source, ir_len as int));
        }
        let mut j: usize = 0;
        while j < m
            invariant
                0 <= j <= m,
                m <= source.generic.frame_samples@.len(),
                source == old(source),
                ir_len >= 1,
                combined@ == used_history(*old(source), ir_len as int) + mono_inputs(
                    old(source).generic,
                    j as int,
                ),
            decreases m - j,
        {
            combined.push(source.generic.frame_samples[j].0);
            j = j + 1;
            proof {
                assert(combined@ =~= used_history(*old(source), ir_len as int) + mono_inputs(
                    old(source).generic,
                    j as int,
                ));
            }
        }
        proof {
            assert(combined@ == ext_samples(*old(source), ir_len as int, m as int));
            assert(combined@.len() == (ir_len - 1) + m);
        }
        let ghost sample_ok = forall|x: int|
            0 <= x < combined@.len() ==> -SAMPLE_LIMIT <= #[trigger] combined@[x] <= SAMPLE_LIMIT;
        proof {
            assert forall|x: int|
                0 <= x < combined@.len() implies -SAMPLE_LIMIT <= #[trigger] combined@[x]
                <= SAMPLE_LIMIT by {
                if x < ir_len - 1 {
                    if hrtf_state_ok(old(source).hrtf_state, ir_len as int) {
                        assert(combined@[x] == old(source).hrtf_state->Some_0.history@[x]);
                    }
                } else {
                    assert(combined@[x] == old(source).generic.frame_samples@[x - (ir_len - 1)].0);
                }
            }
        }
        let mut i: usize = 0;
        while i < m
            invariant
                0 <= i <= m,
                m <= n <= MAX_TICK_LEN,
                m as int == mixed_len(old(source).generic, n as int),
                ir_len == self.ir_len,
                self.well_formed(),
                source == old(source),
                old(source).well_formed(),
                listener.well_formed(),
                mix_buffer@.len() == n == old(mix_buffer)@.len(),
                combined@ == ext_samples(*old(source), ir_len as int, m as int),
                combined@.len() == (ir_len - 1) + m,
                forall|x: int|
                    0 <= x < combined@.len() ==> -SAMPLE_LIMIT <= #[trigger] combined@[x]
                        <= SAMPLE_LIMIT,
                new_index as int == direction_index(*old(source), *listener),
                new_index < DIRECTION_SECTORS,
                prev_index as int == used_prev_index(
                    *old(source),
                    new_index as int,
                    ir_len as int,
                ),
                prev_index < DIRECTION_SECTORS,
                gain as int == combined_spatial_gain(*old(source), *listener, distance_model),
                -GAIN_LIMIT <= gain <= GAIN_LIMIT,
                forall|k: int|
                    0 <= k < i ==> (#[trigger] mix_buffer@[k]).0 == old(mix_buffer)@[k].0
                        + hrtf_contrib_left(
                        *self,
                        *old(source),
                        *listener,
                        distance_model,
                        k,
                        n as int,
                    ) && mix_buffer@[k].1 == old(mix_buffer)@[k].1 + hrtf_contrib_right(
                        *self,
                        *old(source),
                        *listener,
                        distance_model,
                        k,
                        n as int,
                    ),
                forall|k: int| i <= k < n ==> #[trigger] mix_buffer@[k] == old(mix_buffer)@[k],
                mix_bounded(old(mix_buffer)@, MIX_LIMIT as int),
                mix_bounded(mix_buffer@, MIX_LIMIT as int + CONTRIB_LIMIT as int),
            decreases m - i,
        {
            let pos: usize = ir_len - 1 + i;
            let conv_prev_l = convolve_at(&combined, &self.hrirs[prev_index].left, pos);
            let conv_next_l = convolve_at(&combined, &self.hrirs[new_index].left, pos);
            let conv_prev_r = convolve_at(&combined, &self.hrirs[prev_index].right, pos);
            let conv_next_r = convolve_at(&combined, &self.hrirs[new_index].right, pos);
            proof {
                assert(-576460752303423488 <= conv_prev_l as int * ((n - i) as int)
                    <= 576460752303423488) by (nonlinear_arith)
                    requires
                        -8796093022208 <= conv_prev_l <= 8796093022208,
                        0 <= (n - i) as int <= 65536,
                ;
                assert(-576460752303423488 <= conv_next_l as int * (i as int)
                    <= 576460752303423488) by (nonlinear_arith)
                    requires
                        -8796093022208 <= conv_next_l <= 8796093022208,
                        0 <= i <= 65536,
                ;
                assert(-576460752303423488 <= conv_prev_r as int * ((n - i) as int)
                    <= 576460752303423488) by (nonlinear_arith)
                    requires
                        -8796093022208 <= conv_prev_r <= 8796093022208,
                        0 <= (n - i) as int <= 65536,
                ;
                assert(-576460752303423488 <= conv_next_r as int * (i as int)
                    <= 576460752303423488) by (nonlinear_arith)
                    requires
                        -8796093022208 <= conv_next_r <= 8796093022208,
                        0 <= i <= 65536,
                ;
            }
            let num_l: i64 = conv_prev_l * ((n - i) as i64) + conv_next_l * (i as i64);
            let num_r: i64 = conv_prev_r * ((n - i) as i64) + conv_next_r * (i as i64);
            let divisor: i64 = (n as i64) * SCALE;
            let xf_l = div_trunc_i64(num_l, divisor);
            let xf_r = div_trunc_i64(num_r, divisor);
            proof {
                lemma_crossfade_bound(conv_prev_l as int, conv_next_l as int, i as int, n as int);
                lemma_crossfade_bound(conv_prev_r as int, conv_next_r as int, i as int, n as int);
                assert(xf_l == crossfade(conv_prev_l as int, conv_next_l as int, i as int, n as int));
                assert(xf_r == crossfade(conv_prev_r as int, conv_next_r as int, i as int, n as int));
                assert(-2251799813685248 <= xf_l as int * gain as int <= 2251799813685248)
                    by (nonlinear_arith)
                    requires
                        -134217728 <= xf_l <= 134217728,
                        -16777216 <= gain <= 16777216,
                ;
                assert(-2251799813685248 <= xf_r as int * gain as int <= 2251799813685248)
                    by (nonlinear_arith)
                    requires
                        -134217728 <= xf_r <= 134217728,
                        -16777216 <= gain <= 16777216,
                ;
            }
            let out_l = div_trunc_i64(xf_l * gain, SCALE);
            let out_r = div_trunc_i64(xf_r * gain, SCALE);
            proof {
                lemma_div_trunc_bound(xf_l as int * gain as int, SCALE as int, 2251799813685248);
                lemma_div_trunc_bound(xf_r as int * gain as int, SCALE as int, 2251799813685248);
                assert(2251799813685248int / 65536int == 34359738368);
                assert(out_l == hrtf_contrib_left(
                    *self,
                    *old(source),
                    *listener,
                    distance_model,
                    i as int,
                    n as int,
                ));
                assert(out_r == hrtf_contrib_right(
                    *self,
                    *old(source),
                    *listener,
                    distance_model,
                    i as int,
                    n as int,
                ));
            }
            let cell = mix_buffer[i];
            mix_buffer[i] = (cell.0 + out_l, cell.1 + out_r);
            i = i + 1;
        }
        let total: usize = combined.len();
        let mut new_history: Vec<i64> = Vec::new();
        let mut j: usize = 0;
        while j < ir_len - 1
            invariant
                0 <= j <= ir_len - 1,
                ir_len >= 1,
                total == combined@.len() == (ir_len - 1) + m,
                new_history@.len() == j,
                forall|x: int|
                    0 <= x < j ==> #[trigger] new_history@[x] == combined@[total - (ir_len - 1)
                        + x],
                forall|x: int|
                    0 <= x < combined@.len() ==> -SAMPLE_LIMIT <= #[trigger] combined@[x]
                        <= SAMPLE_LIMIT,
            decreases ir_len - 1 - j,
        {
            new_history.push(combined[total - (ir_len - 1) + j]);
            j = j + 1;
        }
        source.hrtf_state = Some(HrtfState { prev_ir_index: new_index, history: new_history });
        proof {
            assert(source.hrtf_state->Some_0.history@ =~= next_history(
                *old(source),
                ir_len as int,
                m as int,
            ));
            assert(as_ints(mix_buffer@) =~= hrtf_mixed_with(
                as_ints(old(mix_buffer)@),
                *self,
                *old(source),
                *listener,
                distance_model,
            ));
        }
    }
}

} // verus!
