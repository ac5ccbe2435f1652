//! Sound sources: a generic (panned) source, a spatial source positioned in
//! 3-space, and the per-source state the renderer keeps between ticks (the
//! last rendered gains and, for HRTF rendering, the convolution history).

use vstd::prelude::*;
use crate::context::{
    attenuation, attenuation_args_ok, distance_gain_for, DistanceModel, DIST_BOUND,
};
use crate::listener::{dist_sq, dot, Listener, Vec3};
use crate::math::{
    clamp_i64, clamp_spec, div_trunc, div_trunc_i64, is_sqrt_floor, isqrt_u64,
    lemma_sqrt_floor_exists, lemma_sqrt_floor_unique, sqrt_floor, GAIN_LIMIT, IR_LEN_LIMIT,
    MAX_TICK_LEN, POS_LIMIT, ROLLOFF_LIMIT, SAMPLE_LIMIT, SCALE,
};

verus! {

/// Per-source convolution state for the HRTF engine: which impulse response
/// was applied on the previous tick, and the tail of prior input samples
/// (one fewer than the filter length) the next convolution starts from.
pub struct HrtfState {
    pub prev_ir_index: usize,
    pub history: Vec<i64>,
}

impl HrtfState {
    pub open spec fn well_formed(self) -> bool {
        &&& self.history@.len() < IR_LEN_LIMIT
        &&& forall|i: int|
            0 <= i < self.history@.len() ==> -SAMPLE_LIMIT <= #[trigger] self.history@[i]
                <= SAMPLE_LIMIT
    }
}

/// A playing source: its own gain, stereo panning, the decoded sample pairs
/// of the current tick, and the gains it was last rendered with.
pub struct GenericSource {
    /// Source gain, Q16 (`SCALE` is unit gain).
    pub gain: i64,
    /// Stereo panning in `[-SCALE, SCALE]`: -1 full left, +1 full right.
    pub panning: i64,
    /// Channel count of the underlying decoded buffer (1 or 2).
    pub channel_count: usize,
    /// This tick's decoded sample pairs (left, right), Q16.
    pub frame_samples: Vec<(i64, i64)>,
    /// Left gain of the previous render call, absent before the first one.
    pub last_left_gain: Option<i64>,
    /// Right gain of the previous render call, absent before the first one.
    pub last_right_gain: Option<i64>,
}

impl GenericSource {
    pub open spec fn well_formed(self) -> bool {
        &&& -GAIN_LIMIT <= self.gain <= GAIN_LIMIT
        &&& -SCALE <= self.panning <= SCALE
        &&& 1 <= self.channel_count <= 2
        &&& self.frame_samples@.len() <= MAX_TICK_LEN
        &&& forall|i: int|
            0 <= i < self.frame_samples@.len() ==> -SAMPLE_LIMIT
                <= (#[trigger] self.frame_samples@[i]).0 <= SAMPLE_LIMIT
                && -SAMPLE_LIMIT <= self.frame_samples@[i].1 <= SAMPLE_LIMIT
        &&& self.channel_count == 1 ==> forall|i: int|
            0 <= i < self.frame_samples@.len() ==> (#[trigger] self.frame_samples@[i]).0
                == self.frame_samples@[i].1
        &&& match self.last_left_gain {
            Some(g) => -2 * GAIN_LIMIT <= g <= 2 * GAIN_LIMIT,
            None => true,
        }
        &&& match self.last_right_gain {
            Some(g) => -2 * GAIN_LIMIT <= g <= 2 * GAIN_LIMIT,
            None => true,
        }
    }

    /// A fresh source, not yet rendered (no last gains).
    pub fn new(
        gain: i64,
        panning: i64,
        channel_count: usize,
        frame_samples: Vec<(i64, i64)>,
    ) -> (s: GenericSource)
        requires
            -GAIN_LIMIT <= gain <= GAIN_LIMIT,
            -SCALE <= panning <= SCALE,
            1 <= channel_count <= 2,
            frame_samples@.len() <= MAX_TICK_LEN,
            forall|i: int|
                0 <= i < frame_samples@.len() ==> -SAMPLE_LIMIT <= (#[trigger] frame_samples@[i]).0
                    <= SAMPLE_LIMIT && -SAMPLE_LIMIT <= frame_samples@[i].1 <= SAMPLE_LIMIT,
            channel_count == 1 ==> forall|i: int|
                0 <= i < frame_samples@.len() ==> (#[trigger] frame_samples@[i]).0
                    == frame_samples@[i].1,
        ensures
            s == (GenericSource {
                gain,
                panning,
                channel_count,
                frame_samples,
                last_left_gain: None,
                last_right_gain: None,
            }),
            s.well_formed(),
    {
        GenericSource {
            gain,
            panning,
            channel_count,
            frame_samples,
            last_left_gain: None,
            last_right_gain: None,
        }
    }

    pub fn gain(&self) -> (g: i64)
        ensures
            g == self.gain,
    {
        self.gain
    }

    pub fn panning(&self) -> (p: i64)
        ensures
            p == self.panning,
    {
        self.panning
    }

    /// The decoded sample pairs of the current tick. The mixer only reads
    /// them; the source owns its decode cursor.
    pub fn frame_samples(&self) -> (s: &Vec<(i64, i64)>)
        ensures
            s == &self.frame_samples,
    {
        &self.frame_samples
    }
}

/// A source positioned in 3-space, wrapping a generic payload and carrying
/// the distance-attenuation parameters and the HRTF per-source slot.
pub struct SpatialSource {
    pub generic: GenericSource,
    pub position: Vec3,
    /// Reference distance: no attenuation at or inside it (Q16).
    pub radius: i64,
    /// Distance at which the linear model reaches its floor (Q16).
    pub max_distance: i64,
    /// Rolloff factor of the attenuation curves (Q16).
    pub rolloff_factor: i64,
    /// Convolution state, created on the first HRTF render of this source.
    pub hrtf_state: Option<HrtfState>,
}

impl SpatialSource {
    pub open spec fn well_formed(self) -> bool {
        &&& self.generic.well_formed()
        &&& self.position.bounded_by(POS_LIMIT as int)
        &&& 0 < self.radius <= POS_LIMIT
        &&& self.radius <= self.max_distance <= POS_LIMIT
        &&& 0 <= self.rolloff_factor <= ROLLOFF_LIMIT
        &&& match self.hrtf_state {
            Some(st) => st.well_formed(),
            None => true,
        }
    }

    pub fn new(
        generic: GenericSource,
        position: Vec3,
        radius: i64,
        max_distance: i64,
        rolloff_factor: i64,
    ) -> (s: SpatialSource)
        requires
            generic.well_formed(),
            position.bounded_by(POS_LIMIT as int),
            0 < radius <= POS_LIMIT,
            radius <= max_distance <= POS_LIMIT,
            0 <= rolloff_factor <= ROLLOFF_LIMIT,
        ensures
            s == (SpatialSource {
                generic,
                position,
                radius,
                max_distance,
                rolloff_factor,
                hrtf_state: None,
            }),
            s.well_formed(),
    {
        SpatialSource { generic, position, radius, max_distance, rolloff_factor, hrtf_state: None }
    }

    pub fn generic(&self) -> (g: &GenericSource)
        ensures
            g == &self.generic,
    {
        &self.generic
    }

    /// Drop the per-source convolution state, as the context does when the
    /// active renderer switches away from HRTF.
    pub fn reset_hrtf_state(&mut self)
        ensures
            *final(self) == (SpatialSource { hrtf_state: None, ..*old(self) }),
    {
        self.hrtf_state = None;
    }

    /// The source-to-listener distance, Q16: the integer square root of the
    /// squared coordinate distance.
    pub open spec fn spec_distance_to(self, listener: Listener) -> int {
        sqrt_floor(dist_sq(self.position, listener.position))
    }

    pub fn distance_to(&self, listener: &Listener) -> (d: i64)
        requires
            self.well_formed(),
            listener.well_formed(),
        ensures
            d == self.spec_distance_to(*listener),
            0 <= d <= DIST_BOUND,
    {
        let dx = self.position.x - listener.position.x;
        let dy = self.position.y - listener.position.y;
        let dz = self.position.z - listener.position.z;
        proof {
            assert(0 <= dx * dx <= 1152921504606846976) by (nonlinear_arith)
                requires
                    -1073741824 <= dx <= 1073741824,
            ;
            assert(0 <= dy * dy <= 1152921504606846976) by (nonlinear_arith)
                requires
                    -1073741824 <= dy <= 1073741824,
            ;
            assert(0 <= dz * dz <= 1152921504606846976) by (nonlinear_arith)
                requires
                    -1073741824 <= dz <= 1073741824,
            ;
        }
        let sq: i64 = dx * dx + dy * dy + dz * dz;
        let root: u64 = isqrt_u64(sq as u64);
        proof {
            let sqi = dist_sq(self.position, listener.position);
            assert(is_sqrt_floor(sqi, root as int));
            lemma_sqrt_floor_unique(sqi, root as int);
            assert(root as int * root as int <= 4611686018427387904);
            assert(root <= 2147483648) by (nonlinear_arith)
                requires
                    root as int * root as int <= 4611686018427387904,
                    root >= 0,
            ;
        }
        root as i64
    }

    /// The distance gain of this source for the given listener and model.
    pub open spec fn spec_distance_gain(self, listener: Listener, model: DistanceModel) -> int {
        attenuation(
            model,
            self.spec_distance_to(listener),
            self.radius as int,
            self.max_distance as int,
            self.rolloff_factor as int,
        )
    }

    /// Apply the selected distance model to the listener distance.
    pub fn get_distance_gain(&self, listener: &Listener, distance_model: DistanceModel) -> (g: i64)
        requires
            self.well_formed(),
            listener.well_formed(),
        ensures
            g == self.spec_distance_gain(*listener, distance_model),
            0 <= g <= SCALE,
    {
        let d = self.distance_to(listener);
        distance_gain_for(distance_model, d, self.radius, self.max_distance, self.rolloff_factor)
    }

    /// Directional panning: the projection of the unit direction to the
    /// source onto the listener's ear axis, clamped into `[-SCALE, SCALE]`;
    /// zero when the source sits on the listener.
    pub open spec fn spec_panning(self, listener: Listener) -> int {
        let rel = Vec3 {
            x: (self.position.x - listener.position.x) as i64,
            y: (self.position.y - listener.position.y) as i64,
            z: (self.position.z - listener.position.z) as i64,
        };
        let d = self.spec_distance_to(listener);
        if d == 0 {
            0
        } else {
            clamp_spec(div_trunc(dot(listener.ear_axis, rel), d), -(SCALE as int), SCALE as int)
        }
    }

    pub fn get_panning(&self, listener: &Listener) -> (p: i64)
        requires
            self.well_formed(),
            listener.well_formed(),
        ensures
            p == self.spec_panning(*listener),
            -SCALE <= p <= SCALE,
    {
        let rx = self.position.x - listener.position.x;
        let ry = self.position.y - listener.position.y;
        let rz = self.position.z - listener.position.z;
        let d = self.distance_to(listener);
        if d == 0 {
            0
        } else {
            proof {
                assert(-140737488355328 <= listener.ear_axis.x as int * rx as int
                    <= 140737488355328) by (nonlinear_arith)
                    requires
                        -131072 <= listener.ear_axis.x <= 131072,
                        -1073741824 <= rx <= 1073741824,
                ;
                assert(-140737488355328 <= listener.ear_axis.y as int * ry as int
                    <= 140737488355328) by (nonlinear_arith)
                    requires
                        -131072 <= listener.ear_axis.y <= 131072,
                        -1073741824 <= ry <= 1073741824,
                ;
                assert(-140737488355328 <= listener.ear_axis.z as int * rz as int
                    <= 140737488355328) by (nonlinear_arith)
                    requires
                        -131072 <= listener.ear_axis.z <= 131072,
                        -1073741824 <= rz <= 1073741824,
                ;
            }
            let dp: i64 = listener.ear_axis.x * rx + listener.ear_axis.y * ry
                + listener.ear_axis.z * rz;
            let q = div_trunc_i64(dp, d);
            clamp_i64(q, -SCALE, SCALE)
        }
    }
}

/// The listener distance of a well-formed spatial source stays within
/// `DIST_BOUND`, so every distance model accepts it.
pub proof fn lemma_distance_in_range(src: SpatialSource, listener: Listener)
    requires
        src.well_formed(),
        listener.well_formed(),
    ensures
        0 <= src.spec_distance_to(listener) <= DIST_BOUND as int,
        attenuation_args_ok(
            src.spec_distance_to(listener),
            src.radius as int,
            src.max_distance as int,
            src.rolloff_factor as int,
        ),
{
    let dx = src.position.x - listener.position.x;
    let dy = src.position.y - listener.position.y;
    let dz = src.position.z - listener.position.z;
    assert(0 <= dx * dx <= 1152921504606846976) by (nonlinear_arith)
        requires
            -1073741824 <= dx <= 1073741824,
    ;
    assert(0 <= dy * dy <= 1152921504606846976) by (nonlinear_arith)
        requires
            -1073741824 <= dy <= 1073741824,
    ;
    assert(0 <= dz * dz <= 1152921504606846976) by (nonlinear_arith)
        requires
            -1073741824 <= dz <= 1073741824,
    ;
    let sq = dist_sq(src.position, listener.position);
    lemma_sqrt_floor_exists(sq);
    let root = sqrt_floor(sq);
    assert(root <= 2147483648) by (nonlinear_arith)
        requires
            root >= 0,
            root * root <= 3458764513820540928,
    ;
}

/// A playing source of either variant.
pub enum SoundSource {
    Generic(GenericSource),
    Spatial(SpatialSource),
}

impl SoundSource {
    pub open spec fn well_formed(self) -> bool {
        match self {
            SoundSource::Generic(g) => g.well_formed(),
            SoundSource::Spatial(s) => s.well_formed(),
        }
    }

    /// The generic payload common to both variants.
    pub open spec fn spec_generic(self) -> GenericSource {
        match self {
            SoundSource::Generic(g) => g,
            SoundSource::Spatial(s) => s.generic,
        }
    }
}

} // verus!
