//! Fixed-point audio rendering core: per-source gain and panning, click-free
//! gain interpolation into a shared mix buffer, distance attenuation, and a
//! dual-strategy renderer (plain stereo panning or HRTF convolution), together
//! with a small window-widget state model.
//!
//! All signal values are Q16 fixed point: the constant [`math::SCALE`] stands
//! for 1.0. Every arithmetic step is stated exactly in the contracts, so the
//! mixing laws (superposition, first-tick flatness, steady-state identity,
//! distance monotonicity) are proved rather than sampled.

pub mod context;
pub mod hrtf;
pub mod listener;
pub mod math;
pub mod renderer;
pub mod source;
pub mod window;

