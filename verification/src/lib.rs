//! Verified core of a procedural wood-grain texture synthesizer.
//!
//! A texture is a raster of concentric rings, twisted by turbulence and
//! coloured between two tones. This crate proves everything discrete about
//! producing one:
//!
//! * [`validate`]: which requests are accepted;
//! * [`Noise`]: the shape of the noise field and the toroidal lookup of the
//!   four cells that a smooth sample blends;
//! * [`octave_sizes`]: the sizes at which turbulence samples the field;
//! * [`render`] and [`Raster`]: the row-major pixel loop and its output;
//! * [`Raster::brighten`]: the clamped brightness adjustment;
//! * [`wood`](crate::wood::wood): the whole sequence, from validation to the
//!   finished raster.
//!
//! The continuous arithmetic (interpolation weights, the ring sinusoid, the
//! blend between the two tones) and the random draws are supplied by the
//! caller as closures. Real numbers cross that boundary as IEEE 754 binary64
//! encodings, which [`binary64`] knows how to read.
//!
//! One function is taken on trust rather than proved: the call into the
//! `image` crate behind [`Raster::brighten`].

pub mod binary64;
pub mod error;
pub mod grid;
pub mod noise;
pub mod profile;
pub mod raster;
pub mod turbulence;
pub mod wood;

pub use crate::error::InvalidParameter;
pub use crate::noise::Noise;
pub use crate::profile::WoodProfile;
pub use crate::raster::Raster;
pub use crate::turbulence::octave_sizes;
pub use crate::wood::{render, validate, wood};
