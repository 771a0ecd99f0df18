//! Host-side data layer of a probe-based 2D global-illumination renderer.
//!
//! The crate defines the records and buffers that the lighting pipeline hands to
//! the graphics device every frame, together with their byte images: light
//! sources, light occluders, skylight masks, screen-space probes, camera
//! parameters and pass parameters.
//!
//! Every number that the device reads as a 32-bit float is held here as its
//! IEEE-754 bit pattern (see [`scalar::Scalar`]), so that a buffer can be
//! described, compared and laid out bit for bit. What number a pattern stands
//! for is said in whole numbers (see [`number`]); the one operation on numbers
//! that a buffer needs, the reciprocal, is computed in whole numbers too (see
//! [`reciprocal`]).

pub mod error;
pub mod scalar;
pub mod number;
pub mod reciprocal;
pub mod vector;
pub mod layout;
pub mod record;
pub mod buffer;
pub mod aabb;
pub mod light;
pub mod occluder;
pub mod skylight;
pub mod probe;
pub mod camera;
pub mod pass;
