//! Core of a remotely controllable 2D drawing canvas.
//!
//! External processes issue binary command frames (draw a line, pan, zoom,
//! query coordinates, manage layers); the engine decodes them, mutates a
//! store of named geometry layers and a camera transform, and encodes the
//! replies and the outbound input-event notifications. This crate holds the
//! command-driven engine: the wire codec, the layer store with its
//! index-validity invariant, the geometry builder, the camera state, and the
//! dispatcher. Scalars travel as raw IEEE-754 bit patterns; the arithmetic
//! on them is supplied by the host through [`backend::MathBackend`].

pub mod backend;
pub mod camera;
pub mod codec;
pub mod geometry;
pub mod laws;
pub mod layers;
pub mod stage;
