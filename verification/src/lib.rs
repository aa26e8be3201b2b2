//! A self-contained QR Code symbol encoder and renderer.
//!
//! The pipeline turns a byte payload, an error-correction level and an
//! optional minimum version into a finished module grid and a flat pixel
//! buffer: version selection, byte-mode data encoding, Reed-Solomon
//! error-correction coding, matrix placement, mask selection, rendering.

#![verifier::loop_isolation(false)]

pub mod api;
pub mod bits;
pub mod codec;
pub mod gf;
pub mod grid;
pub mod mask;
pub mod render;
pub mod tables;
pub mod types;
