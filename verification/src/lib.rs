//! A small digit-classification engine: decoders for the image and label
//! containers, a deterministic builder for layered networks, and the
//! decisions of the forward pass.

pub mod error;
pub mod container;
pub mod forward;
pub mod generator;
pub mod image;
pub mod network;
