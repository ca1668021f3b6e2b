//! Procedural ground-plane meshes and a free-flying first-person camera.
//!
//! All arithmetic is exact fixed-point: a real quantity `q` is stored as the
//! integer `q * 1_000_000` (see [`fixp::FX_ONE`]). This keeps every result a
//! deterministic function of the inputs, with contracts that pin each output
//! down exactly.

pub mod fixp;
pub mod flycam;
pub mod grid;
