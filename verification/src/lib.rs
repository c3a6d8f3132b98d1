//! melonink — bit-exact scanline kernels of a Nintendo DS software renderer
//! (2D engine, 3D engine, display capture), with their contracts proved by
//! Verus, and the decision logic of the benchmark harness that runs them.
//!
//! Every kernel is a pure function of the renderer state it is handed (plain
//! values and buffers); the contracts state, per pixel, exactly what the
//! kernel returns or writes.

pub mod arith;
pub mod composite;
pub mod texture;
pub mod texture_model;
pub mod renderpixel;
pub mod renderpixel_model;
pub mod line;
pub mod compose;
pub mod finalpass;
pub mod bg_affine;
pub mod bg;
pub mod sprite;
pub mod rasterizer;
pub mod bench;
pub mod suite;
pub mod ramverify;
pub mod simd;
pub mod symbolize;
pub mod config;
