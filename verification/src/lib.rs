//! An interactive raymarching viewer's core logic: shader hot-reload with
//! include resolution and atomic pipeline swap, an orbit camera controller
//! over fixed-point arithmetic, and the fixed-layout uniform packing.
//!
//! GPU submission, windowing and file reads stay outside; callers hand the
//! library plain values (file timestamps, source bytes, pointer positions)
//! and receive plain values back.

pub mod camera;
pub mod fileobserver;
pub mod fx;
pub mod raymarch_pipeline;
pub mod shader;
pub mod utils;
pub mod vec3;
