//! The integer, string and structural logic of a small ray tracer: command
//! line handling, backend selection, pixel grids, the sampling schedule, the
//! jitter hash, polygon triangulation, the layout of the GPU scene buffers and
//! the assembly of the final RGB image.

pub mod scene_defaults;
pub mod backend;
pub mod raster;
pub mod jitter;
pub mod render;
pub mod mesh;
pub mod decimal;
pub mod cli;
