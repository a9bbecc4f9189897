//! Host-side capability engine for a sandboxed guest runtime: a software
//! rasterizer, an audio channel mixer, a keyed resource registry and the
//! guest-memory bridge that guards them.
//!
//! Every operation takes the state it works on as an explicit argument;
//! nothing here is global.

pub mod abi;
pub mod animation;
pub mod audio;
pub mod bdf;
pub mod bezier;
pub mod blit;
pub mod clock;
pub mod error;
pub mod font;
pub mod gif;
pub mod host;
pub mod input;
pub mod lifecycle;
pub mod line;
pub mod loader;
pub mod memory;
pub mod mixer;
pub mod mixing;
pub mod outline;
pub mod png;
pub mod raster;
pub mod resources;
pub mod shapes;
pub mod state;
pub mod storage;
pub mod svg;
pub mod text;
pub mod typeset;
pub mod upload;
