//! Orchestration logic for gluing a kernel into a bootloader and packaging the
//! result as a bootable ISO image.
//!
//! The library holds the decisions: which packages take part, which tool runs
//! with which arguments and in which order, how build output is read, and when
//! a file change calls for a rebuild. Running the tools is left to the caller.

mod text;
pub mod path;
pub mod metadata;
pub mod workspace;
pub mod cargo;
pub mod pipeline;
pub mod sym;
pub mod iso;
pub mod clean;
pub mod watch;

pub use workspace::{CliOptions, Manifest, Manifests};
