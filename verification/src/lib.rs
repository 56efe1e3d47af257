//! A small structured console logger: level tags, aligned submodule
//! prefixes, optional color and timestamp, and pluggable line buffers.

pub mod buffer;
pub mod builder;
pub mod color;
pub mod log;
pub mod padding;
pub mod program_name;

pub use log::Log;
pub use builder::Builder as LogBuilder;
pub use program_name::ProgramName;
