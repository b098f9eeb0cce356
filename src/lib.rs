//! In-memory representation of a loaded Cairo virtual-machine program.
pub mod felt;
pub mod fibonacci;
pub mod hints;
pub mod identifier;
pub mod name_map;
pub mod program;
pub mod references;
pub mod relocatable;
