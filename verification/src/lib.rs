//! A capability bridge between a host process and the scripts of user-supplied
//! mods.
//!
//! A mod's script may ask the host for three things: to map a native module
//! into the process, to read or write an entry of a virtual archive overlay,
//! and to read a file of the mod's own directory. Every request is decided
//! here, against the mod's trust flag and against the rule that a mod's paths
//! stay inside its own directory, before anything touches memory or disk.
//!
//! The crate performs no I/O. Where a request needs outside work (mapping a
//! native image, reading a file) the bridge hands out what is to be done and
//! takes the outcome back.

pub mod bridge;
pub mod error;
pub mod keyed;
pub mod overlay;
pub mod path;
pub mod registry;
pub mod state;
