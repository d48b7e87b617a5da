//! Core logic of `cage`: materializing a layered, override-driven
//! multi-container project description into concrete compose documents,
//! tracking the external source repositories that services build from,
//! resolving command targets, and planning lifecycle-hook runs.
//!
//! Everything here is pure logic over plain values: reading directories,
//! writing files and running processes are left to the surrounding binary,
//! which feeds listings and file contents in and carries plans out.

pub mod act_on;
pub mod compose;
pub mod default_tags;
pub mod errors;
pub mod ext;
pub mod hook;
pub mod plugins;
pub mod pod;
pub mod project;
pub mod repos;
pub mod util;
