//! Planning of file renames: naming styles, pattern dispatch, detection of
//! executables and package roots, and an optional date prefix.

pub mod text;
pub mod case;
pub mod case_laws;
pub mod pattern;
pub mod config;
pub mod detect;
pub mod stamp;
pub mod rename;
