//! Generation and lifecycle management for executable wrapper shims.
//!
//! The library renders a wrapper script that re-executes a hidden original
//! binary with extra arguments and environment variables, the installer
//! script that swaps the two files, and the package-manager trigger hooks
//! that keep the pair consistent across install, upgrade and removal.
//! Everything here is pure text and path computation; reading and writing
//! files, and running the generated scripts, is left to the caller.

pub mod env;
pub mod error;
pub mod escape;
pub mod pacman_hook;
pub mod path;
pub mod script;
pub mod text;
pub mod wrapper;
