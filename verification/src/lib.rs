//! Verified core of a package-sync tool: parse a package manifest,
//! compare it against the set of installed packages, and render the
//! install command that closes the gap.

pub mod errors;
pub mod paclist;
pub mod pacman;
pub mod text;
