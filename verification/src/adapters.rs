//! What depot reads from the programs and services it drives.
pub mod forge;
pub mod process;
pub mod sessions;
pub mod worktrees;
pub mod toon;
pub mod typesafe;
pub mod profiles;
