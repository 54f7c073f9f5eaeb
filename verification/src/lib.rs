//! Locates a game installation, classifies its runtime environment, parses a
//! remote release feed into a catalog of installable artifacts, matches the
//! catalog against the detected environment, and drives a download-then-extract
//! installation of the chosen artifact.

pub mod archive;
pub mod artifact;
pub mod env;
pub mod install;
pub mod probe;
pub mod state;
pub mod text;
