//! GAIA, the GitHub automated installation application: the decisions it takes
//! while installing and removing applications from GitHub releases.

pub mod text;
pub mod path;
pub mod lowercase;
pub mod config;
pub mod repo;
pub mod cli;
pub mod filetype;
pub mod install;
pub mod decompress;
pub mod release;
pub mod run;
