//! Cross-compile, deploy and run Rust binaries on embedded Linux devices: the
//! configuration model, device resolution and the command plans, verified.

pub mod build;
pub mod command;
pub mod config;
pub mod deploy;
pub mod device;
pub mod error;
pub mod listing;
pub mod remote;
pub mod resolve;
pub mod run;
pub mod strmap;
pub mod text;
pub mod toolchain;
