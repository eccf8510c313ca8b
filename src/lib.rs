//! Launch orchestration and install pipeline of the BeastMine game launcher.
//!
//! Everything here is pure logic over plain values: paths are strings, the
//! platform is a value, and what lives on disk or in another process is handed
//! in by the caller.
pub mod classpath;
pub mod errors;
pub mod game;
pub mod install;
pub mod layout;
pub mod models;
pub mod runtime;
pub mod services;
pub mod text;
