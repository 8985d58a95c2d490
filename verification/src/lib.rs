//! Local lifecycle of versioned SDKs kept in the SDKMAN directory layout.
//!
//! Every candidate owns a directory that holds one subdirectory per installed
//! version and a symbolic link `current` that selects the active one. The
//! library decides; its caller touches the disk and the network.

pub mod api;
pub mod commands;
pub mod config;
pub mod cut;
pub mod downloader;
pub mod error;
pub mod installer;
pub mod laws;
pub mod models;
pub mod parser;
pub mod paths;
pub mod scanner;
pub mod std_text;
pub mod store;
pub mod symlink;
pub mod text;
