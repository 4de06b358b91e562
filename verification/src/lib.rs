//! Verified core logic of the Deskulpt desktop widget platform.

pub mod bundler;
pub mod catalog;
pub mod config;
pub mod fs;
pub mod index;
pub mod logging;
pub mod persist;
pub mod persistence;
pub mod plugin;
pub mod registry;
pub mod settings;
pub mod setup;
pub mod starter;
pub mod string_map;
pub mod text;
