//! RustyWolf: the verified core of a small privacy-focused browser shell.

pub mod text;
pub mod address;
pub mod json;
pub mod browser;
pub mod chrome;
pub mod properties;
pub mod cli;
pub mod launch;
pub mod downloads;
pub mod laws;
