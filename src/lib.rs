//! A personal registry of development projects: where each one lives under a
//! configured root directory, what it is, and where it can be fetched from
//! when its directory is missing.
//!
//! Everything here is pure logic over plain values. Reading and writing the
//! registry document, prompting, cloning and deleting directories are done by
//! the caller, which hands the results to the functions of this crate.

pub mod parse;
pub mod text;
pub mod error;
pub mod paths;
pub mod config;
pub mod listing;
pub mod cli;
