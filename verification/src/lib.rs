//! The verified logic of a Minecraft launcher: version manifests and their
//! inheritance, library resolution and the Java class path, rule evaluation,
//! placeholder substitution and the launch command line, Java detection and
//! version parsing, and account management.
use vstd::prelude::*;

pub mod commands;
pub mod config;
pub mod error;
pub mod game;
pub mod java;
pub mod launcher;
pub mod library;
pub mod models;
pub mod rules;
pub mod text;
pub mod utils;
pub mod version;

verus! {

} // verus!
