//! A small desktop-companion library for a command-line synchronization tool.
//!
//! The heart of the crate is the settings store: loading a flat `KEY=value`
//! configuration file into a record of recognized keys, and saving such a
//! record back while preserving every unrelated line verbatim. Around it sit
//! a few pure helpers that the surrounding application uses: path resolution
//! from explicit components, command-line construction for the sync
//! subprocess, and the selection of the first existing database candidate.

pub mod laws;
pub mod lines;
pub mod locate;
pub mod paths;
pub mod settings;
pub mod sync;
pub mod text;

use vstd::prelude::*;

verus! {

/// The greeting shown by the application shell when a name is submitted.
pub fn greet(name: &str) -> (r: String)
    ensures
        r@ == "Hello, "@ + name@ + "! You've been greeted from Rust!"@,
{
    let mut r = String::from_str("Hello, ");
    r.append(name);
    r.append("! You've been greeted from Rust!");
    r
}

} // verus!
