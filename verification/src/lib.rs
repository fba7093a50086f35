//! Base framework: application monitoring with lifecycle and metric events,
//! a middleware chain that inspects calls, the state behind a C interface,
//! and the bookkeeping behind a small command-line tool.

use vstd::prelude::*;

pub mod cli;
pub mod clock;
pub mod database;
pub mod dll_loader;
pub mod error;
pub mod interface;
pub mod logger;
pub mod middleware;
pub mod monitor;
pub mod strmap;
pub mod text;

verus! {

/// Framework version.
pub const VERSION: &'static str = "0.1.0";

/// Get framework version.
pub fn version() -> (v: &'static str)
    ensures
        v@ == "0.1.0"@,
{
    VERSION
}

} // verus!
