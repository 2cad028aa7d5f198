//! An embedded schema-migration runner.
//!
//! A [`migration::Migration`] is one versioned schema change unit: a SQL
//! script with a human-readable label. A [`runner::Runner`] applies an
//! ordered list of such units to a persistent database exactly once each,
//! recording every applied version in a durable ledger. The runner itself
//! holds only the decisions: which migration is due next, what the ledger
//! must look like, and when to abort. Executing a script against a live
//! connection is the caller's side of the bargain; the caller reports each
//! outcome back and the runner keeps the ledger consistent with what
//! actually succeeded.

use vstd::prelude::*;
use vstd::string::StringExecFns;

pub mod migration;
pub mod runner;

verus! {

/// Formats a friendly greeting around the given name.
pub fn greet(name: &str) -> (r: String)
    ensures
        r@ == "Hello, "@ + name@ + "! You've been greeted from Rust!"@,
{
    let mut s = "Hello, ".to_owned();
    s.append(name);
    s.append("! You've been greeted from Rust!");
    s
}

} // verus!
