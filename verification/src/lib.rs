//! Sandboxed text substitution for chat messages.
//!
//! A chat message that replies to another message and holds substitution
//! expressions is answered with the text of the referenced message after the
//! substitutions; an edit of the message edits the answer. The expressions
//! run in a sandbox, a bounded number of runs at a time.
//!
//! This library decides and computes; it does no input or output. Its
//! modules, leaves first:
//!
//! - [`filter`] finds the substitution expressions in a text;
//! - [`identity`] gives messages and replies their keys and values in the
//!   correlation store;
//! - [`sandbox`] builds the command that runs expressions in isolation;
//! - [`pipeline`] is the protocol of one sandboxed run;
//! - [`dispatch`] is the handling of one update of the transport.

use vstd::prelude::*;

pub mod dispatch;
pub mod filter;
pub mod identity;
pub mod pipeline;
pub mod sandbox;
pub mod update;

verus! {

/// How many sandboxed runs may be in progress at once when the configuration
/// does not say.
pub const DEFAULT_MAX_PARALLEL: usize = 16;

/// The capacity of the concurrency gate when the configuration names none.
pub fn default_max_parallel() -> (capacity: usize)
    ensures
        capacity == DEFAULT_MAX_PARALLEL,
{
    DEFAULT_MAX_PARALLEL
}

} // verus!
