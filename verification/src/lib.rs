//! A batch pipeline that turns raw text into question–answer pairs.
//!
//! The text is split into blank-line-separated chunks, each chunk is wrapped
//! into a chat-completion request, the service's JSON payload is parsed into
//! question–answer pairs, and each pair becomes a record for the tabular sink.
//! The pipeline driver tallies chunks and pairs and never aborts early.

use vstd::prelude::*;

pub mod chunk;
pub mod cron;
pub mod extract;
pub mod json;
pub mod pipeline;
pub mod prompt;

verus! {

} // verus!
