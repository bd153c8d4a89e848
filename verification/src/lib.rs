//! Dispatching batches of independent jobs to a batch queue or to the
//! local machine: chunking, submission with retries, status polling and
//! the clean-up of finished jobs' files.
//!
//! The library decides and renders; it runs no command and touches no
//! file. Its callers do that, and tell it what came of it.

pub mod program;
pub mod queue;
pub mod text;
pub mod trusted;
