//! What happens to the files of finished jobs.

pub mod dump;
