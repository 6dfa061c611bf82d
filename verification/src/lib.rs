// Verified core of a tool that copies documents between two database
// endpoints, at database or collection granularity, with an optional row cap.
//
// The library owns the logic: the batch copy pipeline (cursor reads staged
// into fixed-size batches, each flushed as one bulk insert), the
// multi-collection orchestration loop, the error taxonomy with
// partial-progress counts, saved-connection bookkeeping, and the plain string
// work around them (masking credentials in a connection string, parsing a row
// cap). Live connections, prompts and persistence stay outside and drive the
// state machines declared here.

pub mod config;
pub mod errors;
pub mod orchestrate;
pub mod pipeline;
pub mod text;
