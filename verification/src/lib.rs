//! Engine for backing up the collections of a paginated REST service into
//! per-resource JSON documents: a size estimator that searches for the end of
//! a collection without a count endpoint, a streamer that turns a sequence of
//! pages into one well-formed JSON document, and a work queue that hands
//! resources to a bounded set of workers exactly once.

pub mod client;
pub mod coordinator;
pub mod doc;
pub mod page;
pub mod estimator;
pub mod sim;
pub mod streamer;
pub mod utils;
pub mod writer;
