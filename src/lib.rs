//! Filtering and routing of point records from many sources into many sinks.
//!
//! The library holds the decisions of the ingest-filter-route-write pipeline:
//! what a predicate accepts, how a read worker batches matches per sink, what a
//! sink writer appends, how progress is counted and reported, how the run is
//! configured and in which order it shuts down. Reading and writing files and
//! running the threads is left to the caller.
pub mod config;
pub mod error;
pub mod format;
pub mod laws;
pub mod orchestrator;
pub mod pipeline;
pub mod predicate;
pub mod processor;
pub mod progress;
pub mod record;
pub mod routing;
pub mod schema;
pub mod sink;

pub use error::MyError;
pub use processor::{process_points, LasProcessor};
