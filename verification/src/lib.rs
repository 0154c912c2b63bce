//! Windowed CPU and memory usage reports for the workloads of an account.
//!
//! The library holds what is decided and computed on the way from raw metric
//! samples to report documents: the connection string of a session, the lookup
//! in the namespace registry, the aggregation pipeline that is handed to the
//! store, the run of a pipeline up to the end of its output, the fan-out of
//! one aggregation per namespace, and an evaluation of the pipeline over
//! samples held in memory, which says what the store is asked to compute.
//!
//! Nothing here talks to the store. The caller opens the session, sends what
//! the library has planned, and hands back what the store answered.

pub mod aggregate;
pub mod calendar;
pub mod document;
pub mod error;
pub mod execution;
pub mod namespace_model;
pub mod orchestrator;
pub mod pipeline;
pub mod report;
pub mod report_repository;
pub mod sample;
pub mod secret;
pub mod sorting;
pub mod summary;
pub mod text;
pub mod window;
