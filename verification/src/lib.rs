//! Ingestion and query core of a test-result service: the prefix index for
//! execution names, the NDJSON intake, the batching writer and its registry,
//! and the rules around them.

pub mod auth;
pub mod config;
pub mod db;
pub mod error;
pub mod lifecycle;
pub mod models;
pub mod query;
pub mod record;
pub mod routes;
pub mod seqs;
pub mod store;
pub mod stream;
pub mod suggestion;
pub mod sweeper;
pub mod text;
pub mod writer;

pub use models::{
    CreateTestResultResponse, Execution, ExecutionListResponse, Status, StreamResponse,
    SuggestedItem, TestResult,
};
