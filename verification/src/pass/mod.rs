//! Passes: how they are managed, and what they report.
pub mod collected;
pub mod downcast;
pub mod finalize;
pub mod leaves;
pub mod manager;
pub mod merge;
pub mod report;
pub mod run;
pub mod statistics;
pub mod tree;
