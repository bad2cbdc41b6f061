//! Column-oriented database storage engine: column file headers, value
//! encoders, table metadata and query bookkeeping, each with its contract.
pub mod db;
pub mod external;
pub mod file_format_prep;
pub mod rest_api;
pub mod schemas;
