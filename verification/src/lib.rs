//! Event ingestion library: validation of loosely structured JSON events,
//! record assembly with a server-side timestamp, JSON serialization, and
//! storage-key construction.

pub mod json;
pub mod validate;
pub mod persist;
