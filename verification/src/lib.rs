//! Ingestion and aggregation of a corpus of columnar game-data files:
//! selecting object keys from a paged listing, accounting for the bytes of a
//! download, resolving the required columns of a file, decoding its rows, and
//! counting rows by month and by time control.

pub mod record;
pub mod text;
pub mod counts;
pub mod stats;
pub mod reader;
pub mod listing;
pub mod fetch;
pub mod pipeline;
