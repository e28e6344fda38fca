//! The append-only log of runs and the store of their return series.

pub mod csv_codec;
pub mod csv_logger;

pub use csv_logger::CsvLogger;
