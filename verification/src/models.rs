//! The records that the service exchanges with its callers.

pub mod config;
pub mod performance;
pub mod time_series;

pub use config::FactorConfig;
pub use performance::FactorPerformance;
pub use time_series::FactorReturns;
