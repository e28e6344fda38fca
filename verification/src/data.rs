//! Planning and normalisation for the two data providers.

pub mod artemis;
pub mod calendar;
pub mod coinbase;
pub mod mappings;
pub mod table;

pub use artemis::ArtemisClient;
pub use coinbase::CoinbaseClient;
