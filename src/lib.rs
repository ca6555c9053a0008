pub mod decimal;
pub mod error;
pub mod ohlc;
pub mod time;
pub mod types;
pub mod store;
pub mod cycle;
pub mod config;
pub mod scheduler;
pub mod manager;
