pub mod config;
pub mod decimal;
pub mod driver;
pub mod error;
pub mod harness;
pub mod name;
pub mod record;
pub mod scaler;
pub mod shuffle;
pub mod sink;
pub mod sweep;
