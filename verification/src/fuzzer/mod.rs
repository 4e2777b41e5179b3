pub mod error;
pub mod stats;
