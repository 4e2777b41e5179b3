pub mod aptos_runner;
pub mod laws;
