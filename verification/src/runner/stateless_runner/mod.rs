pub mod aptos_runner;
pub mod aptos_runner_utils;
pub mod laws;
