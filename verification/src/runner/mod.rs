pub mod abi_laws;
pub mod aptos_helpers;
pub mod call;
pub mod chain;
pub mod conversion_laws;
pub mod input_laws;
pub mod move_model;
pub mod move_value;
pub mod package;
pub mod setup;
pub mod stateful_runner;
pub mod stateless_runner;
pub mod table;
pub mod transaction;
