pub mod function_laws;
pub mod laws;
pub mod stateful_worker;
