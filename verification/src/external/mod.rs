//! Calls into outside crates. Every item here that carries a contract without
//! proof says which outside function it rests on.
pub mod codec;
pub mod crypto;
pub mod names;
pub mod random;
