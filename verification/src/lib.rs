pub mod bytes;
pub mod external;
pub mod fuzzer;
pub mod mutator;
pub mod runner;
pub mod worker;
