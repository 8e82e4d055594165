//! Verified core of the Unikraft execution engine.

pub mod ap_startup;
pub mod bytes;
pub mod engine;
pub mod errors;
pub mod memory_domain;
pub mod records;
pub mod x86_64;
