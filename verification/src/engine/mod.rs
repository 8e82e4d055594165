//! The Unikraft execution engine.
//!
//! User code runs in ring 3, with page tables of its own, in the address space
//! of the kernel. Trampolines switch the page tables on the way there and back.

pub mod driver;
pub mod engine_loop;

pub use self::driver::UnikraftDriver;
pub use self::engine_loop::UnikraftLoop;
