//! The errors that the engine and the memory domain report.

use vstd::prelude::*;

verus! {

/// What can be wrong with the configuration of a memory domain.
#[derive(Debug, Clone, Copy, PartialEq, Eq, Structural)]
pub enum DomainError {
    /// The domain cannot be built on the given kind of memory resource.
    ConfigMissmatch,
}

/// Errors of the engine and the memory domain.
#[derive(Debug, Clone, Copy, PartialEq, Eq, Structural)]
pub enum DandelionError {
    /// The function configuration is not one this engine can run.
    ConfigMissmatch,
    /// The context handed to the engine is of another domain.
    ContextMissmatch,
    /// The engine was given a resource that it cannot run on.
    EngineResourceError,
    /// A context could not be allocated or does not hold what it has to hold.
    MemoryAllocationError,
    /// The offset of a write is not a multiple of the alignment of its items.
    WriteMisaligned,
    /// A write does not fit into the context.
    InvalidWrite,
    /// The offset of a read is not a multiple of the alignment of its items.
    ReadMisaligned,
    /// A read reaches beyond the context.
    InvalidRead,
    /// The memory domain could not be set up.
    DomainError(DomainError),
}

/// An error that ends the run of a function.
#[derive(Debug, PartialEq, Eq)]
pub enum RunError<E> {
    /// The engine raised it.
    Engine(DandelionError),
    /// What sets up the inputs or reads the outputs raised it.
    Interface(E),
}

} // verus!
