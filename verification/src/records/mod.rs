//! Time points of function executions.
//!
//! A recorder notes at which cycle an execution passes each of its record
//! points. Several recorders can share the time points of one execution; those
//! of the executions that it started hang below it. Finished executions are
//! collected in an archive, which gives a summary of them.

pub mod archive;
pub mod point;
pub mod recorder;
pub mod text;
pub mod timestamp;

pub use self::archive::{Archive, ArchiveInit};
pub use self::point::RecordPoint;
pub use self::recorder::{Recorder, TimestampTable};
pub use self::timestamp::{FunctionId, FunctionTimestamp};
