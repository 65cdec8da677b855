//! Reading kernel-produced byte streams as sequences of fixed-layout records.
//!
//! A kernel-side producer streams raw bytes through a descriptor-backed
//! session.  This crate opens such a session from a link handle, reads the
//! stream either in bulk or incrementally, and reconstructs the fixed-size
//! records it carries, handling end-of-stream, read errors, and descriptor
//! cleanup on every exit path.

use vstd::prelude::*;

pub mod drain;
pub mod error;
pub mod iter;
pub mod record;

pub use drain::DrainReport;
pub use drain::DrainStatus;
pub use drain::MemSession;
pub use drain::ReadOutcome;
pub use drain::append_chunk;
pub use drain::drain_mem;
pub use error::Error;
pub use iter::Iter;
pub use iter::Link;
pub use iter::OpenIter;
pub use iter::drain_created;
pub use iter::drain_session;
pub use record::Record;
pub use record::TaskStat;

verus! {

} // verus!
