//! Ingestion of star-system records from a remote catalog into a graph store.
//!
//! The library holds the decisions of the pipeline: which fields a detail
//! document must carry, how a document becomes a flat record, how a record is
//! encoded as node properties, when a write inserts a node, and how the units
//! of work of one run are scheduled under a concurrency cap and accounted for.
//! Network and store I/O are left to the caller.

pub mod json_text;
pub mod record;
pub mod writer;
pub mod scheduler;
