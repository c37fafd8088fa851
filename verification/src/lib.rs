//! Tracking of problem pods across observation cycles, and per-node capacity
//! reports.
//!
//! The core is the snapshot differ: given the pods of interest of today and
//! of yesterday it says which are new, which are ongoing and which are
//! resolved. It is a pure function of its two inputs.
//!
//! - `identity`: the pod identity, the unit of comparison.
//! - `snapshot`: snapshots read as sets, and the set algebra on them.
//! - `differ`: the comparison itself and what it guarantees.
//! - `laws`: laws of the comparison, proved.
//! - `record`: decoded records, their validation, and format errors.
//! - `order`: the opt-in sorting of the result lists.
//! - `capacity`: the capacity report of a node.

pub mod capacity;
pub mod differ;
pub mod identity;
pub mod laws;
pub mod order;
pub mod record;
pub mod snapshot;
