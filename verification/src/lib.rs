//! A takt-time production line: work-units advance one station per tick while
//! work teams burn scheduled labor against outstanding task workload.
//!
//! All quantities are exact integers. Durations are in thousandths of a time
//! unit; a team's efficiency factor is in thousandths, so `1000` stands for a
//! full factor of one; a team's labor budget for one tick is headcount times
//! factor times duration. Workloads and budgets share that product scale: one
//! person-time-unit of labor is `1_000_000`.
use vstd::prelude::*;

pub mod task;
pub mod msn;
pub mod station;
pub mod sot;
pub mod hangar;
pub mod settings;
pub mod sim;
pub mod laws;

verus! {

/// Largest workload a single task may carry, in labor units.
pub const MAX_WORKLOAD: u64 = 0x100_0000_0000;

/// Largest number of tasks one work-unit may own.
pub const MAX_TASKS: usize = 100_000;

/// An efficiency factor of exactly one, in thousandths; also the largest
/// factor a team may have.
pub const CVAT_ONE: u64 = 1000;

/// Largest tick duration, in time units.
pub const MAX_TACT: u64 = 1_000_000;

} // verus!
