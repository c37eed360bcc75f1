//! Maintenance decision engine for a liquid-staking pool.
//!
//! The engine is a pure function from a point-in-time snapshot of the
//! on-ledger accounts relevant to the pool (`state::SolidoState`) to at most
//! one corrective action (`maintenance::MaintenanceOutput`). It never touches
//! the ledger itself: acquiring the snapshot and submitting the chosen action
//! are left to the caller.

pub mod token;
pub mod duty;
pub mod epoch;
pub mod state;
pub mod balance;
pub mod maintenance;
pub mod metrics;
pub mod wellformed;
