//! Bookkeeping core of a grid-trading venue: price ladders, per-slot
//! inventories, fee splitting, fill settlement and the grid lifecycle.

pub mod constants;
pub mod error;
pub mod math;
pub mod instruction;
pub mod state;
pub mod ladder;
pub mod settlement;
pub mod transfer;
pub mod processor;
