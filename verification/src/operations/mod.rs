//! Reservation operations using the plan-execute pattern.

pub mod plan;
pub mod reserve;
pub mod release;
pub mod executor;
pub mod migrate;
pub mod cleanup;
pub mod reserve_group;
pub mod autoreserve;
pub mod init;
pub mod inference;
