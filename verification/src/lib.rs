//! Directory-aware port reservation: ports, paths, reservations, plans and output.

pub mod text;
pub mod port;
pub mod error;
pub mod path;
pub mod reservation;
pub mod database;
pub mod config;
pub mod allocator;
pub mod group;
pub mod operations;
pub mod tag_map;
pub mod ordering;
pub mod output;
