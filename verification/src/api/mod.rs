//! The services that the server asks for data.

pub mod formation;
pub mod gtfs_realtime;
pub mod gtfs_rt;
pub mod ojp;
