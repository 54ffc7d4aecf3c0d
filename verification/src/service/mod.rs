//! The tools: what they decide before and after the services are asked.

pub mod coordinates;
pub mod departures;
pub mod monitor;
pub mod planning;
pub mod report;
pub mod state;
pub mod station;
pub mod when;
