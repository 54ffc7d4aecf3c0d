//! Train formations: which coaches a train has, and where they stop.

pub mod coach;
pub mod render;
pub mod search;
