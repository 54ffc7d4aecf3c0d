//! The Open Journey Planner: station search, trip planning and departure boards.

pub mod client;
pub mod departure;
pub mod drafts;
pub mod leg;
pub mod places;
pub mod request;
pub mod retry;
pub mod station;
pub mod suggest;
pub mod tags;
pub mod trip;
