//! Planning logic for the weekly assignment planner: calendar event handling,
//! slot allocation, Daylite record normalisation and the local store rules.

pub mod calendar;
pub mod daylite;
pub mod dates;
pub mod health;
pub mod holidays;
pub mod local_store;
pub mod sort;
pub mod text;
