//! Adds pedalling cadence records to the trackpoints of a line-oriented
//! activity log, from the speed that each trackpoint already carries.

pub mod laws;
pub mod markers;
pub mod path;
pub mod record;
pub mod scanner;
pub mod speed;
pub mod stream;
