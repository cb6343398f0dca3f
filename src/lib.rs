//! Calendar arithmetic and sexagesimal notation for celestial-coordinate work.

pub mod coords;
pub mod time;
