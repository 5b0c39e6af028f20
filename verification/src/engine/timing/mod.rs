//! Measuring how long a tick took.

pub mod delta;
