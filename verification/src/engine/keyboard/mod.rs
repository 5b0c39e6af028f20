//! Keys, and the batch of them that a tick works on.

pub mod keyboard;
