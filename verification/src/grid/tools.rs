//! The grid tools.

pub mod fill;
