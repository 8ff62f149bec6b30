//! The styling the whole site shares.

pub mod theme;
