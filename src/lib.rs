//! Generation and management of one-time-pad key material.

pub mod pad;
pub mod parsers;
pub mod random;
pub mod utils;
