//! The layout of version 5.

pub mod parse;
