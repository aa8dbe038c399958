//! The layout of version 3.

pub mod parse;
