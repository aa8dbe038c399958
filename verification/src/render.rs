//! How a decoded page is drawn: which lines give ink, in which colour and style, along
//! which of their points.

pub mod pdf;
pub mod renderlib;
pub mod svg;
pub mod templates;
