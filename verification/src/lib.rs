//! Decoder for tablet stroke files and the rules by which their strokes are drawn.
//!
//! A stroke file is a little-endian byte stream: a header that names the version, then
//! one page of layers, lines and points. [`LinesData::parse`] turns the bytes into a
//! document; [`layout`] says as a mathematical function what the bytes mean, and
//! [`encoding`] which bytes a document is laid out in.
//!
//! The [`render`] modules decide what is drawn for a page: which lines leave ink, in
//! which colour and stroke, along which of their points, in which frame. They give the
//! decisions as plain values and leave the markup and the arithmetic to the caller.
//!
//! Single-precision numbers are carried as their bit patterns ([`Real`]). The library
//! never computes with them, so everything it states is exact.

pub mod bytes;
pub mod codes;
pub mod encoding;
pub mod header;
pub mod layout;
pub mod model;
pub mod palette;
pub mod parse;
pub mod render;
pub mod v3;
pub mod v5;

pub use codes::{brush_of_code, color_of_code};
pub use model::{
    layers_view, lines_view, pages_view, BrushType, Color, Error, ErrorView, Layer, Line, LineView,
    LinesData, LinesDataView, Page, Point, Real,
};
pub use palette::{LayerColor, LayerColorView, LayerColors};
pub use render::pdf::render_pdf;
pub use render::svg::render_svg;
pub use render::templates::template_snippet;
