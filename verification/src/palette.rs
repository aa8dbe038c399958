//! The output colours of a layer.

use vstd::prelude::*;
use crate::model::Color;

verus! {

/// The output colour of each ink colour on one layer, as CSS colour values.
#[derive(Clone, Debug, PartialEq, Eq)]
pub struct LayerColor {
    pub black: String,
    pub grey: String,
    pub white: String,
    pub blue: String,
    pub red: String,
}

/// What a [`LayerColor`] holds, as a mathematical value.
pub ghost struct LayerColorView {
    pub black: Seq<char>,
    pub grey: Seq<char>,
    pub white: Seq<char>,
    pub blue: Seq<char>,
    pub red: Seq<char>,
}

impl LayerColorView {
    /// The output colour of an ink colour.
    pub open spec fn of(self, color: Color) -> Seq<char> {
        match color {
            Color::Black => self.black,
            Color::Grey => self.grey,
            Color::White => self.white,
            Color::Blue => self.blue,
            Color::Red => self.red,
        }
    }
}

impl View for LayerColor {
    type V = LayerColorView;

    open spec fn view(&self) -> LayerColorView {
        LayerColorView {
            black: self.black@,
            grey: self.grey@,
            white: self.white@,
            blue: self.blue@,
            red: self.red@,
        }
    }
}

impl LayerColor {
    /// The output colour of an ink colour.
    pub fn of(&self, color: Color) -> (r: &str)
        ensures
            r@ == self@.of(color),
    {
        match color {
            Color::Black => self.black.as_str(),
            Color::Grey => self.grey.as_str(),
            Color::White => self.white.as_str(),
            Color::Blue => self.blue.as_str(),
            Color::Red => self.red.as_str(),
        }
    }
}

impl Default for LayerColor {
    /// The colours of the tablet's own display.
    fn default() -> (r: LayerColor)
        ensures
            r@ == (LayerColorView {
                black: "black"@,
                grey: "#bfbfbf"@,
                white: "white"@,
                blue: "#0062cc"@,
                red: "#d90707"@,
            }),
    {
        LayerColor {
            black: "black".to_owned(),
            grey: "#bfbfbf".to_owned(),
            white: "white".to_owned(),
            blue: "#0062cc".to_owned(),
            red: "#d90707".to_owned(),
        }
    }
}

/// The palettes of a page: one per layer, from bottom to top.
#[derive(Clone, Debug, Default, PartialEq, Eq)]
pub struct LayerColors {
    pub colors: Vec<LayerColor>,
}

/// Palettes as mathematical values, in order.
pub open spec fn palettes_view(colors: Seq<LayerColor>) -> Seq<LayerColorView> {
    Seq::new(colors.len(), |i: int| colors[i]@)
}

impl View for LayerColors {
    type V = Seq<LayerColorView>;

    open spec fn view(&self) -> Seq<LayerColorView> {
        palettes_view(self.colors@)
    }
}

} // verus!
