//! Text formatting of Word runs.

use vstd::prelude::*;

use crate::ir::style::Color;
use crate::text_util::str_eq;

verus! {

/// The color of a Word highlight name (`ST_HighlightColor`); `none` and
/// unknown names have none.
pub open spec fn highlight_color(name: Seq<char>) -> Option<Color> {
    if name == "yellow"@ {
        Some(Color { r: 255, g: 255, b: 0 })
    } else if name == "green"@ {
        Some(Color { r: 0, g: 255, b: 0 })
    } else if name == "cyan"@ {
        Some(Color { r: 0, g: 255, b: 255 })
    } else if name == "magenta"@ {
        Some(Color { r: 255, g: 0, b: 255 })
    } else if name == "blue"@ {
        Some(Color { r: 0, g: 0, b: 255 })
    } else if name == "red"@ {
        Some(Color { r: 255, g: 0, b: 0 })
    } else if name == "darkBlue"@ {
        Some(Color { r: 0, g: 0, b: 128 })
    } else if name == "darkCyan"@ {
        Some(Color { r: 0, g: 128, b: 128 })
    } else if name == "darkGreen"@ {
        Some(Color { r: 0, g: 128, b: 0 })
    } else if name == "darkMagenta"@ {
        Some(Color { r: 128, g: 0, b: 128 })
    } else if name == "darkRed"@ {
        Some(Color { r: 128, g: 0, b: 0 })
    } else if name == "darkYellow"@ {
        Some(Color { r: 128, g: 128, b: 0 })
    } else if name == "darkGray"@ {
        Some(Color { r: 128, g: 128, b: 128 })
    } else if name == "lightGray"@ {
        Some(Color { r: 192, g: 192, b: 192 })
    } else if name == "black"@ {
        Some(Color { r: 0, g: 0, b: 0 })
    } else if name == "white"@ {
        Some(Color { r: 255, g: 255, b: 255 })
    } else {
        None
    }
}

/// Resolve a Word highlight color name to its RGB color.
pub fn resolve_highlight_color(name: &str) -> (color: Option<Color>)
    ensures
        color == highlight_color(name@),
{
    if str_eq(name, "yellow") {
        Some(Color::new(255, 255, 0))
    } else if str_eq(name, "green") {
        Some(Color::new(0, 255, 0))
    } else if str_eq(name, "cyan") {
        Some(Color::new(0, 255, 255))
    } else if str_eq(name, "magenta") {
        Some(Color::new(255, 0, 255))
    } else if str_eq(name, "blue") {
        Some(Color::new(0, 0, 255))
    } else if str_eq(name, "red") {
        Some(Color::new(255, 0, 0))
    } else if str_eq(name, "darkBlue") {
        Some(Color::new(0, 0, 128))
    } else if str_eq(name, "darkCyan") {
        Some(Color::new(0, 128, 128))
    } else if str_eq(name, "darkGreen") {
        Some(Color::new(0, 128, 0))
    } else if str_eq(name, "darkMagenta") {
        Some(Color::new(128, 0, 128))
    } else if str_eq(name, "darkRed") {
        Some(Color::new(128, 0, 0))
    } else if str_eq(name, "darkYellow") {
        Some(Color::new(128, 128, 0))
    } else if str_eq(name, "darkGray") {
        Some(Color::new(128, 128, 128))
    } else if str_eq(name, "lightGray") {
        Some(Color::new(192, 192, 192))
    } else if str_eq(name, "black") {
        Some(Color::new(0, 0, 0))
    } else if str_eq(name, "white") {
        Some(Color::new(255, 255, 255))
    } else {
        None
    }
}

} // verus!
