//! Conditional formatting of spreadsheet cells: icon sets.

use vstd::prelude::*;

use crate::ir::style::Color;
use crate::text_util::str_eq;

verus! {

/// Excel's red icon band color (sampled from Excel's own PDF output).
pub open spec fn icon_red() -> Color {
    Color { r: 214, g: 85, b: 50 }
}

/// Excel's yellow icon band color.
pub open spec fn icon_yellow() -> Color {
    Color { r: 234, g: 191, b: 87 }
}

/// Excel's green icon band color.
pub open spec fn icon_green() -> Color {
    Color { r: 104, g: 164, b: 144 }
}

/// Excel's gray icon band color.
pub open spec fn icon_gray() -> Color {
    Color { r: 128, g: 128, b: 128 }
}

/// Excel's black icon band color.
pub open spec fn icon_black() -> Color {
    Color { r: 0, g: 0, b: 0 }
}

/// The colored arrows of `3Arrows`.
pub open spec fn colored_arrows_3() -> Seq<(Seq<char>, Option<Color>)> {
    seq![("\u{2193}"@, Some(icon_red())), ("\u{2192}"@, Some(icon_yellow())), ("\u{2191}"@, Some(icon_green()))]
}

/// The colored arrows of `4Arrows`.
pub open spec fn colored_arrows_4() -> Seq<(Seq<char>, Option<Color>)> {
    seq![("\u{2193}"@, Some(icon_red())), ("\u{2198}"@, Some(icon_yellow())), ("\u{2197}"@, Some(icon_yellow())), ("\u{2191}"@, Some(icon_green()))]
}

/// The colored arrows of `5Arrows`.
pub open spec fn colored_arrows_5() -> Seq<(Seq<char>, Option<Color>)> {
    seq![("\u{2193}"@, Some(icon_red())), ("\u{2198}"@, Some(icon_yellow())), ("\u{2192}"@, Some(icon_yellow())), ("\u{2197}"@, Some(icon_yellow())), ("\u{2191}"@, Some(icon_green()))]
}

/// The glyph and color of each band of an OOXML icon set, low band first.
/// An empty type means the default `3TrafficLights1`; an unknown one falls
/// back to colored arrows of the requested band count (icon sets have three
/// to five bands: fewer are drawn with three arrows, more with five).
pub open spec fn icon_glyphs(set_type: Seq<char>, band_count: nat) -> Seq<(Seq<char>, Option<Color>)> {
    let t = if set_type.len() == 0 {
        "3TrafficLights1"@
    } else {
        set_type
    };
    if t == "3TrafficLights1"@ || t == "3TrafficLights2"@ || t == "3Signs"@ {
        seq![("\u{25cf}"@, Some(icon_red())), ("\u{25cf}"@, Some(icon_yellow())), ("\u{25cf}"@, Some(icon_green()))]
    } else if t == "4TrafficLights"@ {
        seq![("\u{25cf}"@, Some(icon_black())), ("\u{25cf}"@, Some(icon_red())), ("\u{25cf}"@, Some(icon_yellow())), ("\u{25cf}"@, Some(icon_green()))]
    } else if t == "3Symbols"@ || t == "3Symbols2"@ {
        seq![("\u{2717}"@, Some(icon_red())), ("!"@, Some(icon_yellow())), ("\u{2713}"@, Some(icon_green()))]
    } else if t == "3Flags"@ {
        seq![("\u{2691}"@, Some(icon_red())), ("\u{2691}"@, Some(icon_yellow())), ("\u{2691}"@, Some(icon_green()))]
    } else if t == "3Arrows"@ {
        colored_arrows_3()
    } else if t == "3ArrowsGray"@ {
        seq![("\u{2193}"@, Some(icon_gray())), ("\u{2192}"@, Some(icon_gray())), ("\u{2191}"@, Some(icon_gray()))]
    } else if t == "4Arrows"@ {
        colored_arrows_4()
    } else if t == "4ArrowsGray"@ {
        seq![("\u{2193}"@, Some(icon_gray())), ("\u{2198}"@, Some(icon_gray())), ("\u{2197}"@, Some(icon_gray())), ("\u{2191}"@, Some(icon_gray()))]
    } else if t == "5Arrows"@ {
        colored_arrows_5()
    } else if t == "5ArrowsGray"@ {
        seq![("\u{2193}"@, Some(icon_gray())), ("\u{2198}"@, Some(icon_gray())), ("\u{2192}"@, Some(icon_gray())), ("\u{2197}"@, Some(icon_gray())), ("\u{2191}"@, Some(icon_gray()))]
    } else if band_count >= 5 {
        colored_arrows_5()
    } else if band_count == 4 {
        colored_arrows_4()
    } else {
        colored_arrows_3()
    }
}

/// The glyph views of icon bands.
pub open spec fn glyphs_view(glyphs: Seq<(&'static str, Option<Color>)>) -> Seq<(Seq<char>, Option<Color>)> {
    glyphs.map_values(|g: (&'static str, Option<Color>)| (g.0@, g.1))
}

/// Map an OOXML icon set type to its per-band glyphs and colors, low band
/// first.
pub fn icon_set_glyphs(set_type: &str, band_count: usize) -> (glyphs: Vec<(&'static str, Option<Color>)>)
    ensures
        glyphs_view(glyphs@) == icon_glyphs(set_type@, band_count as nat),
{
    let t: &str = if set_type.is_empty() {
        "3TrafficLights1"
    } else {
        set_type
    };
    let red = Color::new(214, 85, 50);
    let yellow = Color::new(234, 191, 87);
    let green = Color::new(104, 164, 144);
    let gray = Color::new(128, 128, 128);
    let black = Color::new(0, 0, 0);
    let glyphs = if str_eq(t, "3TrafficLights1") || str_eq(t, "3TrafficLights2") || str_eq(t, "3Signs") {
        vec![("\u{25cf}", Some(red)), ("\u{25cf}", Some(yellow)), ("\u{25cf}", Some(green))]
    } else if str_eq(t, "4TrafficLights") {
        vec![("\u{25cf}", Some(black)), ("\u{25cf}", Some(red)), ("\u{25cf}", Some(yellow)), ("\u{25cf}", Some(green))]
    } else if str_eq(t, "3Symbols") || str_eq(t, "3Symbols2") {
        vec![("\u{2717}", Some(red)), ("!", Some(yellow)), ("\u{2713}", Some(green))]
    } else if str_eq(t, "3Flags") {
        vec![("\u{2691}", Some(red)), ("\u{2691}", Some(yellow)), ("\u{2691}", Some(green))]
    } else if str_eq(t, "3Arrows") {
        vec![("\u{2193}", Some(red)), ("\u{2192}", Some(yellow)), ("\u{2191}", Some(green))]
    } else if str_eq(t, "3ArrowsGray") {
        vec![("\u{2193}", Some(gray)), ("\u{2192}", Some(gray)), ("\u{2191}", Some(gray))]
    } else if str_eq(t, "4Arrows") {
        vec![("\u{2193}", Some(red)), ("\u{2198}", Some(yellow)), ("\u{2197}", Some(yellow)), ("\u{2191}", Some(green))]
    } else if str_eq(t, "4ArrowsGray") {
        vec![("\u{2193}", Some(gray)), ("\u{2198}", Some(gray)), ("\u{2197}", Some(gray)), ("\u{2191}", Some(gray))]
    } else if str_eq(t, "5Arrows") {
        vec![("\u{2193}", Some(red)), ("\u{2198}", Some(yellow)), ("\u{2192}", Some(yellow)), ("\u{2197}", Some(yellow)), ("\u{2191}", Some(green))]
    } else if str_eq(t, "5ArrowsGray") {
        vec![("\u{2193}", Some(gray)), ("\u{2198}", Some(gray)), ("\u{2192}", Some(gray)), ("\u{2197}", Some(gray)), ("\u{2191}", Some(gray))]
    } else if band_count >= 5 {
        vec![("\u{2193}", Some(red)), ("\u{2198}", Some(yellow)), ("\u{2192}", Some(yellow)), ("\u{2197}", Some(yellow)), ("\u{2191}", Some(green))]
    } else if band_count == 4 {
        vec![("\u{2193}", Some(red)), ("\u{2198}", Some(yellow)), ("\u{2197}", Some(yellow)), ("\u{2191}", Some(green))]
    } else {
        vec![("\u{2193}", Some(red)), ("\u{2192}", Some(yellow)), ("\u{2191}", Some(green))]
    };
    assert(glyphs_view(glyphs@) =~= icon_glyphs(set_type@, band_count as nat));
    glyphs
}

} // verus!
