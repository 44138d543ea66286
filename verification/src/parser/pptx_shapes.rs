//! Line decorations of presentation shapes, and the shape a preset
//! geometry names.

use vstd::prelude::*;

use crate::ir::elements::{ArrowHead, BorderLineStyle};
use crate::parser::pptx_placeholders::opt_str;
use crate::text_util::str_eq;

verus! {

/// The border line style of a DrawingML preset dash (`a:prstDash val`).
pub open spec fn dash_style(val: Seq<char>) -> BorderLineStyle {
    if val == "dash"@ || val == "lgDash"@ || val == "sysDash"@ {
        BorderLineStyle::Dashed
    } else if val == "dot"@ || val == "sysDot"@ || val == "lgDashDot"@ {
        BorderLineStyle::Dotted
    } else if val == "dashDot"@ || val == "sysDashDot"@ {
        BorderLineStyle::DashDot
    } else if val == "lgDashDotDot"@ || val == "sysDashDotDot"@ {
        BorderLineStyle::DashDotDot
    } else {
        BorderLineStyle::Solid
    }
}

/// Map a DrawingML preset dash onto a border line style; unknown values
/// are solid.
pub fn pptx_dash_to_border_style(val: &str) -> (style: BorderLineStyle)
    ensures
        style == dash_style(val@),
{
    if str_eq(val, "dash") || str_eq(val, "lgDash") || str_eq(val, "sysDash") {
        BorderLineStyle::Dashed
    } else if str_eq(val, "dot") || str_eq(val, "sysDot") || str_eq(val, "lgDashDot") {
        BorderLineStyle::Dotted
    } else if str_eq(val, "dashDot") || str_eq(val, "sysDashDot") {
        BorderLineStyle::DashDot
    } else if str_eq(val, "lgDashDotDot") || str_eq(val, "sysDashDotDot") {
        BorderLineStyle::DashDotDot
    } else {
        BorderLineStyle::Solid
    }
}

/// The arrowhead of a line end type (`a:headEnd`/`a:tailEnd type`): every
/// decoration is drawn as a triangle.
pub open spec fn arrow_head(type_val: Option<Seq<char>>) -> ArrowHead {
    match type_val {
        Some(t) => if t == "triangle"@ || t == "stealth"@ || t == "arrow"@ || t == "diamond"@ || t == "oval"@ {
            ArrowHead::Triangle
        } else {
            ArrowHead::NoHead
        },
        None => ArrowHead::NoHead,
    }
}

/// Read a line end type.
pub fn parse_arrow_head(type_val: Option<&str>) -> (head: ArrowHead)
    ensures
        head == arrow_head(opt_str(type_val)),
{
    match type_val {
        Some(t) => if str_eq(t, "triangle") || str_eq(t, "stealth") || str_eq(t, "arrow") || str_eq(t, "diamond")
            || str_eq(t, "oval") {
            ArrowHead::Triangle
        } else {
            ArrowHead::NoHead
        },
        None => ArrowHead::NoHead,
    }
}

/// The direction of a block arrow preset.
#[derive(Debug, Clone, Copy, PartialEq, Eq, Structural)]
pub enum ArrowDir {
    Right,
    Left,
    Up,
    Down,
}

/// The shape a preset geometry (`a:prstGeom prst`) names, with the
/// adjust values it uses (in 1/100000, 50000 where the shape gives none).
/// Line-like shapes carry their arrowheads. The outline in points follows
/// from this and the shape's size and flips.
#[derive(Debug, Clone, Copy, PartialEq, Eq, Structural)]
pub enum PresetKind {
    Rectangle,
    Ellipse,
    /// A straight line corner to corner (`line`, `straightConnector1`).
    Line { head_end: ArrowHead, tail_end: ArrowHead },
    /// An L-shaped connector (`bentConnector2`, and `curvedConnector2`
    /// approximated by it).
    BentConnector2 { head_end: ArrowHead, tail_end: ArrowHead },
    /// A Z-shaped connector bending at `adj` (`bentConnector3`, and
    /// `curvedConnector3` approximated by it).
    BentConnector3 { adj: i64, head_end: ArrowHead, tail_end: ArrowHead },
    /// A connector with two bends at `adj1` and `adj2` (`bentConnector4`
    /// and `5`, and the curved connectors 4 and 5 approximated by it).
    BentConnector4 { adj1: i64, adj2: i64, head_end: ArrowHead, tail_end: ArrowHead },
    /// A rounded rectangle (corner radius a tenth of the shorter side).
    RoundedRectangle,
    /// A pentagon tab whose point is `adj` of the shorter side deep.
    HomePlate { adj: i64 },
    Triangle,
    RightTriangle,
    Diamond,
    /// A regular polygon with the given number of sides.
    RegularPolygon { sides: u32 },
    /// A block arrow.
    BlockArrow { dir: ArrowDir },
    /// A star with the given number of points.
    Star { points: u32 },
}

/// The `i`-th adjust value, 50000 where there is none.
pub open spec fn adjust_or_default(adj: Seq<i64>, i: int) -> i64 {
    if 0 <= i < adj.len() {
        adj[i]
    } else {
        50000
    }
}

/// The shape a preset geometry names; unknown presets are rectangles.
pub open spec fn preset_kind(prst: Seq<char>, adj: Seq<i64>, head_end: ArrowHead, tail_end: ArrowHead) -> PresetKind {
    if prst == "ellipse"@ {
        PresetKind::Ellipse
    } else if prst == "line"@ || prst == "straightConnector1"@ {
        PresetKind::Line { head_end, tail_end }
    } else if prst == "bentConnector2"@ || prst == "curvedConnector2"@ {
        PresetKind::BentConnector2 { head_end, tail_end }
    } else if prst == "bentConnector3"@ || prst == "curvedConnector3"@ {
        PresetKind::BentConnector3 { adj: adjust_or_default(adj, 0), head_end, tail_end }
    } else if prst == "bentConnector4"@ || prst == "bentConnector5"@ || prst == "curvedConnector4"@ || prst
        == "curvedConnector5"@ {
        PresetKind::BentConnector4 {
            adj1: adjust_or_default(adj, 0),
            adj2: adjust_or_default(adj, 1),
            head_end,
            tail_end,
        }
    } else if prst == "roundRect"@ {
        PresetKind::RoundedRectangle
    } else if prst == "homePlate"@ {
        PresetKind::HomePlate { adj: adjust_or_default(adj, 0) }
    } else if prst == "triangle"@ {
        PresetKind::Triangle
    } else if prst == "rtTriangle"@ {
        PresetKind::RightTriangle
    } else if prst == "diamond"@ {
        PresetKind::Diamond
    } else if prst == "pentagon"@ {
        PresetKind::RegularPolygon { sides: 5 }
    } else if prst == "hexagon"@ {
        PresetKind::RegularPolygon { sides: 6 }
    } else if prst == "octagon"@ {
        PresetKind::RegularPolygon { sides: 8 }
    } else if prst == "rightArrow"@ || prst == "arrow"@ {
        PresetKind::BlockArrow { dir: ArrowDir::Right }
    } else if prst == "leftArrow"@ {
        PresetKind::BlockArrow { dir: ArrowDir::Left }
    } else if prst == "upArrow"@ {
        PresetKind::BlockArrow { dir: ArrowDir::Up }
    } else if prst == "downArrow"@ {
        PresetKind::BlockArrow { dir: ArrowDir::Down }
    } else if prst == "star4"@ {
        PresetKind::Star { points: 4 }
    } else if prst == "star5"@ {
        PresetKind::Star { points: 5 }
    } else if prst == "star6"@ {
        PresetKind::Star { points: 6 }
    } else {
        PresetKind::Rectangle
    }
}

fn adjust_at(adj: &Vec<i64>, i: usize) -> (v: i64)
    ensures
        v == adjust_or_default(adj@, i as int),
{
    if i < adj.len() {
        adj[i]
    } else {
        50000
    }
}

/// Decide the shape a preset geometry names (see `preset_kind`); `adj`
/// holds the shape's adjust values (`a:gd fmla="val N"`) in order.
pub fn prst_to_shape_kind(prst: &str, adj: &Vec<i64>, head_end: ArrowHead, tail_end: ArrowHead) -> (k: PresetKind)
    ensures
        k == preset_kind(prst@, adj@, head_end, tail_end),
{
    if str_eq(prst, "ellipse") {
        PresetKind::Ellipse
    } else if str_eq(prst, "line") || str_eq(prst, "straightConnector1") {
        PresetKind::Line { head_end, tail_end }
    } else if str_eq(prst, "bentConnector2") || str_eq(prst, "curvedConnector2") {
        PresetKind::BentConnector2 { head_end, tail_end }
    } else if str_eq(prst, "bentConnector3") || str_eq(prst, "curvedConnector3") {
        PresetKind::BentConnector3 { adj: adjust_at(adj, 0), head_end, tail_end }
    } else if str_eq(prst, "bentConnector4") || str_eq(prst, "bentConnector5") || str_eq(prst, "curvedConnector4")
        || str_eq(prst, "curvedConnector5") {
        PresetKind::BentConnector4 { adj1: adjust_at(adj, 0), adj2: adjust_at(adj, 1), head_end, tail_end }
    } else if str_eq(prst, "roundRect") {
        PresetKind::RoundedRectangle
    } else if str_eq(prst, "homePlate") {
        PresetKind::HomePlate { adj: adjust_at(adj, 0) }
    } else if str_eq(prst, "triangle") {
        PresetKind::Triangle
    } else if str_eq(prst, "rtTriangle") {
        PresetKind::RightTriangle
    } else if str_eq(prst, "diamond") {
        PresetKind::Diamond
    } else if str_eq(prst, "pentagon") {
        PresetKind::RegularPolygon { sides: 5 }
    } else if str_eq(prst, "hexagon") {
        PresetKind::RegularPolygon { sides: 6 }
    } else if str_eq(prst, "octagon") {
        PresetKind::RegularPolygon { sides: 8 }
    } else if str_eq(prst, "rightArrow") || str_eq(prst, "arrow") {
        PresetKind::BlockArrow { dir: ArrowDir::Right }
    } else if str_eq(prst, "leftArrow") {
        PresetKind::BlockArrow { dir: ArrowDir::Left }
    } else if str_eq(prst, "upArrow") {
        PresetKind::BlockArrow { dir: ArrowDir::Up }
    } else if str_eq(prst, "downArrow") {
        PresetKind::BlockArrow { dir: ArrowDir::Down }
    } else if str_eq(prst, "star4") {
        PresetKind::Star { points: 4 }
    } else if str_eq(prst, "star5") {
        PresetKind::Star { points: 5 }
    } else if str_eq(prst, "star6") {
        PresetKind::Star { points: 6 }
    } else {
        PresetKind::Rectangle
    }
}

} // verus!
