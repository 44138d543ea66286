//! Document elements.

use vstd::prelude::*;

use super::style::{Color, ParagraphStyle, TabLeader, TextStyle};

verus! {

/// Border line style (dash pattern).
#[derive(Debug, Clone, Copy, PartialEq, Eq, Default, Structural)]
pub enum BorderLineStyle {
    #[default]
    Solid,
    Dashed,
    Dotted,
    DashDot,
    DashDotDot,
    Double,
    /// No border line (written `none` in OOXML).
    NoLine,
}

/// A single border side.
#[derive(Debug, Clone, Copy, PartialEq)]
pub struct BorderSide<N> {
    pub width: N,
    pub color: Color,
    pub style: BorderLineStyle,
}

/// Cell border specification.
#[derive(Debug, Clone, Copy, Default, PartialEq)]
pub struct CellBorder<N> {
    pub top: Option<BorderSide<N>>,
    pub bottom: Option<BorderSide<N>>,
    pub left: Option<BorderSide<N>>,
    pub right: Option<BorderSide<N>>,
}

/// Supported image formats.
#[derive(Debug, Clone, Copy, PartialEq, Eq, Structural)]
pub enum ImageFormat {
    Png,
    Jpeg,
    Gif,
    Bmp,
    Tiff,
    Svg,
}

/// The file extension of each image format.
pub open spec fn image_format_extension(format: ImageFormat) -> Seq<char> {
    match format {
        ImageFormat::Png => "png"@,
        ImageFormat::Jpeg => "jpeg"@,
        ImageFormat::Gif => "gif"@,
        ImageFormat::Bmp => "bmp"@,
        ImageFormat::Tiff => "tiff"@,
        ImageFormat::Svg => "svg"@,
    }
}

impl ImageFormat {
    /// Return the file extension for this image format.
    pub fn extension(&self) -> (ext: &'static str)
        ensures
            ext@ == image_format_extension(*self),
    {
        match self {
            Self::Png => "png",
            Self::Jpeg => "jpeg",
            Self::Gif => "gif",
            Self::Bmp => "bmp",
            Self::Tiff => "tiff",
            Self::Svg => "svg",
        }
    }
}

/// The kind of list: ordered (numbered) or unordered (bulleted).
#[derive(Debug, Clone, Copy, PartialEq, Eq, Structural)]
pub enum ListKind {
    Ordered,
    Unordered,
}

/// Numbering configuration for a specific list level.
#[derive(Debug, Clone, PartialEq)]
pub struct ListLevelStyle<N> {
    pub kind: ListKind,
    /// Optional Typst numbering pattern derived from Word's lvlText/numFmt.
    pub numbering_pattern: Option<String>,
    /// Whether parent numbers should be shown for nested ordered lists.
    pub full_numbering: bool,
    /// Optional concrete marker text for unordered bullet lists.
    pub marker_text: Option<String>,
    /// Optional concrete marker presentation resolved from the source format.
    pub marker_style: Option<TextStyle<N>>,
}

/// A list block containing items at various indent levels.
#[derive(Debug, Clone)]
pub struct List<N> {
    pub kind: ListKind,
    pub items: Vec<ListItem<N>>,
    /// Per-level list style overrides. Levels not present fall back to `kind`.
    pub level_styles: std::collections::BTreeMap<u32, ListLevelStyle<N>>,
}

/// A single list item with content and indent level.
#[derive(Debug, Clone)]
pub struct ListItem<N> {
    pub content: Vec<Paragraph<N>>,
    pub level: u32,
    /// Ordered list item number when this item begins a new numbering run.
    pub start_at: Option<u32>,
}

/// A paragraph consisting of styled text runs.
#[derive(Debug, Clone)]
pub struct Paragraph<N> {
    pub style: ParagraphStyle<N>,
    pub runs: Vec<Run<N>>,
}

/// A run of text with uniform formatting.
#[derive(Debug, Clone)]
pub struct Run<N> {
    pub text: String,
    pub style: TextStyle<N>,
    /// Optional hyperlink URL.
    pub href: Option<String>,
    /// Optional footnote/endnote content.
    pub footnote: Option<String>,
}

/// What a positioned frame's offset is measured from.
#[derive(Debug, Clone, Copy, PartialEq, Eq, Default, Structural)]
pub enum FrameAnchor {
    Page,
    Margin,
    #[default]
    Text,
}

/// A position-relative tab (`w:ptab`) inside header/footer content.
#[derive(Debug, Clone, Copy, PartialEq, Eq, Structural)]
pub struct PositionedTab {
    pub alignment: PositionedTabAlignment,
    pub relative_to: PositionedTabRelativeTo,
    pub leader: TabLeader,
}

/// Alignment of a position-relative tab.
#[derive(Debug, Clone, Copy, PartialEq, Eq, Default, Structural)]
pub enum PositionedTabAlignment {
    Center,
    #[default]
    Left,
    Right,
}

/// What a position-relative tab is measured from.
#[derive(Debug, Clone, Copy, PartialEq, Eq, Default, Structural)]
pub enum PositionedTabRelativeTo {
    Indent,
    #[default]
    Margin,
}

/// The type of chart.
#[derive(Debug, Clone, PartialEq, Eq)]
pub enum ChartType {
    Bar,
    Column,
    Line,
    Pie,
    Area,
    Scatter,
    Other(String),
}

/// A math equation (from OMML or similar).
#[derive(Debug, Clone)]
pub struct MathEquation {
    /// Typst math notation content (without surrounding `$` delimiters).
    pub content: String,
    /// Whether this is a display equation (centered, on its own line) vs inline.
    pub display: bool,
}

/// How text wraps around a floating image.
#[derive(Debug, Clone, Copy, PartialEq, Eq, Structural)]
pub enum WrapMode {
    /// Text wraps around the image on both sides (square bounding box).
    Square,
    /// Text wraps tightly around the image contour.
    Tight,
    /// Text appears above and below the image only (no side wrapping).
    TopAndBottom,
    /// Image is behind the text (no wrapping, text flows over).
    Behind,
    /// Image is in front of the text (no wrapping, image covers text).
    InFront,
    /// No text wrapping (written `none` in OOXML).
    NoWrap,
}

/// Vertical alignment for fixed text box content.
#[derive(Debug, Clone, Copy, PartialEq, Eq, Default, Structural)]
pub enum TextBoxVerticalAlign {
    #[default]
    Top,
    Center,
    Bottom,
}

/// Vertical alignment within a table cell.
#[derive(Debug, Clone, Copy, PartialEq, Eq, Structural)]
pub enum CellVerticalAlign {
    Top,
    Center,
    Bottom,
}

/// Insets or padding on the four sides.
#[derive(Debug, Clone, Copy, PartialEq, Default)]
pub struct Insets<N> {
    pub top: N,
    pub right: N,
    pub bottom: N,
    pub left: N,
}

/// A node in a SmartArt diagram with hierarchy depth.
#[derive(Debug, Clone, PartialEq)]
pub struct SmartArtNode {
    /// The text content of this node.
    pub text: String,
    /// Depth in the hierarchy (0 = top-level node).
    pub depth: usize,
}

/// SmartArt diagram content: its nodes with their hierarchy depth.
#[derive(Debug, Clone)]
pub struct SmartArt {
    /// Nodes extracted from SmartArt data points with hierarchy depth.
    pub items: Vec<SmartArtNode>,
}

/// Arrowhead decoration on a line endpoint.
#[derive(Debug, Clone, Copy, PartialEq, Eq, Default, Structural)]
pub enum ArrowHead {
    /// No arrowhead (written `none` in OOXML).
    #[default]
    NoHead,
    Triangle,
}

} // verus!
