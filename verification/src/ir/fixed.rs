//! Elements placed at a fixed position on a slide: drawn shapes and text
//! boxes. Their frames, outline widths and paddings are in EMU, as the file
//! writes them; angles, opacities and the text they hold are measured in `N`.

use vstd::prelude::*;

use super::elements::{BorderSide, Insets, List, Paragraph, Run, TextBoxVerticalAlign};
use super::style::{Color, ParagraphStyleView, TextStyle};
use crate::parser::docx_lists::GroupedBlock;
use crate::parser::pptx_shapes::PresetKind;
use crate::text_util::opt_chars;

verus! {

/// A color stop of a linear gradient.
#[derive(Debug, Clone, Copy)]
pub struct GradientStop<N> {
    /// Position along the gradient axis, from 0 (start) to 1 (end).
    pub position: N,
    pub color: Color,
}

/// A linear gradient fill: its stops in order and its angle in degrees.
#[derive(Debug, Clone)]
pub struct GradientFill<N> {
    pub stops: Vec<GradientStop<N>>,
    pub angle: N,
}

/// An outer shadow: blur radius and distance (points), direction (degrees),
/// color and opacity.
#[derive(Debug, Clone, Copy)]
pub struct Shadow<N> {
    pub blur_radius: N,
    pub distance: N,
    pub direction: N,
    pub color: Color,
    pub opacity: N,
}

/// A drawn shape: its geometry (mirrored as the flips say), fill, gradient,
/// outline (width in EMU), clockwise rotation in degrees, opacity and
/// shadow.
#[derive(Debug, Clone)]
pub struct ShapeData<N> {
    pub kind: PresetKind,
    pub flip_h: bool,
    pub flip_v: bool,
    pub fill: Option<Color>,
    pub gradient_fill: Option<GradientFill<N>>,
    pub stroke: Option<BorderSide<i64>>,
    pub rotation_deg: Option<N>,
    pub opacity: Option<N>,
    pub shadow: Option<Shadow<N>>,
}

/// A text box: its blocks (paragraphs and lists), inner padding (EMU), the
/// vertical placement of the text, background fill, opacity, outline
/// (width in EMU), whether lines are kept from wrapping, whether the file
/// asked for autofit, and the clockwise rotation of its text in degrees.
#[derive(Debug, Clone)]
pub struct TextBoxData<N> {
    pub content: Vec<GroupedBlock<N, Paragraph<N>>>,
    pub padding: Insets<i64>,
    pub vertical_align: TextBoxVerticalAlign,
    pub fill: Option<Color>,
    pub opacity: Option<N>,
    pub stroke: Option<BorderSide<i64>>,
    pub no_wrap: bool,
    pub auto_fit: bool,
    pub text_rotation_deg: Option<N>,
}

/// What a fixed element draws.
#[derive(Debug, Clone)]
pub enum SlideElementKind<N> {
    Shape(ShapeData<N>),
    TextBox(TextBoxData<N>),
}

/// An element at a fixed position: its frame (EMU) and what it draws.
#[derive(Debug, Clone)]
pub struct SlideElement<N> {
    pub x: i64,
    pub y: i64,
    pub width: i64,
    pub height: i64,
    pub kind: SlideElementKind<N>,
}

/// The values a run holds.
pub ghost struct RunView<N> {
    pub text: Seq<char>,
    pub style: TextStyle<N>,
    pub href: Option<Seq<char>>,
    pub footnote: Option<Seq<char>>,
}

impl<N> View for Run<N> {
    type V = RunView<N>;

    open spec fn view(&self) -> RunView<N> {
        RunView { text: self.text@, style: self.style, href: opt_chars(self.href), footnote: opt_chars(self.footnote) }
    }
}

/// The values a paragraph holds.
pub ghost struct ParagraphView<N> {
    pub style: ParagraphStyleView<N>,
    pub runs: Seq<RunView<N>>,
}

impl<N> View for Paragraph<N> {
    type V = ParagraphView<N>;

    open spec fn view(&self) -> ParagraphView<N> {
        ParagraphView { style: self.style@, runs: self.runs@.map_values(|r: Run<N>| r@) }
    }
}

/// The values of a block of a text box: a paragraph, or a list.
pub ghost enum BlockView<N> {
    Paragraph(ParagraphView<N>),
    List(List<N>),
}

/// The values of a block.
pub open spec fn block_view<N>(b: GroupedBlock<N, Paragraph<N>>) -> BlockView<N> {
    match b {
        GroupedBlock::Block(p) => BlockView::Paragraph(p@),
        GroupedBlock::List(l) => BlockView::List(l),
    }
}

/// The values of a sequence of blocks.
pub open spec fn blocks_view<N>(blocks: Seq<GroupedBlock<N, Paragraph<N>>>) -> Seq<BlockView<N>> {
    blocks.map_values(|b: GroupedBlock<N, Paragraph<N>>| block_view(b))
}

/// The values a text box holds.
pub ghost struct TextBoxView<N> {
    pub content: Seq<BlockView<N>>,
    pub padding: Insets<i64>,
    pub vertical_align: TextBoxVerticalAlign,
    pub fill: Option<Color>,
    pub opacity: Option<N>,
    pub stroke: Option<BorderSide<i64>>,
    pub no_wrap: bool,
    pub auto_fit: bool,
    pub text_rotation_deg: Option<N>,
}

/// The values of what a fixed element draws.
pub ghost enum SlideElementKindView<N> {
    Shape(ShapeData<N>),
    TextBox(TextBoxView<N>),
}

/// The values a fixed element holds.
pub ghost struct SlideElementView<N> {
    pub x: i64,
    pub y: i64,
    pub width: i64,
    pub height: i64,
    pub kind: SlideElementKindView<N>,
}

impl<N> View for TextBoxData<N> {
    type V = TextBoxView<N>;

    open spec fn view(&self) -> TextBoxView<N> {
        TextBoxView {
            content: blocks_view(self.content@),
            padding: self.padding,
            vertical_align: self.vertical_align,
            fill: self.fill,
            opacity: self.opacity,
            stroke: self.stroke,
            no_wrap: self.no_wrap,
            auto_fit: self.auto_fit,
            text_rotation_deg: self.text_rotation_deg,
        }
    }
}

impl<N> View for SlideElement<N> {
    type V = SlideElementView<N>;

    open spec fn view(&self) -> SlideElementView<N> {
        SlideElementView {
            x: self.x,
            y: self.y,
            width: self.width,
            height: self.height,
            kind: match self.kind {
                SlideElementKind::Shape(s) => SlideElementKindView::Shape(s),
                SlideElementKind::TextBox(t) => SlideElementKindView::TextBox(t@),
            },
        }
    }
}

/// The values of a list of fixed elements.
pub open spec fn elements_view<N>(elements: Seq<SlideElement<N>>) -> Seq<SlideElementView<N>> {
    elements.map_values(|e: SlideElement<N>| e@)
}

} // verus!
