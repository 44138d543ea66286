//! Finishing a slide shape (`p:sp`): the elements it becomes once its
//! properties and text have been read.

use vstd::prelude::*;

use crate::ir::elements::{ArrowHead, BorderLineStyle, BorderSide, Insets, Paragraph, TextBoxVerticalAlign};
use crate::ir::fixed::{
    blocks_view, elements_view, BlockView, GradientFill, Shadow, ShapeData, SlideElement, SlideElementKind,
    SlideElementKindView, SlideElementView, TextBoxData, TextBoxView,
};
use crate::ir::style::Color;
use crate::parser::docx_lists::GroupedBlock;
use crate::parser::pptx_lists::{group_pptx_text_blocks, grouped_as, trimmed_len, PptxParagraphEntry};
use crate::parser::pptx_placeholders::{layout_view_of, opt_str, spec_lookup, PlaceholderGeometry, PlaceholderGeometryMap};
use crate::parser::pptx_shapes::{preset_kind, prst_to_shape_kind, PresetKind};
use crate::text_util::opt_chars;

verus! {

/// What was read of a shape: its frame (EMU), rotation (degrees), flips,
/// opacity and shadow; its preset geometry with adjust values and
/// arrowheads; its fill (explicit color, gradient, `a:noFill`, and the
/// `p:style` fallback color); and its outline (explicit width in EMU,
/// color, dash style, and the `p:style` fallback color and 1-based
/// index into the theme's line styles).
#[derive(Debug, Clone)]
pub struct ShapeProps<N> {
    pub x: i64,
    pub y: i64,
    pub cx: i64,
    pub cy: i64,
    pub rotation_deg: Option<N>,
    pub flip_h: bool,
    pub flip_v: bool,
    pub opacity: Option<N>,
    pub shadow: Option<Shadow<N>>,
    pub prst_geom: Option<String>,
    pub adj_values: Vec<i64>,
    pub head_end: ArrowHead,
    pub tail_end: ArrowHead,
    pub fill: Option<Color>,
    pub gradient_fill: Option<GradientFill<N>>,
    pub explicit_no_fill: bool,
    pub style_fill_color: Option<Color>,
    pub ln_width_emu: i64,
    pub ln_color: Option<Color>,
    pub ln_dash_style: BorderLineStyle,
    pub style_ln_color: Option<Color>,
    pub style_ln_idx: Option<usize>,
}

/// How a shape's text body is laid out (`a:bodyPr`): padding (EMU),
/// vertical anchor, `wrap="none"`, autofit, and text rotation (degrees).
#[derive(Debug, Clone, Copy)]
pub struct TextBodyLayout<N> {
    pub padding: Insets<i64>,
    pub vertical_align: TextBoxVerticalAlign,
    pub no_wrap: bool,
    pub auto_fit: bool,
    pub text_rotation_deg: Option<N>,
}

/// The outline width: the explicit width where it is positive, else the
/// width of the theme line style that the 1-based `idx` names, else the
/// explicit width.
pub open spec fn effective_line_width(ln_width: i64, idx: Option<usize>, theme_widths: Seq<i64>) -> i64 {
    if ln_width > 0 {
        ln_width
    } else {
        match idx {
            Some(i) => if 0 < i && i <= theme_widths.len() {
                theme_widths[i - 1]
            } else {
                ln_width
            },
            None => ln_width,
        }
    }
}

/// The fill: the explicit color, else none where `a:noFill` is set, else the
/// style's fallback color.
pub open spec fn effective_fill<N>(s: ShapeProps<N>) -> Option<Color> {
    if s.fill is Some {
        s.fill
    } else if s.explicit_no_fill {
        None
    } else {
        s.style_fill_color
    }
}

/// The outline: in the explicit line color, else the style's, at the
/// effective width and the dash style; none without a color.
pub open spec fn shape_stroke<N>(s: ShapeProps<N>, theme_widths: Seq<i64>) -> Option<BorderSide<i64>> {
    let color = if s.ln_color is Some {
        s.ln_color
    } else {
        s.style_ln_color
    };
    match color {
        Some(c) => Some(
            BorderSide { width: effective_line_width(s.ln_width_emu, s.style_ln_idx, theme_widths), color: c, style: s.ln_dash_style },
        ),
        None => None,
    }
}

/// The geometry the shape's preset names.
pub open spec fn preset_of<N>(s: ShapeProps<N>, geom: Seq<char>) -> PresetKind {
    preset_kind(geom, s.adj_values@, s.head_end, s.tail_end)
}

/// Some paragraph has a run.
pub open spec fn has_text<N>(entries: Seq<PptxParagraphEntry<N>>) -> bool {
    exists|i: int| 0 <= i < entries.len() && (#[trigger] entries[i]).paragraph.runs@.len() > 0
}

/// `blocks` is the grouping of the paragraphs into text blocks.
pub open spec fn text_grouped<N: PartialEq>(
    entries: Seq<PptxParagraphEntry<N>>,
    blocks: Seq<GroupedBlock<N, Paragraph<N>>>,
) -> bool {
    exists|d: Seq<bool>| #[trigger] grouped_as(entries.take(trimmed_len(entries) as int), d, blocks)
}

/// `elements` are what a shape with these paragraphs becomes, its text (if
/// any) grouped into `blocks`.
pub open spec fn finished_as<N: PartialEq>(
    shape: ShapeProps<N>,
    entries: Seq<PptxParagraphEntry<N>>,
    layout: TextBodyLayout<N>,
    theme_widths: Seq<i64>,
    elements: Seq<SlideElementView<N>>,
    blocks: Seq<GroupedBlock<N, Paragraph<N>>>,
) -> bool {
    &&& has_text(entries) ==> text_grouped(entries, blocks)
    &&& elements == shape_elements(shape, layout, theme_widths, has_text(entries), blocks_view(blocks))
}

/// An element over the shape's frame.
pub open spec fn framed<N>(s: ShapeProps<N>, kind: SlideElementKindView<N>) -> SlideElementView<N> {
    SlideElementView { x: s.x, y: s.y, width: s.cx, height: s.cy, kind }
}

/// The drawn shape with the given geometry, filled, outlined, rotated and
/// shadowed as read.
pub open spec fn drawn_shape<N>(s: ShapeProps<N>, kind: PresetKind, theme_widths: Seq<i64>) -> ShapeData<N> {
    ShapeData {
        kind,
        flip_h: s.flip_h,
        flip_v: s.flip_v,
        fill: effective_fill(s),
        gradient_fill: s.gradient_fill,
        stroke: shape_stroke(s, theme_widths),
        rotation_deg: s.rotation_deg,
        opacity: s.opacity,
        shadow: s.shadow,
    }
}

/// The elements a shape becomes. With text: over a non-rectangular preset,
/// the drawn shape and then a text box without fill, opacity or outline
/// (its text centred vertically where it is rotated); otherwise one text
/// box carrying the shape's fill, opacity and outline. Without text: the
/// drawn shape where it has a preset, else nothing.
pub open spec fn shape_elements<N>(
    s: ShapeProps<N>,
    layout: TextBodyLayout<N>,
    theme_widths: Seq<i64>,
    text: bool,
    blocks: Seq<BlockView<N>>,
) -> Seq<SlideElementView<N>> {
    let geom = opt_chars(s.prst_geom);
    if text {
        if geom is Some && preset_of(s, geom->0) != PresetKind::Rectangle {
            seq![
                framed(s, SlideElementKindView::Shape(drawn_shape(s, preset_of(s, geom->0), theme_widths))),
                framed(s, SlideElementKindView::TextBox(TextBoxView {
                    content: blocks,
                    padding: layout.padding,
                    vertical_align: if layout.text_rotation_deg is Some {
                        TextBoxVerticalAlign::Center
                    } else {
                        layout.vertical_align
                    },
                    fill: None,
                    opacity: None,
                    stroke: None,
                    no_wrap: layout.no_wrap,
                    auto_fit: layout.auto_fit,
                    text_rotation_deg: layout.text_rotation_deg,
                })),
            ]
        } else {
            seq![framed(s, SlideElementKindView::TextBox(TextBoxView {
                content: blocks,
                padding: layout.padding,
                vertical_align: layout.vertical_align,
                fill: effective_fill(s),
                opacity: s.opacity,
                stroke: shape_stroke(s, theme_widths),
                no_wrap: layout.no_wrap,
                auto_fit: layout.auto_fit,
                text_rotation_deg: layout.text_rotation_deg,
            }))]
        }
    } else if geom is Some {
        seq![framed(s, SlideElementKindView::Shape(drawn_shape(s, preset_of(s, geom->0), theme_widths)))]
    } else {
        seq![]
    }
}

/// Whether some paragraph has a run.
fn any_run<N>(entries: &Vec<PptxParagraphEntry<N>>) -> (r: bool)
    ensures
        r == has_text(entries@),
{
    let mut i: usize = 0;
    while i < entries.len()
        invariant
            i <= entries@.len(),
            forall|k: int| 0 <= k < i ==> (#[trigger] entries@[k]).paragraph.runs@.len() == 0,
        decreases entries@.len() - i,
    {
        if entries[i].paragraph.runs.len() > 0 {
            return true;
        }
        i = i + 1;
    }
    false
}

/// The outline width (see `effective_line_width`).
fn line_width(ln_width: i64, idx: Option<usize>, theme_widths: &Vec<i64>) -> (w: i64)
    ensures
        w == effective_line_width(ln_width, idx, theme_widths@),
{
    if ln_width > 0 {
        ln_width
    } else {
        match idx {
            Some(i) => if 0 < i && i <= theme_widths.len() {
                theme_widths[i - 1]
            } else {
                ln_width
            },
            None => ln_width,
        }
    }
}

/// The fill (see `effective_fill`).
fn fill_of<N>(s: &ShapeProps<N>) -> (f: Option<Color>)
    ensures
        f == effective_fill(*s),
{
    if s.fill.is_some() {
        s.fill
    } else if s.explicit_no_fill {
        None
    } else {
        s.style_fill_color
    }
}

/// The outline (see `shape_stroke`).
fn stroke_of<N>(s: &ShapeProps<N>, theme_widths: &Vec<i64>) -> (st: Option<BorderSide<i64>>)
    ensures
        st == shape_stroke(*s, theme_widths@),
{
    let width = line_width(s.ln_width_emu, s.style_ln_idx, theme_widths);
    let color = if s.ln_color.is_some() {
        s.ln_color
    } else {
        s.style_ln_color
    };
    match color {
        Some(c) => Some(BorderSide { width, color: c, style: s.ln_dash_style }),
        None => None,
    }
}

/// The geometry the preset names, where there is one.
fn kind_of<N>(s: &ShapeProps<N>) -> (k: Option<PresetKind>)
    ensures
        k == (match opt_chars(s.prst_geom) {
            Some(g) => Some(preset_of(*s, g)),
            None => None,
        }),
{
    match &s.prst_geom {
        Some(g) => Some(prst_to_shape_kind(g.as_str(), &s.adj_values, s.head_end, s.tail_end)),
        None => None,
    }
}

/// The elements of a shape with text, its text grouped into `blocks`.
fn finish_text<N: Copy>(
    shape: ShapeProps<N>,
    blocks: Vec<GroupedBlock<N, Paragraph<N>>>,
    layout: &TextBodyLayout<N>,
    theme_line_widths: &Vec<i64>,
) -> (e: Vec<SlideElement<N>>)
    ensures
        elements_view(e@) == shape_elements(shape, *layout, theme_line_widths@, true, blocks_view(blocks@)),
{
    let ghost s = shape;
    let ghost bv = blocks_view(blocks@);
    let fill = fill_of(&shape);
    let stroke = stroke_of(&shape, theme_line_widths);
    let kind = kind_of(&shape);
    let mut out: Vec<SlideElement<N>> = Vec::new();
    let non_rect = match kind {
        Some(k) => !matches!(k, PresetKind::Rectangle),
        None => false,
    };
    if non_rect {
        let k = kind.unwrap();
        out.push(SlideElement {
            x: shape.x,
            y: shape.y,
            width: shape.cx,
            height: shape.cy,
            kind: SlideElementKind::Shape(ShapeData {
                kind: k,
                flip_h: shape.flip_h,
                flip_v: shape.flip_v,
                fill,
                gradient_fill: shape.gradient_fill,
                stroke,
                rotation_deg: shape.rotation_deg,
                opacity: shape.opacity,
                shadow: shape.shadow,
            }),
        });
        let vertical_align = if layout.text_rotation_deg.is_some() {
            TextBoxVerticalAlign::Center
        } else {
            layout.vertical_align
        };
        out.push(SlideElement {
            x: shape.x,
            y: shape.y,
            width: shape.cx,
            height: shape.cy,
            kind: SlideElementKind::TextBox(TextBoxData {
                content: blocks,
                padding: layout.padding,
                vertical_align,
                fill: None,
                opacity: None,
                stroke: None,
                no_wrap: layout.no_wrap,
                auto_fit: layout.auto_fit,
                text_rotation_deg: layout.text_rotation_deg,
            }),
        });
    } else {
        out.push(SlideElement {
            x: shape.x,
            y: shape.y,
            width: shape.cx,
            height: shape.cy,
            kind: SlideElementKind::TextBox(TextBoxData {
                content: blocks,
                padding: layout.padding,
                vertical_align: layout.vertical_align,
                fill,
                opacity: shape.opacity,
                stroke,
                no_wrap: layout.no_wrap,
                auto_fit: layout.auto_fit,
                text_rotation_deg: layout.text_rotation_deg,
            }),
        });
    }
    assert(elements_view(out@) =~= shape_elements(s, *layout, theme_line_widths@, true, bv));
    out
}

/// The elements of a shape without text.
fn finish_plain<N: Copy>(shape: ShapeProps<N>, layout: &TextBodyLayout<N>, theme_line_widths: &Vec<i64>) -> (e: Vec<
    SlideElement<N>,
>)
    ensures
        elements_view(e@) == shape_elements(shape, *layout, theme_line_widths@, false, seq![]),
{
    let ghost s = shape;
    let fill = fill_of(&shape);
    let stroke = stroke_of(&shape, theme_line_widths);
    let kind = kind_of(&shape);
    let mut out: Vec<SlideElement<N>> = Vec::new();
    match kind {
        Some(k) => {
            out.push(SlideElement {
                x: shape.x,
                y: shape.y,
                width: shape.cx,
                height: shape.cy,
                kind: SlideElementKind::Shape(ShapeData {
                    kind: k,
                    flip_h: shape.flip_h,
                    flip_v: shape.flip_v,
                    fill,
                    gradient_fill: shape.gradient_fill,
                    stroke,
                    rotation_deg: shape.rotation_deg,
                    opacity: shape.opacity,
                    shadow: shape.shadow,
                }),
            });
        },
        None => {},
    }
    assert(elements_view(out@) =~= shape_elements(s, *layout, theme_line_widths@, false, seq![]));
    out
}

/// Finish a shape at `</p:sp>`: the elements it becomes (see
/// `shape_elements`), its paragraphs grouped into text blocks.
pub fn finalize_shape<N: Copy + PartialEq>(
    shape: ShapeProps<N>,
    entries: Vec<PptxParagraphEntry<N>>,
    layout: &TextBodyLayout<N>,
    theme_line_widths: &Vec<i64>,
) -> (e: Vec<SlideElement<N>>)
    ensures
        exists|blocks: Seq<GroupedBlock<N, Paragraph<N>>>|
            #[trigger] finished_as(shape, entries@, *layout, theme_line_widths@, elements_view(e@), blocks),
{
    let ghost all = entries@;
    if any_run(&entries) {
        let blocks = group_pptx_text_blocks(entries);
        let ghost grouped = blocks@;
        let ghost s = shape;
        let e = finish_text(shape, blocks, layout, theme_line_widths);
        assert(text_grouped(all, grouped));
        assert(has_text(all));
        assert(finished_as(s, all, *layout, theme_line_widths@, elements_view(e@), grouped));
        e
    } else {
        let ghost s = shape;
        let e = finish_plain(shape, layout, theme_line_widths);
        let ghost none = Seq::<GroupedBlock<N, Paragraph<N>>>::empty();
        assert(blocks_view(none) =~= seq![]);
        assert(has_text(all) ==> text_grouped(all, none));
        assert(finished_as(s, all, *layout, theme_line_widths@, elements_view(e@), none));
        e
    }
}

/// A shape's frame taken from the placeholder it inherits from: where it is
/// a placeholder (of type `ph_type`, index `ph_idx`) without a frame of
/// its own and the layout or master gives one (see `spec_lookup`).
pub open spec fn inherited_frame(
    inherited: Option<&PlaceholderGeometryMap<i64>>,
    placeholder: Option<(Option<&str>, Option<&str>)>,
    has_explicit_xfrm: bool,
) -> Option<PlaceholderGeometry> {
    match (inherited, placeholder) {
        (Some(map), Some((ph_type, ph_idx))) => if has_explicit_xfrm {
            None
        } else {
            spec_lookup(layout_view_of(&map.layout), layout_view_of(&map.master), opt_str(ph_type), opt_str(ph_idx))
        },
        _ => None,
    }
}

/// The shape placed in the given frame, where there is one.
pub open spec fn placed<N>(s: ShapeProps<N>, frame: Option<PlaceholderGeometry>) -> ShapeProps<N> {
    match frame {
        Some(g) => ShapeProps { x: g.x, y: g.y, cx: g.cx, cy: g.cy, ..s },
        None => s,
    }
}

/// Finish a shape of a slide layer at `</p:sp>` or `</p:cxnSp>`: a
/// placeholder without a frame of its own takes the frame the layout or
/// master gives it; a placeholder of a layer whose placeholders are not
/// drawn (`skip_placeholders`) becomes nothing; any other shape becomes
/// the elements `finalize_shape` gives.
pub fn finish_slide_shape<N: Copy + PartialEq>(
    shape: ShapeProps<N>,
    placeholder: Option<(Option<&str>, Option<&str>)>,
    has_explicit_xfrm: bool,
    inherited: Option<&PlaceholderGeometryMap<i64>>,
    skip_placeholders: bool,
    entries: Vec<PptxParagraphEntry<N>>,
    layout: &TextBodyLayout<N>,
    theme_line_widths: &Vec<i64>,
) -> (e: Vec<SlideElement<N>>)
    ensures
        skip_placeholders && placeholder is Some ==> e@.len() == 0,
        !(skip_placeholders && placeholder is Some) ==> exists|blocks: Seq<GroupedBlock<N, Paragraph<N>>>|
            #[trigger] finished_as(
                placed(shape, inherited_frame(inherited, placeholder, has_explicit_xfrm)),
                entries@,
                *layout,
                theme_line_widths@,
                elements_view(e@),
                blocks,
            ),
{
    let mut shape = shape;
    let frame = match (inherited, placeholder) {
        (Some(map), Some((ph_type, ph_idx))) => if has_explicit_xfrm {
            None
        } else {
            map.lookup(ph_type, ph_idx)
        },
        _ => None,
    };
    match frame {
        Some(g) => {
            shape.x = g.x;
            shape.y = g.y;
            shape.cx = g.cx;
            shape.cy = g.cy;
        },
        None => {},
    }
    if skip_placeholders && placeholder.is_some() {
        Vec::new()
    } else {
        finalize_shape(shape, entries, layout, theme_line_widths)
    }
}


/// Every drawn shape among the elements a shape becomes carries the shape's
/// rotation, and every element stands in the shape's frame.
pub proof fn lemma_shape_elements_keep_rotation<N>(
    s: ShapeProps<N>,
    layout: TextBodyLayout<N>,
    theme_widths: Seq<i64>,
    text: bool,
    blocks: Seq<BlockView<N>>,
)
    ensures
        forall|j: int|
            0 <= j < shape_elements(s, layout, theme_widths, text, blocks).len() ==> {
                let e = #[trigger] shape_elements(s, layout, theme_widths, text, blocks)[j];
                &&& e.x == s.x && e.y == s.y && e.width == s.cx && e.height == s.cy
                &&& match e.kind {
                    SlideElementKindView::Shape(d) => d.rotation_deg == s.rotation_deg,
                    SlideElementKindView::TextBox(_) => true,
                }
            },
{
}
} // verus!
