//! The SmartArt drawing cache (`dsp:drawing`): each drawn shape's frame
//! (in EMU, relative to the diagram frame), preset geometry, fill and line
//! colors, line width and text.

use vstd::prelude::*;

use crate::ir::elements::{BorderLineStyle, BorderSide, Insets, Paragraph, Run, TextBoxVerticalAlign, ArrowHead};
use crate::ir::fixed::{
    elements_view, BlockView, ParagraphView, RunView, ShapeData, SlideElement, SlideElementKind, SlideElementKindView,
    SlideElementView, TextBoxData, TextBoxView,
};
use crate::parser::docx_lists::GroupedBlock;
use crate::ir::style::{empty_paragraph_style, Alignment, Color, ParagraphStyle, ParagraphStyleView, TextStyle};
use crate::parser::pptx_shapes::{preset_kind, prst_to_shape_kind, PresetKind};
use crate::parser::docx_media::{trim, trimmed};
use crate::parser::pptx_text::{get_attr_i64, tag_i64};
use crate::parser::pptx_theme::{base_color, is_color_element, resolve_base_color, ColorMapData, ThemeData};
use crate::text_util::{chars_of, opt_chars, str_eq, string_of};
use crate::xml::{attr_value, ends_at, get_attr, open_xml, read_xml_event, xml_event_at, XmlEvent, XmlTag};

verus! {

/// A shape of the drawing cache: its offset and extent (EMU, relative to
/// the diagram frame), preset geometry, fill and line colors, line width
/// (EMU) and its non-empty trimmed text pieces in order.
#[derive(Debug, Clone)]
pub struct SmartArtDrawShape {
    pub x: i64,
    pub y: i64,
    pub cx: i64,
    pub cy: i64,
    pub preset: Option<String>,
    pub fill: Option<Color>,
    pub line: Option<Color>,
    pub line_w: i64,
    pub texts: Vec<String>,
}

/// The values a drawn shape holds.
pub ghost struct DrawShapeView {
    pub x: i64,
    pub y: i64,
    pub cx: i64,
    pub cy: i64,
    pub preset: Option<Seq<char>>,
    pub fill: Option<Color>,
    pub line: Option<Color>,
    pub line_w: i64,
    pub texts: Seq<Seq<char>>,
}

impl View for SmartArtDrawShape {
    type V = DrawShapeView;

    open spec fn view(&self) -> DrawShapeView {
        DrawShapeView {
            x: self.x,
            y: self.y,
            cx: self.cx,
            cy: self.cy,
            preset: opt_chars(self.preset),
            fill: self.fill,
            line: self.line,
            line_w: self.line_w,
            texts: self.texts@.map_values(|t: String| t@),
        }
    }
}

/// The values of drawn shapes.
pub open spec fn shapes_view(shapes: Seq<SmartArtDrawShape>) -> Seq<DrawShapeView> {
    shapes.map_values(|s: SmartArtDrawShape| s@)
}

/// A shape that nothing has been read into yet.
pub open spec fn fresh_shape() -> DrawShapeView {
    DrawShapeView { x: 0, y: 0, cx: 0, cy: 0, preset: None, fill: None, line: None, line_w: 0, texts: seq![] }
}

/// The state of a drawing read: the shapes kept, the shape being read, and
/// which of `spPr`, `ln`, a fill, `txBody` and `t` the reader is inside.
pub ghost struct SmartArtScanView {
    pub shapes: Seq<DrawShapeView>,
    pub current: Option<DrawShapeView>,
    pub in_sp_pr: bool,
    pub in_ln: bool,
    pub in_fill: bool,
    pub in_tx_body: bool,
    pub in_text: bool,
}

pub open spec fn initial_smartart_scan() -> SmartArtScanView {
    SmartArtScanView {
        shapes: seq![],
        current: None,
        in_sp_pr: false,
        in_ln: false,
        in_fill: false,
        in_tx_body: false,
        in_text: false,
    }
}

/// An integer attribute, 0 where absent or not parsable.
pub open spec fn i64_or_zero(tag: XmlTag, key: Seq<char>) -> i64 {
    match tag_i64(tag, key) {
        Some(v) => v,
        None => 0,
    }
}

/// A color element read into the current shape's fill (inside a fill) or
/// line (inside `ln`), where it resolves.
pub open spec fn smartart_color(s: SmartArtScanView, tag: XmlTag, theme: ThemeData, color_map: ColorMapData) -> SmartArtScanView {
    match (s.current, base_color(tag, theme, color_map)) {
        (Some(c), Some(color)) => if s.in_fill {
            SmartArtScanView { current: Some(DrawShapeView { fill: Some(color), ..c }), ..s }
        } else if s.in_ln {
            SmartArtScanView { current: Some(DrawShapeView { line: Some(color), ..c }), ..s }
        } else {
            s
        },
        _ => s,
    }
}

/// A start tag.
pub open spec fn smartart_start(s: SmartArtScanView, tag: XmlTag, theme: ThemeData, color_map: ColorMapData) -> SmartArtScanView {
    let name = tag.name@;
    if name == "sp"@ {
        SmartArtScanView { current: Some(fresh_shape()), ..s }
    } else if name == "spPr"@ {
        SmartArtScanView { in_sp_pr: true, ..s }
    } else if name == "ln"@ && s.in_sp_pr {
        SmartArtScanView {
            in_ln: true,
            current: match s.current {
                Some(c) => Some(DrawShapeView { line_w: i64_or_zero(tag, "w"@), ..c }),
                None => None,
            },
            ..s
        }
    } else if name == "solidFill"@ && s.in_sp_pr && !s.in_ln {
        SmartArtScanView { in_fill: true, ..s }
    } else if name == "txBody"@ {
        SmartArtScanView { in_tx_body: true, ..s }
    } else if name == "t"@ && s.in_tx_body {
        SmartArtScanView { in_text: true, ..s }
    } else if is_color_element(name) && (s.in_fill || s.in_ln) {
        smartart_color(s, tag, theme, color_map)
    } else {
        s
    }
}

/// A self-closing tag.
pub open spec fn smartart_empty(s: SmartArtScanView, tag: XmlTag, theme: ThemeData, color_map: ColorMapData) -> SmartArtScanView {
    let name = tag.name@;
    if name == "off"@ && s.in_sp_pr {
        match s.current {
            Some(c) => SmartArtScanView {
                current: Some(DrawShapeView { x: i64_or_zero(tag, "x"@), y: i64_or_zero(tag, "y"@), ..c }),
                ..s
            },
            None => s,
        }
    } else if name == "ext"@ && s.in_sp_pr {
        match s.current {
            Some(c) => SmartArtScanView {
                current: Some(DrawShapeView { cx: i64_or_zero(tag, "cx"@), cy: i64_or_zero(tag, "cy"@), ..c }),
                ..s
            },
            None => s,
        }
    } else if name == "prstGeom"@ {
        match s.current {
            Some(c) => SmartArtScanView {
                current: Some(DrawShapeView { preset: attr_value(tag.attrs@, "prst"@), ..c }),
                ..s
            },
            None => s,
        }
    } else if is_color_element(name) && (s.in_fill || s.in_ln) {
        smartart_color(s, tag, theme, color_map)
    } else {
        s
    }
}

/// Text: inside `a:t` of a shape, its trimmed piece is kept where not empty.
pub open spec fn smartart_text(s: SmartArtScanView, text: Seq<char>) -> SmartArtScanView {
    match s.current {
        Some(c) => if s.in_text && trim(text).len() > 0 {
            SmartArtScanView { current: Some(DrawShapeView { texts: c.texts.push(trim(text)), ..c }), ..s }
        } else {
            s
        },
        None => s,
    }
}

/// An end tag; the end of `sp` keeps its shape where its extent is not empty.
pub open spec fn smartart_end(s: SmartArtScanView, name: Seq<char>) -> SmartArtScanView {
    if name == "spPr"@ {
        SmartArtScanView { in_sp_pr: false, ..s }
    } else if name == "ln"@ {
        SmartArtScanView { in_ln: false, ..s }
    } else if name == "solidFill"@ {
        SmartArtScanView { in_fill: false, ..s }
    } else if name == "txBody"@ {
        SmartArtScanView { in_tx_body: false, ..s }
    } else if name == "t"@ {
        SmartArtScanView { in_text: false, ..s }
    } else if name == "sp"@ {
        match s.current {
            Some(c) => SmartArtScanView {
                shapes: if c.cx > 0 && c.cy > 0 {
                    s.shapes.push(c)
                } else {
                    s.shapes
                },
                current: None,
                ..s
            },
            None => s,
        }
    } else {
        s
    }
}

/// One event of a drawing read.
pub open spec fn smartart_step(s: SmartArtScanView, event: XmlEvent, theme: ThemeData, color_map: ColorMapData) -> SmartArtScanView {
    match event {
        XmlEvent::Start(tag) => smartart_start(s, tag, theme, color_map),
        XmlEvent::Empty(tag) => smartart_empty(s, tag, theme, color_map),
        XmlEvent::Text(t) => smartart_text(s, t@),
        XmlEvent::End(name) => smartart_end(s, name@),
        _ => s,
    }
}

/// The drawing read after the first `n` events of `source`.
pub open spec fn smartart_scan_after(source: Seq<char>, theme: ThemeData, color_map: ColorMapData, n: nat) -> SmartArtScanView
    decreases n,
{
    if n == 0 {
        initial_smartart_scan()
    } else {
        smartart_step(smartart_scan_after(source, theme, color_map, (n - 1) as nat), xml_event_at(source, (n - 1) as nat), theme, color_map)
    }
}

pub struct SmartArtScan {
    shapes: Vec<SmartArtDrawShape>,
    current: Option<SmartArtDrawShape>,
    in_sp_pr: bool,
    in_ln: bool,
    in_fill: bool,
    in_tx_body: bool,
    in_text: bool,
}

impl View for SmartArtScan {
    type V = SmartArtScanView;

    closed spec fn view(&self) -> SmartArtScanView {
        SmartArtScanView {
            shapes: shapes_view(self.shapes@),
            current: match self.current {
                Some(c) => Some(c@),
                None => None,
            },
            in_sp_pr: self.in_sp_pr,
            in_ln: self.in_ln,
            in_fill: self.in_fill,
            in_tx_body: self.in_tx_body,
            in_text: self.in_text,
        }
    }
}

fn i64_attr_or_zero(tag: &XmlTag, key: &str) -> (v: i64)
    ensures
        v == i64_or_zero(*tag, key@),
{
    match get_attr_i64(tag, key) {
        Some(v) => v,
        None => 0,
    }
}

fn is_color_name(name: &str) -> (r: bool)
    ensures
        r == is_color_element(name@),
{
    str_eq(name, "srgbClr") || str_eq(name, "schemeClr") || str_eq(name, "sysClr")
}

impl SmartArtScan {
    /// A scan that has read nothing.
    pub fn new() -> (s: Self)
        ensures
            s@ == initial_smartart_scan(),
    {
        let s = SmartArtScan {
            shapes: Vec::new(),
            current: None,
            in_sp_pr: false,
            in_ln: false,
            in_fill: false,
            in_tx_body: false,
            in_text: false,
        };
        assert(s@.shapes =~= Seq::<DrawShapeView>::empty());
        s
    }

    /// The shapes kept so far.
    pub fn shapes(&self) -> (r: &Vec<SmartArtDrawShape>)
        ensures
            shapes_view(r@) == self@.shapes,
    {
        &self.shapes
    }

    fn color(&mut self, tag: &XmlTag, theme: &ThemeData, color_map: &ColorMapData)
        ensures
            final(self)@ == smartart_color(old(self)@, *tag, *theme, *color_map),
    {
        let resolved = resolve_base_color(tag, theme, color_map);
        let in_fill = self.in_fill;
        let in_ln = self.in_ln;
        match (&mut self.current, resolved) {
            (Some(c), Some(color)) => {
                if in_fill {
                    c.fill = Some(color);
                } else if in_ln {
                    c.line = Some(color);
                }
            },
            _ => {},
        }
    }

    pub fn start(&mut self, tag: &XmlTag, theme: &ThemeData, color_map: &ColorMapData)
        ensures
            final(self)@ == smartart_start(old(self)@, *tag, *theme, *color_map),
    {
        let name = tag.name.as_str();
        if str_eq(name, "sp") {
            self.current = Some(SmartArtDrawShape {
                x: 0,
                y: 0,
                cx: 0,
                cy: 0,
                preset: None,
                fill: None,
                line: None,
                line_w: 0,
                texts: Vec::new(),
            });
            assert(self.current->0@.texts =~= Seq::<Seq<char>>::empty());
        } else if str_eq(name, "spPr") {
            self.in_sp_pr = true;
        } else if str_eq(name, "ln") && self.in_sp_pr {
            self.in_ln = true;
            let w = i64_attr_or_zero(tag, "w");
            match &mut self.current {
                Some(c) => {
                    c.line_w = w;
                },
                None => {},
            }
        } else if str_eq(name, "solidFill") && self.in_sp_pr && !self.in_ln {
            self.in_fill = true;
        } else if str_eq(name, "txBody") {
            self.in_tx_body = true;
        } else if str_eq(name, "t") && self.in_tx_body {
            self.in_text = true;
        } else if is_color_name(name) && (self.in_fill || self.in_ln) {
            self.color(tag, theme, color_map);
        }
    }

    pub fn empty(&mut self, tag: &XmlTag, theme: &ThemeData, color_map: &ColorMapData)
        ensures
            final(self)@ == smartart_empty(old(self)@, *tag, *theme, *color_map),
    {
        let name = tag.name.as_str();
        if str_eq(name, "off") && self.in_sp_pr {
            let x = i64_attr_or_zero(tag, "x");
            let y = i64_attr_or_zero(tag, "y");
            match &mut self.current {
                Some(c) => {
                    c.x = x;
                    c.y = y;
                },
                None => {},
            }
        } else if str_eq(name, "ext") && self.in_sp_pr {
            let cx = i64_attr_or_zero(tag, "cx");
            let cy = i64_attr_or_zero(tag, "cy");
            match &mut self.current {
                Some(c) => {
                    c.cx = cx;
                    c.cy = cy;
                },
                None => {},
            }
        } else if str_eq(name, "prstGeom") {
            let preset = get_attr(tag, "prst");
            match &mut self.current {
                Some(c) => {
                    c.preset = preset;
                },
                None => {},
            }
        } else if is_color_name(name) && (self.in_fill || self.in_ln) {
            self.color(tag, theme, color_map);
        }
    }

    pub fn text(&mut self, text: &String)
        ensures
            final(self)@ == smartart_text(old(self)@, text@),
    {
        let in_text = self.in_text;
        match &mut self.current {
            Some(c) => {
                if in_text {
                    let chars = chars_of(text.as_str());
                    let piece = trimmed(&chars, 0, chars.len());
                    assert(chars@.subrange(0, chars@.len() as int) =~= text@);
                    if piece.len() > 0 {
                        let ghost before = c.texts@;
                        c.texts.push(string_of(piece.as_slice()));
                        assert(c.texts@.map_values(|t: String| t@) =~= before.map_values(|t: String| t@).push(trim(text@)));
                    }
                }
            },
            None => {},
        }
    }

    pub fn end(&mut self, name: &str)
        ensures
            final(self)@ == smartart_end(old(self)@, name@),
    {
        if str_eq(name, "spPr") {
            self.in_sp_pr = false;
        } else if str_eq(name, "ln") {
            self.in_ln = false;
        } else if str_eq(name, "solidFill") {
            self.in_fill = false;
        } else if str_eq(name, "txBody") {
            self.in_tx_body = false;
        } else if str_eq(name, "t") {
            self.in_text = false;
        } else if str_eq(name, "sp") {
            match self.current.take() {
                Some(c) => {
                    if c.cx > 0 && c.cy > 0 {
                        let ghost before = self.shapes@;
                        let ghost cv = c@;
                        self.shapes.push(c);
                        assert(shapes_view(self.shapes@) =~= shapes_view(before).push(cv));
                    }
                },
                None => {},
            }
        }
    }
}

/// Read the shapes of a SmartArt drawing cache: every `dsp:sp` with a
/// non-empty extent, in document order, with its offset and extent in EMU
/// relative to the diagram frame (the caller adds the frame's origin),
/// preset geometry, fill and line colors resolved through the color map
/// into the theme, line width, and the trimmed non-empty pieces of its
/// text.
pub fn parse_smartart_drawing(xml: &str, theme: &ThemeData, color_map: &ColorMapData) -> (shapes: Vec<SmartArtDrawShape>)
    ensures
        exists|n: nat| ends_at(xml@, n) && shapes_view(shapes@) == #[trigger] smartart_scan_after(xml@, *theme, *color_map, n).shapes,
{
    let mut cursor = open_xml(xml);
    let mut scan = SmartArtScan::new();
    let ghost mut end: nat = 0;
    loop
        invariant_except_break
            cursor.source() == xml@,
            scan@ == smartart_scan_after(xml@, *theme, *color_map, cursor.consumed()),
            forall|k: nat| k < cursor.consumed() ==> !(#[trigger] xml_event_at(xml@, k)).is_terminal(),
        ensures
            ends_at(xml@, end),
            scan@ == smartart_scan_after(xml@, *theme, *color_map, end),
        decreases cursor.remaining(),
    {
        let ghost before = cursor.consumed();
        let event = read_xml_event(&mut cursor);
        match &event {
            XmlEvent::Eof | XmlEvent::Error => {
                proof {
                    end = before;
                }
                break;
            },
            XmlEvent::Start(tag) => scan.start(tag, theme, color_map),
            XmlEvent::Empty(tag) => scan.empty(tag, theme, color_map),
            XmlEvent::Text(text) => scan.text(text),
            XmlEvent::End(name) => scan.end(name.as_str()),
            XmlEvent::Other => {},
        }
    }
    assert(shapes_view(scan.shapes@) == smartart_scan_after(xml@, *theme, *color_map, end).shapes);
    scan.shapes
}


/// The geometry a drawn shape takes: its preset read with no adjust values
/// and no arrowheads, or a rectangle where it names none.
pub open spec fn smartart_shape_kind(preset: Option<Seq<char>>) -> PresetKind {
    match preset {
        Some(p) => preset_kind(p, seq![], ArrowHead::NoHead, ArrowHead::NoHead),
        None => PresetKind::Rectangle,
    }
}

/// A drawn shape's outline: a solid line in its line color, as wide as its
/// line width (a negative width counts as none); no outline without a color.
pub open spec fn smartart_stroke(line: Option<Color>, line_w: i64) -> Option<BorderSide<i64>> {
    match line {
        Some(color) => Some(BorderSide { width: if line_w < 0 { 0 } else { line_w }, color, style: BorderLineStyle::Solid }),
        None => None,
    }
}

/// White text with nothing else set.
pub open spec fn white_text_style<N>() -> TextStyle<N> {
    TextStyle {
        font_family: None,
        font_size: None,
        bold: None,
        italic: None,
        underline: None,
        strikethrough: None,
        color: Some(Color { r: 255, g: 255, b: 255 }),
        highlight: None,
        vertical_align: None,
        all_caps: None,
        small_caps: None,
        letter_spacing: None,
    }
}

/// A run of white text.
pub open spec fn smartart_run<N>(text: Seq<char>) -> RunView<N> {
    RunView { text, style: white_text_style::<N>(), href: None, footnote: None }
}

/// A centred paragraph style with nothing else set.
pub open spec fn centered_style<N>() -> ParagraphStyleView<N> {
    ParagraphStyleView { alignment: Some(Alignment::Center), ..empty_paragraph_style::<N>() }
}

/// The text box laid over a drawn shape: one centred paragraph holding a
/// white run per text piece, no padding, centred vertically, with no fill,
/// opacity, outline or text rotation, wrapping, without autofit.
pub open spec fn smartart_text_box<N>(texts: Seq<Seq<char>>) -> TextBoxView<N> {
    TextBoxView {
        content: seq![BlockView::Paragraph(ParagraphView { style: centered_style::<N>(), runs: texts.map_values(|t: Seq<char>| smartart_run::<N>(t)) })],
        padding: Insets { top: 0, right: 0, bottom: 0, left: 0 },
        vertical_align: TextBoxVerticalAlign::Center,
        fill: None,
        opacity: None,
        stroke: None,
        no_wrap: false,
        auto_fit: false,
        text_rotation_deg: None,
    }
}

/// The elements a drawn shape becomes, in its own frame: the shape with its
/// fill and outline (unmirrored, with no gradient, rotation, opacity or
/// shadow), then, where it has text, a text box over the same frame.
pub open spec fn smartart_elements_of<N>(s: DrawShapeView) -> Seq<SlideElementView<N>> {
    let shape = SlideElementView {
        x: s.x,
        y: s.y,
        width: s.cx,
        height: s.cy,
        kind: SlideElementKindView::Shape(
            ShapeData {
                kind: smartart_shape_kind(s.preset),
                flip_h: false,
                flip_v: false,
                fill: s.fill,
                gradient_fill: None,
                stroke: smartart_stroke(s.line, s.line_w),
                rotation_deg: None,
                opacity: None,
                shadow: None,
            },
        ),
    };
    if s.texts.len() == 0 {
        seq![shape]
    } else {
        seq![shape, SlideElementView {
            x: s.x,
            y: s.y,
            width: s.cx,
            height: s.cy,
            kind: SlideElementKindView::TextBox(smartart_text_box::<N>(s.texts)),
        }]
    }
}

/// White runs, one per text piece.
fn white_runs<N: Copy>(texts: &Vec<String>) -> (runs: Vec<Run<N>>)
    ensures
        runs@.map_values(|r: Run<N>| r@) == texts@.map_values(|t: String| t@).map_values(|t: Seq<char>| smartart_run::<N>(t)),
{
    let mut runs: Vec<Run<N>> = Vec::new();
    let mut i: usize = 0;
    while i < texts.len()
        invariant
            i <= texts@.len(),
            runs@.len() == i,
            forall|k: int| 0 <= k < i ==> (#[trigger] runs@[k])@ == smartart_run::<N>(texts@[k]@),
        decreases texts@.len() - i,
    {
        let style: TextStyle<N> = TextStyle {
            font_family: None,
            font_size: None,
            bold: None,
            italic: None,
            underline: None,
            strikethrough: None,
            color: Some(Color::white()),
            highlight: None,
            vertical_align: None,
            all_caps: None,
            small_caps: None,
            letter_spacing: None,
        };
        runs.push(Run { text: texts[i].clone(), style, href: None, footnote: None });
        i = i + 1;
    }
    assert(runs@.map_values(|r: Run<N>| r@) =~= texts@.map_values(|t: String| t@).map_values(|t: Seq<char>| smartart_run::<N>(t)));
    runs
}

/// Turn a drawn shape into the elements that draw it, in its own frame
/// (offset and extent in EMU, as read): the shape, filled and outlined,
/// and, where it has text, a text box over the same frame whose one
/// centred paragraph holds a white run per text piece, centred vertically.
pub fn smartart_shape_elements<N: Copy>(shape: &SmartArtDrawShape) -> (e: Vec<SlideElement<N>>)
    ensures
        elements_view(e@) == smartart_elements_of::<N>(shape@),
{
    let no_adjust: Vec<i64> = Vec::new();
    let kind = match &shape.preset {
        Some(p) => prst_to_shape_kind(p.as_str(), &no_adjust, ArrowHead::NoHead, ArrowHead::NoHead),
        None => PresetKind::Rectangle,
    };
    proof {
        assert(no_adjust@ =~= seq![]);
    }
    let stroke = match shape.line {
        Some(color) => Some(BorderSide { width: if shape.line_w < 0 { 0 } else { shape.line_w }, color, style: BorderLineStyle::Solid }),
        None => None,
    };
    let mut out: Vec<SlideElement<N>> = Vec::new();
    out.push(SlideElement {
        x: shape.x,
        y: shape.y,
        width: shape.cx,
        height: shape.cy,
        kind: SlideElementKind::Shape(ShapeData {
            kind,
            flip_h: false,
            flip_v: false,
            fill: shape.fill,
            gradient_fill: None,
            stroke,
            rotation_deg: None,
            opacity: None,
            shadow: None,
        }),
    });
    if shape.texts.len() > 0 {
        let runs: Vec<Run<N>> = white_runs(&shape.texts);
        let style: ParagraphStyle<N> = ParagraphStyle {
            alignment: Some(Alignment::Center),
            indent_left: None,
            indent_right: None,
            indent_first_line: None,
            line_spacing: None,
            line_box: None,
            space_before: None,
            space_after: None,
            heading_level: None,
            direction: None,
            tab_stops: None,
            background: None,
            border: None,
        };
        let mut content: Vec<GroupedBlock<N, Paragraph<N>>> = Vec::new();
        content.push(GroupedBlock::Block(Paragraph { style, runs }));
        out.push(SlideElement {
            x: shape.x,
            y: shape.y,
            width: shape.cx,
            height: shape.cy,
            kind: SlideElementKind::TextBox(TextBoxData {
                content,
                padding: Insets { top: 0, right: 0, bottom: 0, left: 0 },
                vertical_align: TextBoxVerticalAlign::Center,
                fill: None,
                opacity: None,
                stroke: None,
                no_wrap: false,
                auto_fit: false,
                text_rotation_deg: None,
            }),
        });
        proof {
            assert(crate::ir::fixed::blocks_view(content@) =~= seq![BlockView::Paragraph(ParagraphView { style: centered_style::<N>(), runs: shape@.texts.map_values(|t: Seq<char>| smartart_run::<N>(t)) })]);
        }
    }
    assert(elements_view(out@) =~= smartart_elements_of::<N>(shape@));
    out
}

} // verus!
