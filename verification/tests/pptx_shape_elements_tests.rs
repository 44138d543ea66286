use office2pdf::ir::elements::{ArrowHead, BorderLineStyle, Insets, Paragraph, Run, TextBoxVerticalAlign};
use office2pdf::ir::fixed::{SlideElement, SlideElementKind};
use office2pdf::ir::style::{Color, ParagraphStyle, TextStyle};
use office2pdf::parser::docx_lists::GroupedBlock;
use office2pdf::parser::pptx_lists::PptxParagraphEntry;
use office2pdf::parser::pptx_defaults::PptxMasterTextStyles;
use office2pdf::parser::pptx_placeholders::PlaceholderGeometryMap;
use office2pdf::parser::pptx_shape_elements::{finalize_shape, finish_slide_shape, ShapeProps, TextBodyLayout};
use office2pdf::parser::pptx_theme::{ColorMapData, ThemeData};
use office2pdf::parser::pptx_shapes::PresetKind;

fn props(prst: Option<&str>) -> ShapeProps<f64> {
    ShapeProps {
        x: 100,
        y: 200,
        cx: 3000,
        cy: 4000,
        rotation_deg: None,
        flip_h: false,
        flip_v: false,
        opacity: None,
        shadow: None,
        prst_geom: prst.map(|p| p.to_string()),
        adj_values: vec![],
        head_end: ArrowHead::NoHead,
        tail_end: ArrowHead::NoHead,
        fill: None,
        gradient_fill: None,
        explicit_no_fill: false,
        style_fill_color: None,
        ln_width_emu: 0,
        ln_color: None,
        ln_dash_style: BorderLineStyle::Solid,
        style_ln_color: None,
        style_ln_idx: None,
    }
}

fn layout() -> TextBodyLayout<f64> {
    TextBodyLayout {
        padding: Insets { top: 45720, right: 91440, bottom: 45720, left: 91440 },
        vertical_align: TextBoxVerticalAlign::Bottom,
        no_wrap: false,
        auto_fit: true,
        text_rotation_deg: None,
    }
}

fn entry(text: &str) -> PptxParagraphEntry<f64> {
    let runs = if text.is_empty() {
        vec![]
    } else {
        vec![Run { text: text.to_string(), style: TextStyle::default(), href: None, footnote: None }]
    };
    PptxParagraphEntry { paragraph: Paragraph { style: ParagraphStyle::default(), runs }, list_marker: None }
}

fn paragraph_text(block: &GroupedBlock<f64, Paragraph<f64>>) -> String {
    match block {
        GroupedBlock::Block(p) => p.runs.iter().map(|r| r.text.clone()).collect(),
        GroupedBlock::List(_) => panic!("expected a paragraph"),
    }
}

#[test]
fn text_over_non_rectangular_preset_draws_shape_then_clear_text_box() {
    let mut shape = props(Some("ellipse"));
    shape.style_fill_color = Some(Color::new(1, 2, 3));
    shape.style_ln_color = Some(Color::new(9, 9, 9));
    shape.style_ln_idx = Some(2);
    let elements: Vec<SlideElement<f64>> =
        finalize_shape(shape, vec![entry("Hello")], &layout(), &vec![6350, 12700, 19050]);
    assert_eq!(elements.len(), 2);
    assert_eq!((elements[0].x, elements[0].y, elements[0].width, elements[0].height), (100, 200, 3000, 4000));
    match &elements[0].kind {
        SlideElementKind::Shape(data) => {
            assert_eq!(data.kind, PresetKind::Ellipse);
            assert_eq!(data.fill, Some(Color::new(1, 2, 3)));
            let stroke = data.stroke.expect("outline from the style");
            assert_eq!(stroke.width, 12700);
            assert_eq!(stroke.color, Color::new(9, 9, 9));
        }
        SlideElementKind::TextBox(_) => panic!("shape first"),
    }
    match &elements[1].kind {
        SlideElementKind::TextBox(text_box) => {
            assert_eq!(text_box.content.len(), 1);
            assert_eq!(paragraph_text(&text_box.content[0]), "Hello");
            assert!(text_box.fill.is_none());
            assert!(text_box.stroke.is_none());
            assert_eq!(text_box.vertical_align, TextBoxVerticalAlign::Bottom);
            assert_eq!(text_box.padding.left, 91440);
            assert!(text_box.auto_fit);
        }
        SlideElementKind::Shape(_) => panic!("text box second"),
    }
}

#[test]
fn rotated_text_over_preset_is_centred_vertically() {
    let mut body = layout();
    body.text_rotation_deg = Some(90.0);
    let elements: Vec<SlideElement<f64>> = finalize_shape(props(Some("triangle")), vec![entry("Up")], &body, &vec![]);
    assert_eq!(elements.len(), 2);
    match &elements[1].kind {
        SlideElementKind::TextBox(text_box) => {
            assert_eq!(text_box.vertical_align, TextBoxVerticalAlign::Center);
            assert_eq!(text_box.text_rotation_deg, Some(90.0));
        }
        SlideElementKind::Shape(_) => panic!("text box second"),
    }
}

#[test]
fn text_in_rectangle_is_one_text_box_carrying_fill_and_outline() {
    let mut shape = props(Some("rect"));
    shape.fill = Some(Color::new(10, 20, 30));
    shape.style_fill_color = Some(Color::new(1, 2, 3));
    shape.ln_color = Some(Color::new(0, 0, 0));
    shape.ln_width_emu = 25400;
    shape.style_ln_idx = Some(1);
    shape.opacity = Some(0.5);
    let elements: Vec<SlideElement<f64>> =
        finalize_shape(shape, vec![entry("A"), entry("B")], &layout(), &vec![6350]);
    assert_eq!(elements.len(), 1);
    match &elements[0].kind {
        SlideElementKind::TextBox(text_box) => {
            assert_eq!(text_box.content.len(), 2);
            assert_eq!(paragraph_text(&text_box.content[1]), "B");
            assert_eq!(text_box.fill, Some(Color::new(10, 20, 30)));
            assert_eq!(text_box.stroke.expect("outline").width, 25400);
            assert_eq!(text_box.opacity, Some(0.5));
        }
        SlideElementKind::Shape(_) => panic!("expected a text box"),
    }
}

#[test]
fn shape_without_text_or_preset_becomes_nothing() {
    let elements: Vec<SlideElement<f64>> = finalize_shape(props(None), vec![entry("")], &layout(), &vec![]);
    assert!(elements.is_empty());
}

#[test]
fn no_fill_blocks_the_style_fill_and_unknown_theme_index_keeps_explicit_width() {
    let mut shape = props(Some("rect"));
    shape.explicit_no_fill = true;
    shape.style_fill_color = Some(Color::new(1, 2, 3));
    shape.ln_color = Some(Color::new(4, 5, 6));
    shape.style_ln_idx = Some(7);
    let elements: Vec<SlideElement<f64>> = finalize_shape(shape, vec![], &layout(), &vec![6350]);
    assert_eq!(elements.len(), 1);
    match &elements[0].kind {
        SlideElementKind::Shape(data) => {
            assert_eq!(data.kind, PresetKind::Rectangle);
            assert!(data.fill.is_none());
            assert_eq!(data.stroke.expect("outline").width, 0);
        }
        SlideElementKind::TextBox(_) => panic!("no text, no text box"),
    }
}

fn layout_with_title_frame() -> PlaceholderGeometryMap<i64> {
    let layout = r#"<p:sldLayout xmlns:a="a" xmlns:p="p"><p:cSld><p:spTree><p:sp><p:nvSpPr><p:nvPr><p:ph type="title"/></p:nvPr></p:nvSpPr><p:spPr><a:xfrm><a:off x="457200" y="274638"/><a:ext cx="8229600" cy="1143000"/></a:xfrm></p:spPr></p:sp></p:spTree></p:cSld></p:sldLayout>"#;
    let theme = ThemeData { colors: vec![], major_font: None, minor_font: None };
    let colors = ColorMapData { mappings: vec![] };
    PlaceholderGeometryMap::build(Some(layout), None, &theme, &colors, &colors, PptxMasterTextStyles::empty())
}

#[test]
fn placeholder_without_frame_takes_the_layout_frame() {
    let map = layout_with_title_frame();
    let elements: Vec<SlideElement<f64>> = finish_slide_shape(
        props(None),
        Some((Some("title"), None)),
        false,
        Some(&map),
        false,
        vec![entry("Title")],
        &layout(),
        &vec![],
    );
    assert_eq!(elements.len(), 1);
    assert_eq!((elements[0].x, elements[0].y, elements[0].width, elements[0].height), (457200, 274638, 8229600, 1143000));
    let own: Vec<SlideElement<f64>> = finish_slide_shape(
        props(None),
        Some((Some("title"), None)),
        true,
        Some(&map),
        false,
        vec![entry("Title")],
        &layout(),
        &vec![],
    );
    assert_eq!((own[0].x, own[0].y, own[0].width, own[0].height), (100, 200, 3000, 4000));
}

#[test]
fn placeholders_of_skipped_layers_become_nothing() {
    let skipped: Vec<SlideElement<f64>> =
        finish_slide_shape(props(Some("rect")), Some((Some("body"), Some("1"))), true, None, true, vec![entry("x")], &layout(), &vec![]);
    assert!(skipped.is_empty());
    let drawn: Vec<SlideElement<f64>> =
        finish_slide_shape(props(Some("rect")), None, true, None, true, vec![], &layout(), &vec![]);
    assert_eq!(drawn.len(), 1);
}
