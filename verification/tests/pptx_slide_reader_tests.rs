use office2pdf::error::ConvertError;
use office2pdf::ir::fixed::{SlideElement, SlideElementKind};
use office2pdf::ir::style::Color;
use office2pdf::parser::docx_lists::GroupedBlock;
use office2pdf::parser::pptx_defaults::{PptxMasterTextStyles, PptxTextBodyStyleDefaults};
use office2pdf::parser::pptx_placeholders::PlaceholderGeometryMap;
use office2pdf::parser::pptx_shapes::PresetKind;
use office2pdf::parser::pptx_slide_reader::{parse_slide_xml, SlideContext};
use office2pdf::parser::pptx_theme::{ColorMapData, ThemeData};

const SLIDE_HEADER: &str = r#"<?xml version="1.0" encoding="UTF-8"?><p:sld xmlns:a="http://schemas.openxmlformats.org/drawingml/2006/main" xmlns:p="http://schemas.openxmlformats.org/presentationml/2006/main"><p:cSld><p:spTree><p:nvGrpSpPr><p:cNvPr id="1" name=""/><p:cNvGrpSpPr/><p:nvPr/></p:nvGrpSpPr><p:grpSpPr/>"#;
const SLIDE_FOOTER: &str = "</p:spTree></p:cSld></p:sld>";

fn slide(shapes: &str) -> String {
    format!("{SLIDE_HEADER}{shapes}{SLIDE_FOOTER}")
}

fn context(placeholders: Option<PlaceholderGeometryMap<i64>>, skip_placeholders: bool) -> SlideContext {
    SlideContext {
        theme: ThemeData { colors: vec![("accent1".to_string(), Color::new(0x44, 0x72, 0xC4))], major_font: None, minor_font: None },
        color_map: ColorMapData { mappings: vec![] },
        inherited_defaults: PptxTextBodyStyleDefaults::empty(),
        placeholders,
        skip_placeholders,
        theme_line_widths: vec![6350, 12700, 19050],
    }
}

fn read(xml: &str, ctx: &SlideContext) -> Result<Vec<SlideElement<i64>>, ConvertError> {
    parse_slide_xml(xml, ctx, &|size: i64, _percent: i64| size)
}

fn first_paragraph_text(block: &GroupedBlock<i64, office2pdf::ir::elements::Paragraph<i64>>) -> String {
    match block {
        GroupedBlock::Block(p) => p.runs.iter().map(|r| r.text.clone()).collect(),
        GroupedBlock::List(_) => panic!("expected a paragraph"),
    }
}

const RECT_WITH_TEXT: &str = r#"<p:sp><p:nvSpPr><p:cNvPr id="2" name="Box"/><p:cNvSpPr/><p:nvPr/></p:nvSpPr><p:spPr><a:xfrm><a:off x="100" y="200"/><a:ext cx="3000" cy="4000"/></a:xfrm><a:prstGeom prst="rect"><a:avLst/></a:prstGeom><a:solidFill><a:srgbClr val="FF0000"/></a:solidFill></p:spPr><p:txBody><a:bodyPr/><a:lstStyle/><a:p><a:r><a:rPr lang="en-US"/><a:t>Hello</a:t></a:r></a:p></p:txBody></p:sp>"#;

#[test]
fn rectangle_with_text_reads_as_one_filled_text_box() {
    let elements = read(&slide(RECT_WITH_TEXT), &context(None, false)).expect("well-formed slide");
    assert_eq!(elements.len(), 1);
    assert_eq!((elements[0].x, elements[0].y, elements[0].width, elements[0].height), (100, 200, 3000, 4000));
    match &elements[0].kind {
        SlideElementKind::TextBox(text_box) => {
            assert_eq!(text_box.fill, Some(Color::new(255, 0, 0)));
            assert_eq!(text_box.content.len(), 1);
            assert_eq!(first_paragraph_text(&text_box.content[0]), "Hello");
            assert_eq!(text_box.padding.left, 91440);
            assert_eq!(text_box.padding.top, 45720);
        },
        SlideElementKind::Shape(_) => panic!("expected a text box"),
    }
}

#[test]
fn ellipse_without_text_takes_theme_line_width_from_style_reference() {
    let sp = r#"<p:sp><p:nvSpPr><p:cNvPr id="3" name="Oval"/><p:cNvSpPr/><p:nvPr/></p:nvSpPr><p:spPr><a:xfrm><a:off x="10" y="20"/><a:ext cx="30" cy="40"/></a:xfrm><a:prstGeom prst="ellipse"><a:avLst/></a:prstGeom></p:spPr><p:style><a:lnRef idx="2"><a:schemeClr val="accent1"/></a:lnRef><a:fillRef idx="1"><a:schemeClr val="accent1"/></a:fillRef></p:style></p:sp>"#;
    let elements = read(&slide(sp), &context(None, false)).expect("well-formed slide");
    assert_eq!(elements.len(), 1);
    match &elements[0].kind {
        SlideElementKind::Shape(data) => {
            assert_eq!(data.kind, PresetKind::Ellipse);
            assert_eq!(data.fill, Some(Color::new(0x44, 0x72, 0xC4)));
            let stroke = data.stroke.clone().expect("outline from the line reference");
            assert_eq!(stroke.width, 12700);
            assert_eq!(stroke.color, Color::new(0x44, 0x72, 0xC4));
        },
        SlideElementKind::TextBox(_) => panic!("expected a shape"),
    }
}

#[test]
fn shapes_come_out_in_document_order() {
    let second = RECT_WITH_TEXT.replace(r#"x="100" y="200""#, r#"x="500" y="600""#);
    let elements = read(&slide(&format!("{RECT_WITH_TEXT}{second}")), &context(None, false)).expect("well-formed slide");
    assert_eq!(elements.len(), 2);
    assert_eq!((elements[0].x, elements[0].y), (100, 200));
    assert_eq!((elements[1].x, elements[1].y), (500, 600));
}

const PLACEHOLDER: &str = r#"<p:sp><p:nvSpPr><p:cNvPr id="4" name="Title"/><p:cNvSpPr/><p:nvPr><p:ph type="title"/></p:nvPr></p:nvSpPr><p:spPr/><p:txBody><a:bodyPr/><a:lstStyle/><a:p><a:r><a:t>Title</a:t></a:r></a:p></p:txBody></p:sp>"#;

#[test]
fn placeholders_of_a_skipped_layer_are_not_drawn() {
    let elements = read(&slide(PLACEHOLDER), &context(None, true)).expect("well-formed slide");
    assert!(elements.is_empty());
}

#[test]
fn slide_reader_places_placeholder_in_layout_frame() {
    let layout = slide(
        r#"<p:sp><p:nvSpPr><p:cNvPr id="2" name="T"/><p:cNvSpPr/><p:nvPr><p:ph type="title"/></p:nvPr></p:nvSpPr><p:spPr><a:xfrm><a:off x="457200" y="274638"/><a:ext cx="8229600" cy="1143000"/></a:xfrm></p:spPr></p:sp>"#,
    );
    let ctx = context(None, false);
    let map = PlaceholderGeometryMap::build(
        Some(layout.as_str()),
        None,
        &ctx.theme,
        &ctx.color_map,
        &ctx.color_map,
        PptxMasterTextStyles::empty(),
    );
    let elements = read(&slide(PLACEHOLDER), &context(Some(map), false)).expect("well-formed slide");
    assert_eq!(elements.len(), 1);
    assert_eq!((elements[0].x, elements[0].y, elements[0].width, elements[0].height), (457200, 274638, 8229600, 1143000));
}

#[test]
fn malformed_xml_is_a_parse_error() {
    let result = read("<p:sld><p:cSld></p:sld>", &context(None, false));
    assert!(matches!(result, Err(ConvertError::Parse(_))));
}

#[test]
fn empty_shape_tree_reads_as_no_elements() {
    let elements = read(&slide(""), &context(None, false)).expect("well-formed slide");
    assert!(elements.is_empty());
}
