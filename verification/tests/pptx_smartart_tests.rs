use office2pdf::ir::elements::{BorderLineStyle, TextBoxVerticalAlign};
use office2pdf::ir::fixed::{SlideElement, SlideElementKind};
use office2pdf::ir::style::{Alignment, Color};
use office2pdf::parser::docx_lists::GroupedBlock;
use office2pdf::parser::pptx_shapes::PresetKind;
use office2pdf::parser::pptx_smartart::{parse_smartart_drawing, smartart_shape_elements, SmartArtDrawShape};
use office2pdf::parser::pptx_theme::{ColorMapData, ThemeData};

#[test]
fn smartart_drawing_shapes_keep_frame_colors_and_text() {
    let xml = r#"<dsp:drawing xmlns:dsp="d" xmlns:a="a"><dsp:spTree><dsp:sp><dsp:spPr><a:xfrm><a:off x="100" y="200"/><a:ext cx="3000" cy="4000"/></a:xfrm><a:prstGeom prst="roundRect"/><a:solidFill><a:srgbClr val="4472C4"/></a:solidFill><a:ln w="12700"><a:solidFill><a:schemeClr val="lt1"/></a:solidFill></a:ln></dsp:spPr><dsp:txBody><a:p><a:r><a:t>  Step 1 </a:t></a:r><a:r><a:t>   </a:t></a:r></a:p><a:p><a:r><a:t>Detail</a:t></a:r></a:p></dsp:txBody></dsp:sp><dsp:sp><dsp:spPr><a:xfrm><a:off x="1" y="1"/><a:ext cx="0" cy="10"/></a:xfrm></dsp:spPr><dsp:txBody><a:p><a:r><a:t>hidden</a:t></a:r></a:p></dsp:txBody></dsp:sp></dsp:spTree></dsp:drawing>"#;
    let theme = ThemeData { colors: vec![("lt1".to_string(), Color::new(255, 255, 255))], major_font: None, minor_font: None };
    let shapes = parse_smartart_drawing(xml, &theme, &ColorMapData { mappings: vec![] });
    assert_eq!(shapes.len(), 1);
    let shape = &shapes[0];
    assert_eq!((shape.x, shape.y, shape.cx, shape.cy), (100, 200, 3000, 4000));
    assert_eq!(shape.preset.as_deref(), Some("roundRect"));
    assert_eq!(shape.fill, Some(Color::new(0x44, 0x72, 0xC4)));
    assert_eq!(shape.line, Some(Color::new(255, 255, 255)));
    assert_eq!(shape.line_w, 12700);
    assert_eq!(shape.texts, vec!["Step 1".to_string(), "Detail".to_string()]);
}

#[test]
fn smartart_shape_becomes_shape_and_centred_white_text_box() {
    let xml = r#"<sp><spPr><off x="12700" y="25400"/><ext cx="127000" cy="63500"/><prstGeom prst="ellipse"/><solidFill><srgbClr val="FF0000"/></solidFill></spPr><txBody><t> Hi </t></txBody></sp>"#;
    let shapes = parse_smartart_drawing(xml, &no_theme(), &ColorMapData { mappings: vec![] });
    assert_eq!(shapes.len(), 1);
    let elements: Vec<SlideElement<f64>> = smartart_shape_elements(&shapes[0]);
    assert_eq!(elements.len(), 2);
    assert_eq!((elements[0].x, elements[0].y, elements[0].width, elements[0].height), (12700, 25400, 127000, 63500));
    match &elements[0].kind {
        SlideElementKind::Shape(shape) => {
            assert_eq!(shape.kind, PresetKind::Ellipse);
            assert_eq!(shape.fill, Some(Color::new(255, 0, 0)));
            assert!(shape.stroke.is_none());
        }
        SlideElementKind::TextBox(_) => panic!("expected the shape first"),
    }
    assert_eq!((elements[1].x, elements[1].y, elements[1].width, elements[1].height), (12700, 25400, 127000, 63500));
    match &elements[1].kind {
        SlideElementKind::TextBox(text_box) => {
            assert_eq!(text_box.content.len(), 1);
            let paragraph = match &text_box.content[0] {
                GroupedBlock::Block(p) => p,
                GroupedBlock::List(_) => panic!("expected a paragraph"),
            };
            assert_eq!(paragraph.style.alignment, Some(Alignment::Center));
            assert_eq!(paragraph.runs.len(), 1);
            assert_eq!(paragraph.runs[0].text, "Hi");
            assert_eq!(paragraph.runs[0].style.color, Some(Color::new(255, 255, 255)));
            assert_eq!(text_box.vertical_align, TextBoxVerticalAlign::Center);
            assert!(text_box.fill.is_none());
            assert!(!text_box.no_wrap);
        }
        SlideElementKind::Shape(_) => panic!("expected the text box second"),
    }
}

#[test]
fn smartart_shape_without_text_or_preset_is_a_rectangle_with_its_outline() {
    let shape = SmartArtDrawShape {
        x: 0,
        y: 0,
        cx: 10,
        cy: 20,
        preset: None,
        fill: None,
        line: Some(Color::new(1, 2, 3)),
        line_w: -5,
        texts: vec![],
    };
    let elements: Vec<SlideElement<f64>> = smartart_shape_elements(&shape);
    assert_eq!(elements.len(), 1);
    match &elements[0].kind {
        SlideElementKind::Shape(data) => {
            assert_eq!(data.kind, PresetKind::Rectangle);
            let stroke = data.stroke.expect("an outline");
            assert_eq!(stroke.width, 0);
            assert_eq!(stroke.color, Color::new(1, 2, 3));
            assert_eq!(stroke.style, BorderLineStyle::Solid);
        }
        SlideElementKind::TextBox(_) => panic!("no text box without text"),
    }
}

fn no_theme() -> ThemeData {
    ThemeData { colors: vec![], major_font: None, minor_font: None }
}
