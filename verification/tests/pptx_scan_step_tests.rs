use office2pdf::ir::style::Color;
use office2pdf::parser::pptx_placeholders::{LayerScan, PlaceholderGeometry};
use office2pdf::parser::pptx_smartart::SmartArtScan;
use office2pdf::parser::pptx_theme::{ColorMapData, ThemeData};
use office2pdf::xml::{XmlAttr, XmlEvent, XmlTag};

fn tag(name: &str, attrs: &[(&str, &str)]) -> XmlTag {
    XmlTag {
        name: name.to_string(),
        attrs: attrs.iter().map(|(n, v)| XmlAttr { name: n.to_string(), value: v.to_string() }).collect(),
    }
}

fn start(name: &str, attrs: &[(&str, &str)]) -> XmlEvent {
    XmlEvent::Start(tag(name, attrs))
}

fn empty(name: &str, attrs: &[(&str, &str)]) -> XmlEvent {
    XmlEvent::Empty(tag(name, attrs))
}

fn end(name: &str) -> XmlEvent {
    XmlEvent::End(name.to_string())
}

#[test]
fn layer_scan_steps_record_a_placeholder_with_its_frame() {
    let events = vec![
        start("sp", &[]),
        start("nvSpPr", &[]),
        start("nvPr", &[]),
        empty("ph", &[("type", "title")]),
        end("nvPr"),
        end("nvSpPr"),
        start("spPr", &[]),
        start("xfrm", &[]),
        empty("off", &[("x", "1"), ("y", "2")]),
        empty("ext", &[("cx", "3"), ("cy", "4")]),
        end("xfrm"),
        end("spPr"),
        end("sp"),
    ];
    let mut scan = LayerScan::new();
    for event in &events {
        scan.step(event);
    }
    let entries = scan.entries();
    assert_eq!(entries.len(), 1);
    assert_eq!(entries[0].ph_type.as_deref(), Some("title"));
    assert_eq!(entries[0].geometry, Some(PlaceholderGeometry { x: 1, y: 2, cx: 3, cy: 4 }));
    assert!(entries[0].text_defaults.is_none());
}

#[test]
fn layer_scan_steps_skip_a_shape_without_placeholder_and_a_partial_frame() {
    let mut scan = LayerScan::new();
    for event in &[start("sp", &[]), start("spPr", &[]), end("spPr"), end("sp")] {
        scan.step(event);
    }
    assert!(scan.entries().is_empty());
    for event in &[
        start("sp", &[]),
        empty("ph", &[("idx", "3")]),
        start("spPr", &[]),
        start("xfrm", &[]),
        empty("off", &[("x", "1"), ("y", "2")]),
        end("xfrm"),
        end("spPr"),
        end("sp"),
    ] {
        scan.step(event);
    }
    let entries = scan.entries();
    assert_eq!(entries.len(), 1);
    assert_eq!(entries[0].ph_idx.as_deref(), Some("3"));
    assert_eq!(entries[0].geometry, None);
}

#[test]
fn smartart_scan_steps_read_one_shape() {
    let theme = ThemeData { colors: vec![], major_font: None, minor_font: None };
    let color_map = ColorMapData { mappings: vec![] };
    let mut scan = SmartArtScan::new();
    scan.start(&tag("sp", &[]), &theme, &color_map);
    scan.start(&tag("spPr", &[]), &theme, &color_map);
    scan.start(&tag("xfrm", &[]), &theme, &color_map);
    scan.empty(&tag("off", &[("x", "10"), ("y", "20")]), &theme, &color_map);
    scan.empty(&tag("ext", &[("cx", "30"), ("cy", "40")]), &theme, &color_map);
    scan.end("xfrm");
    scan.start(&tag("solidFill", &[]), &theme, &color_map);
    scan.empty(&tag("srgbClr", &[("val", "00FF00")]), &theme, &color_map);
    scan.end("solidFill");
    scan.end("spPr");
    scan.start(&tag("txBody", &[]), &theme, &color_map);
    scan.start(&tag("p", &[]), &theme, &color_map);
    scan.start(&tag("r", &[]), &theme, &color_map);
    scan.start(&tag("t", &[]), &theme, &color_map);
    scan.text(&"Step".to_string());
    scan.end("t");
    scan.end("r");
    scan.end("p");
    scan.end("txBody");
    scan.end("sp");
    let shapes = scan.shapes();
    assert_eq!(shapes.len(), 1);
    assert_eq!((shapes[0].x, shapes[0].y, shapes[0].cx, shapes[0].cy), (10, 20, 30, 40));
    assert_eq!(shapes[0].fill, Some(Color::new(0, 255, 0)));
    assert_eq!(shapes[0].texts, vec!["Step".to_string()]);
}
