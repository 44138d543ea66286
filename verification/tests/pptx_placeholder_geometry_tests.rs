use office2pdf::ir::style::Alignment;
use office2pdf::parser::pptx_defaults::{PptxMasterTextStyles, PptxTextBodyStyleDefaults};
use office2pdf::parser::pptx_slide_reader::{parse_slide_xml, SlideContext};
use office2pdf::parser::pptx_placeholders::{
    find_in_layer, find_in_master, is_title_family, normalized_master_type,
    scan_layer_placeholders, MasterTextBucket, PlaceholderGeometry, PlaceholderGeometryMap,
};
use office2pdf::parser::pptx_theme::{ColorMapData, ThemeData};

const LAYOUT_HEADER: &str = r#"<?xml version="1.0" encoding="UTF-8"?><p:sldLayout xmlns:a="http://schemas.openxmlformats.org/drawingml/2006/main" xmlns:r="http://schemas.openxmlformats.org/officeDocument/2006/relationships" xmlns:p="http://schemas.openxmlformats.org/presentationml/2006/main"><p:cSld><p:spTree><p:nvGrpSpPr><p:cNvPr id="1" name=""/><p:cNvGrpSpPr/><p:nvPr/></p:nvGrpSpPr><p:grpSpPr/>"#;
const LAYOUT_FOOTER: &str = "</p:spTree></p:cSld></p:sldLayout>";

const MASTER_HEADER: &str = r#"<?xml version="1.0" encoding="UTF-8"?><p:sldMaster xmlns:a="http://schemas.openxmlformats.org/drawingml/2006/main" xmlns:r="http://schemas.openxmlformats.org/officeDocument/2006/relationships" xmlns:p="http://schemas.openxmlformats.org/presentationml/2006/main"><p:cSld><p:spTree><p:nvGrpSpPr><p:cNvPr id="1" name=""/><p:cNvGrpSpPr/><p:nvPr/></p:nvGrpSpPr><p:grpSpPr/>"#;
const MASTER_FOOTER: &str = "</p:spTree></p:cSld></p:sldMaster>";

const SLIDE_HEADER: &str = r#"<?xml version="1.0" encoding="UTF-8"?><p:sld xmlns:a="http://schemas.openxmlformats.org/drawingml/2006/main" xmlns:r="http://schemas.openxmlformats.org/officeDocument/2006/relationships" xmlns:p="http://schemas.openxmlformats.org/presentationml/2006/main"><p:cSld><p:spTree><p:nvGrpSpPr><p:cNvPr id="1" name=""/><p:cNvGrpSpPr/><p:nvPr/></p:nvGrpSpPr><p:grpSpPr/>"#;
const SLIDE_FOOTER: &str = "</p:spTree></p:cSld></p:sld>";

/// A placeholder `<p:sp>` for a slide, layout, or master.
fn make_placeholder_sp(ph_attrs: &str, xfrm_emu: Option<(i64, i64, i64, i64)>, text: &str) -> String {
    let sp_pr: String = match xfrm_emu {
        Some((x, y, cx, cy)) => format!(
            r#"<p:spPr><a:xfrm><a:off x="{x}" y="{y}"/><a:ext cx="{cx}" cy="{cy}"/></a:xfrm></p:spPr>"#
        ),
        None => "<p:spPr/>".to_string(),
    };
    format!(
        r#"<p:sp><p:nvSpPr><p:cNvPr id="2" name="Placeholder"/><p:cNvSpPr><a:spLocks noGrp="1"/></p:cNvSpPr><p:nvPr><p:ph {ph_attrs}/></p:nvPr></p:nvSpPr>{sp_pr}<p:txBody><a:bodyPr/><a:lstStyle/><a:p><a:r><a:rPr lang="en-US"/><a:t>{text}</a:t></a:r></a:p></p:txBody></p:sp>"#
    )
}

fn wrap(header: &str, shapes: &[String], footer: &str) -> String {
    let mut xml = String::from(header);
    for shape in shapes {
        xml.push_str(shape);
    }
    xml.push_str(footer);
    xml
}

fn make_slide_with_shapes(shapes: &[String]) -> String {
    wrap(SLIDE_HEADER, shapes, SLIDE_FOOTER)
}

fn make_layout_with_shapes(shapes: &[String]) -> String {
    wrap(LAYOUT_HEADER, shapes, LAYOUT_FOOTER)
}

fn make_master_with_shapes(shapes: &[String]) -> String {
    wrap(MASTER_HEADER, shapes, MASTER_FOOTER)
}

/// The frame the slide reader gives a slide's single placeholder: its own
/// where it has one, else the one the layout or master gives it.
fn resolve_slide_geometry(slide: &str, layout: &str, master: &str) -> Option<PlaceholderGeometry> {
    let map = PlaceholderGeometryMap::build(Some(layout), Some(master), &no_theme(), &no_color_map(), &no_color_map(), PptxMasterTextStyles::empty());
    let ctx = SlideContext {
        theme: no_theme(),
        color_map: no_color_map(),
        inherited_defaults: PptxTextBodyStyleDefaults::empty(),
        placeholders: Some(map),
        skip_placeholders: false,
        theme_line_widths: vec![],
    };
    let elements = parse_slide_xml(slide, &ctx, &|size: i64, _percent: i64| size).expect("well-formed slide");
    assert_eq!(elements.len(), 1);
    let e = &elements[0];
    Some(PlaceholderGeometry { x: e.x, y: e.y, cx: e.width, cy: e.height })
}

fn assert_geometry(geometry: Option<PlaceholderGeometry>, x: i64, y: i64, cx: i64, cy: i64) {
    assert_eq!(geometry, Some(PlaceholderGeometry { x, y, cx, cy }));
}

#[test]
fn test_title_placeholder_inherits_layout_geometry() {
    let slide = make_slide_with_shapes(&[make_placeholder_sp(r#"type="title""#, None, "Hello")]);
    let layout = make_layout_with_shapes(&[make_placeholder_sp(
        r#"type="title""#,
        Some((457_200, 274_638, 8_229_600, 1_143_000)),
        "Layout title",
    )]);
    let master = make_master_with_shapes(&[]);
    let geometry = resolve_slide_geometry(&slide, &layout, &master);
    assert_geometry(geometry, 457_200, 274_638, 8_229_600, 1_143_000);
}

#[test]
fn test_ctr_title_placeholder_matches_layout_title_family() {
    let slide = make_slide_with_shapes(&[make_placeholder_sp(r#"type="title""#, None, "Hello")]);
    let layout = make_layout_with_shapes(&[make_placeholder_sp(
        r#"type="ctrTitle""#,
        Some((685_800, 2_130_425, 7_772_400, 1_470_025)),
        "Centered layout title",
    )]);
    let master = make_master_with_shapes(&[]);
    let geometry = resolve_slide_geometry(&slide, &layout, &master);
    assert_geometry(geometry, 685_800, 2_130_425, 7_772_400, 1_470_025);
}

#[test]
fn test_body_placeholders_match_layout_by_idx() {
    let layout = make_layout_with_shapes(&[
        make_placeholder_sp(
            r#"type="body" idx="1""#,
            Some((457_200, 1_600_200, 4_038_600, 4_525_963)),
            "Layout left",
        ),
        make_placeholder_sp(
            r#"type="body" idx="2""#,
            Some((4_648_200, 1_600_200, 4_038_600, 4_525_963)),
            "Layout right",
        ),
    ]);
    let master = make_master_with_shapes(&[]);
    let left = make_slide_with_shapes(&[make_placeholder_sp(r#"type="body" idx="1""#, None, "Left")]);
    let right = make_slide_with_shapes(&[make_placeholder_sp(r#"type="body" idx="2""#, None, "Right")]);
    assert_geometry(resolve_slide_geometry(&left, &layout, &master), 457_200, 1_600_200, 4_038_600, 4_525_963);
    assert_geometry(resolve_slide_geometry(&right, &layout, &master), 4_648_200, 1_600_200, 4_038_600, 4_525_963);
}

#[test]
fn test_layout_placeholder_without_geometry_falls_back_to_master() {
    let slide = make_slide_with_shapes(&[make_placeholder_sp(r#"type="body" idx="1""#, None, "Hello")]);
    let layout = make_layout_with_shapes(&[make_placeholder_sp(r#"type="body" idx="1""#, None, "Layout body")]);
    let master = make_master_with_shapes(&[make_placeholder_sp(
        r#"type="body" idx="1""#,
        Some((457_200, 1_600_200, 8_229_600, 4_525_963)),
        "Master body",
    )]);
    let geometry = resolve_slide_geometry(&slide, &layout, &master);
    assert_geometry(geometry, 457_200, 1_600_200, 8_229_600, 4_525_963);
}

#[test]
fn test_subtitle_placeholder_falls_back_to_master_body() {
    let slide = make_slide_with_shapes(&[make_placeholder_sp(r#"type="subTitle" idx="1""#, None, "Hello")]);
    let layout = make_layout_with_shapes(&[]);
    let master = make_master_with_shapes(&[make_placeholder_sp(
        r#"type="body" idx="1""#,
        Some((1_371_600, 3_886_200, 6_400_800, 1_752_600)),
        "Master body",
    )]);
    let geometry = resolve_slide_geometry(&slide, &layout, &master);
    assert_geometry(geometry, 1_371_600, 3_886_200, 6_400_800, 1_752_600);
}

#[test]
fn test_footer_placeholder_matches_master_by_type_despite_idx_mismatch() {
    let slide = make_slide_with_shapes(&[make_placeholder_sp(
        r#"type="ftr" sz="quarter" idx="11""#,
        None,
        "Prislista",
    )]);
    let layout = make_layout_with_shapes(&[make_placeholder_sp(
        r#"type="ftr" sz="quarter" idx="11""#,
        None,
        "Layout footer",
    )]);
    let master = make_master_with_shapes(&[make_placeholder_sp(
        r#"type="ftr" sz="quarter" idx="4""#,
        Some((3_124_200, 6_356_350, 2_895_600, 365_125)),
        "Master footer",
    )]);
    let geometry = resolve_slide_geometry(&slide, &layout, &master);
    assert_geometry(geometry, 3_124_200, 6_356_350, 2_895_600, 365_125);
}

#[test]
fn test_placeholder_with_explicit_xfrm_keeps_own_geometry() {
    let slide = make_slide_with_shapes(&[make_placeholder_sp(
        r#"type="title""#,
        Some((914_400, 914_400, 3_657_600, 914_400)),
        "Hello",
    )]);
    let layout = make_layout_with_shapes(&[make_placeholder_sp(
        r#"type="title""#,
        Some((457_200, 274_638, 8_229_600, 1_143_000)),
        "Layout title",
    )]);
    let master = make_master_with_shapes(&[]);
    let geometry = resolve_slide_geometry(&slide, &layout, &master);
    assert_geometry(geometry, 914_400, 914_400, 3_657_600, 914_400);
}

#[test]
fn scan_skips_shapes_without_placeholders_and_records_list_styles() {
    let plain = r#"<p:sp><p:nvSpPr><p:nvPr/></p:nvSpPr><p:spPr><a:xfrm><a:off x="1" y="2"/><a:ext cx="3" cy="4"/></a:xfrm></p:spPr></p:sp>"#;
    let styled = r#"<p:sp><p:nvSpPr><p:nvPr><p:ph type="body" idx="3"/></p:nvPr></p:nvSpPr><p:spPr><a:xfrm><a:off x="1" y="2"/><a:ext cx="3"/></a:xfrm></p:spPr><p:txBody><a:lstStyle><a:lvl1pPr algn="r"/></a:lstStyle></p:txBody></p:sp>"#;
    let xml = wrap(LAYOUT_HEADER, &[plain.to_string(), styled.to_string()], LAYOUT_FOOTER);
    let entries = scan_layer_placeholders(&xml, &no_theme(), &no_color_map());
    assert_eq!(entries.len(), 1);
    assert_eq!(entries[0].ph_type.as_deref(), Some("body"));
    assert_eq!(entries[0].ph_idx.as_deref(), Some("3"));
    assert_eq!(entries[0].geometry, None);
    let list_style = entries[0].text_defaults.as_ref().expect("list style recorded");
    assert_eq!(list_style.levels.len(), 1);
    assert_eq!(list_style.levels[&0].paragraph.alignment, Some(Alignment::Right));
}

#[test]
fn placeholder_matching_rules() {
    assert!(is_title_family(Some("ctrTitle")));
    assert!(!is_title_family(Some("body")));
    assert!(!is_title_family(None));
    assert_eq!(normalized_master_type(Some("subTitle")), "body");
    assert_eq!(normalized_master_type(Some("sldNum")), "sldNum");
    assert_eq!(normalized_master_type(None), "body");
    let layout = make_layout_with_shapes(&[
        make_placeholder_sp(r#"type="dt" idx="10""#, None, "date"),
        make_placeholder_sp(r#"idx="5""#, None, "content"),
    ]);
    let entries = scan_layer_placeholders(&layout, &no_theme(), &no_color_map());
    assert_eq!(entries.len(), 2);
    let by_type = find_in_layer(&entries, Some("dt"), Some("99")).expect("date by type");
    assert_eq!(by_type.ph_idx.as_deref(), Some("10"));
    let by_idx = find_in_layer(&entries, Some("obj"), Some("5")).expect("content by index");
    assert_eq!(by_idx.ph_idx.as_deref(), Some("5"));
    assert!(find_in_layer(&entries, Some("obj"), Some("6")).is_none());
    let master = find_in_master(&entries, Some("body")).expect("content normalizes to body");
    assert_eq!(master.ph_idx.as_deref(), Some("5"));
}

#[test]
fn text_default_sources_follow_matching() {
    let map = PlaceholderGeometryMap::build(None, None, &no_theme(), &no_color_map(), &no_color_map(), PptxMasterTextStyles::empty());
    let (bucket, from_master, from_layout) = map.text_default_sources(Some("ctrTitle"), None);
    assert_eq!(bucket, MasterTextBucket::Title);
    assert!(from_master.is_none());
    assert!(from_layout.is_none());
    let (other, _, _) = map.text_default_sources(Some("ftr"), None);
    assert_eq!(other, MasterTextBucket::Other);
}

fn no_theme() -> ThemeData {
    ThemeData { colors: vec![], major_font: None, minor_font: None }
}

fn no_color_map() -> ColorMapData {
    ColorMapData { mappings: vec![] }
}
