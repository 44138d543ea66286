use office2pdf::ir::style::Alignment;
use office2pdf::parser::pptx_defaults::PptxTextBodyStyleDefaults;
use office2pdf::parser::pptx_list_style::{extract_rpr_attributes, parse_master_text_styles};
use office2pdf::parser::pptx_placeholders::{scan_layer_placeholders, PlaceholderGeometryMap};
use office2pdf::xml::{XmlAttr, XmlTag};
use office2pdf::parser::pptx_theme::{ColorMapData, ThemeData};

/// A placeholder `<p:sp>` with no explicit geometry and no local styling:
/// everything must come from the inheritance chain.
fn make_plain_placeholder_sp(ph_attrs: &str, paragraphs_xml: &str) -> String {
    format!(
        r#"<p:sp><p:nvSpPr><p:cNvPr id="2" name="Placeholder"/><p:cNvSpPr><a:spLocks noGrp="1"/></p:cNvSpPr><p:nvPr><p:ph {ph_attrs}/></p:nvPr></p:nvSpPr><p:spPr/><p:txBody><a:bodyPr/><a:lstStyle/>{paragraphs_xml}</p:txBody></p:sp>"#
    )
}

fn make_simple_paragraph(text: &str) -> String {
    format!(r#"<a:p><a:r><a:rPr lang="en-US"/><a:t>{text}</a:t></a:r></a:p>"#)
}

fn make_leveled_paragraph(level: u32, text: &str) -> String {
    format!(r#"<a:p><a:pPr lvl="{level}"/><a:r><a:rPr lang="en-US"/><a:t>{text}</a:t></a:r></a:p>"#)
}

const NAMESPACES: &str = r#"xmlns:a="http://schemas.openxmlformats.org/drawingml/2006/main" xmlns:r="http://schemas.openxmlformats.org/officeDocument/2006/relationships" xmlns:p="http://schemas.openxmlformats.org/presentationml/2006/main""#;
const GROUP_PROPS: &str = r#"<p:nvGrpSpPr><p:cNvPr id="1" name=""/><p:cNvGrpSpPr/><p:nvPr/></p:nvGrpSpPr><p:grpSpPr/>"#;

fn make_slide(shapes: &[String]) -> String {
    format!(
        r#"<?xml version="1.0" encoding="UTF-8"?><p:sld {NAMESPACES}><p:cSld><p:spTree>{GROUP_PROPS}{}</p:spTree></p:cSld></p:sld>"#,
        shapes.concat()
    )
}

fn make_layout(shapes: &[String]) -> String {
    format!(
        r#"<?xml version="1.0" encoding="UTF-8"?><p:sldLayout {NAMESPACES}><p:cSld><p:spTree>{GROUP_PROPS}{}</p:spTree></p:cSld></p:sldLayout>"#,
        shapes.concat()
    )
}

/// Master XML with a `<p:txStyles>` block after `cSld`.
fn make_master_with_tx_styles(tx_styles_xml: &str) -> String {
    format!(
        r#"<?xml version="1.0" encoding="UTF-8"?><p:sldMaster {NAMESPACES}><p:cSld><p:spTree>{GROUP_PROPS}</p:spTree></p:cSld><p:txStyles>{tx_styles_xml}</p:txStyles></p:sldMaster>"#
    )
}

/// The text defaults the slide's single placeholder inherits from its
/// layout and master.
fn inherited_defaults(slide: &str, layout: &str, master: &str) -> PptxTextBodyStyleDefaults<i64> {
    let own = scan_layer_placeholders(slide, &no_theme(), &no_color_map());
    assert_eq!(own.len(), 1);
    let map = PlaceholderGeometryMap::build(Some(layout), Some(master), &no_theme(), &no_color_map(), &no_color_map(), parse_master_text_styles_plain(master));
    map.text_defaults(own[0].ph_type.as_deref(), own[0].ph_idx.as_deref())
}

/// A font size read in hundredths of a point, in points.
fn points(hundredths: Option<i64>) -> Option<f64> {
    hundredths.map(|v| v as f64 / 100.0)
}

const TITLE_STYLE_44_CTR: &str =
    r#"<p:titleStyle><a:lvl1pPr algn="ctr"><a:defRPr sz="4400"/></a:lvl1pPr></p:titleStyle>"#;

#[test]
fn test_title_placeholder_inherits_master_title_style() {
    let slide = make_slide(&[make_plain_placeholder_sp(r#"type="title""#, &make_simple_paragraph("Big Title"))]);
    let layout = make_layout(&[]);
    let master = make_master_with_tx_styles(TITLE_STYLE_44_CTR);

    let defaults = inherited_defaults(&slide, &layout, &master);
    assert_eq!(points(defaults.run_style_for_level(0).font_size), Some(44.0));
    assert_eq!(defaults.paragraph_style_for_level(0).alignment, Some(Alignment::Center));
}

#[test]
fn test_ctr_title_placeholder_inherits_master_title_style() {
    let slide = make_slide(&[make_plain_placeholder_sp(r#"type="ctrTitle""#, &make_simple_paragraph("Cover Title"))]);
    let layout = make_layout(&[]);
    let master = make_master_with_tx_styles(TITLE_STYLE_44_CTR);

    let defaults = inherited_defaults(&slide, &layout, &master);
    assert_eq!(points(defaults.run_style_for_level(0).font_size), Some(44.0));
}

#[test]
fn test_body_placeholder_inherits_master_body_style_levels() {
    let body_style = r#"<p:bodyStyle><a:lvl1pPr><a:defRPr sz="2800"/></a:lvl1pPr><a:lvl2pPr><a:defRPr sz="2400"/></a:lvl2pPr></p:bodyStyle>"#;
    let paragraphs = format!("{}{}", make_simple_paragraph("Level one"), make_leveled_paragraph(1, "Level two"));
    let slide = make_slide(&[make_plain_placeholder_sp(r#"type="body" idx="1""#, &paragraphs)]);
    let layout = make_layout(&[]);
    let master = make_master_with_tx_styles(body_style);

    let defaults = inherited_defaults(&slide, &layout, &master);
    assert_eq!(points(defaults.run_style_for_level(0).font_size), Some(28.0));
    assert_eq!(points(defaults.run_style_for_level(1).font_size), Some(24.0));
}

#[test]
fn test_footer_placeholder_inherits_master_other_style() {
    let other_style = r#"<p:otherStyle><a:lvl1pPr><a:defRPr sz="1200"/></a:lvl1pPr></p:otherStyle>"#;
    let slide = make_slide(&[make_plain_placeholder_sp(r#"type="ftr" sz="quarter" idx="11""#, &make_simple_paragraph("Footer text"))]);
    let layout = make_layout(&[]);
    let master = make_master_with_tx_styles(other_style);

    let defaults = inherited_defaults(&slide, &layout, &master);
    assert_eq!(points(defaults.run_style_for_level(0).font_size), Some(12.0));
}

#[test]
fn test_layout_placeholder_list_style_overrides_master() {
    let layout_title = r#"<p:sp><p:nvSpPr><p:cNvPr id="2" name="Title"/><p:cNvSpPr><a:spLocks noGrp="1"/></p:cNvSpPr><p:nvPr><p:ph type="title"/></p:nvPr></p:nvSpPr><p:spPr/><p:txBody><a:bodyPr/><a:lstStyle><a:lvl1pPr algn="l"><a:defRPr sz="3000"/></a:lvl1pPr></a:lstStyle><a:p><a:endParaRPr lang="en-US"/></a:p></p:txBody></p:sp>"#;
    let slide = make_slide(&[make_plain_placeholder_sp(r#"type="title""#, &make_simple_paragraph("Layout styled"))]);
    let layout = make_layout(&[layout_title.to_string()]);
    let master = make_master_with_tx_styles(TITLE_STYLE_44_CTR);

    let defaults = inherited_defaults(&slide, &layout, &master);
    // Layout lstStyle wins over master titleStyle...
    assert_eq!(points(defaults.run_style_for_level(0).font_size), Some(30.0));
    assert_eq!(defaults.paragraph_style_for_level(0).alignment, Some(Alignment::Left));
}

#[test]
fn test_explicit_run_properties_override_inherited_style() {
    let paragraph = r#"<a:p><a:r><a:rPr lang="en-US" sz="2000"/><a:t>Explicit size</a:t></a:r></a:p>"#;
    let slide = make_slide(&[make_plain_placeholder_sp(r#"type="title""#, paragraph)]);
    let layout = make_layout(&[]);
    let master = make_master_with_tx_styles(TITLE_STYLE_44_CTR);

    let mut style = inherited_defaults(&slide, &layout, &master).run_style_for_level(0);
    let run_properties = XmlTag {
        name: "rPr".to_string(),
        attrs: vec![
            XmlAttr { name: "lang".to_string(), value: "en-US".to_string() },
            XmlAttr { name: "sz".to_string(), value: "2000".to_string() },
        ],
    };
    extract_rpr_attributes(&run_properties, &mut style);
    assert_eq!(points(style.font_size), Some(20.0));
}

fn no_theme() -> ThemeData {
    ThemeData { colors: vec![], major_font: None, minor_font: None }
}

fn no_color_map() -> ColorMapData {
    ColorMapData { mappings: vec![] }
}

fn parse_master_text_styles_plain(xml: &str) -> office2pdf::parser::pptx_defaults::PptxMasterTextStyles<i64> {
    parse_master_text_styles(xml, &no_theme(), &no_color_map())
}

#[test]
fn test_title_style_resolves_theme_major_font() {
    let title_style = r#"<p:titleStyle><a:lvl1pPr><a:defRPr sz="4400"><a:latin typeface="+mj-lt"/></a:defRPr></a:lvl1pPr></p:titleStyle>"#;
    let slide = make_slide(&[make_plain_placeholder_sp(r#"type="title""#, &make_simple_paragraph("Themed Title"))]);
    let layout = make_layout(&[]);
    let master = make_master_with_tx_styles(title_style);
    let theme = ThemeData {
        colors: vec![],
        major_font: Some("Test Major Font".to_string()),
        minor_font: Some("Test Minor Font".to_string()),
    };

    let own = scan_layer_placeholders(&slide, &theme, &no_color_map());
    let styles = parse_master_text_styles(&master, &theme, &no_color_map());
    let map = PlaceholderGeometryMap::build(Some(&layout), Some(&master), &theme, &no_color_map(), &no_color_map(), styles);
    let defaults = map.text_defaults(own[0].ph_type.as_deref(), own[0].ph_idx.as_deref());
    assert_eq!(defaults.run_style_for_level(0).font_family.as_deref(), Some("Test Major Font"));
}
