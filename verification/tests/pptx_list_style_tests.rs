use office2pdf::ir::elements::{CellVerticalAlign, Insets, TextBoxVerticalAlign};
use office2pdf::ir::style::{Color, Alignment, LineSpacing, ParagraphStyle, TextDirection, TextStyle};
use office2pdf::parser::pptx_defaults::{
    PptxBulletColorSource, PptxBulletFontSource, PptxBulletSizeSource,
    PptxTextBodyStyleDefaults,
};
use office2pdf::parser::pptx_list_style::{
    extract_paragraph_props, extract_pptx_line_spacing_pct, extract_pptx_line_spacing_pts,
    extract_pptx_table_cell_props, extract_pptx_text_box_body_props, extract_rpr_attributes,
    parse_master_text_styles,
};
use office2pdf::parser::pptx_placeholders::{scan_layer_placeholders, PlaceholderGeometryMap};
use office2pdf::parser::pptx_text::{PptxAutoNumbering, PptxBulletKind};
use office2pdf::xml::{XmlAttr, XmlTag};
use office2pdf::parser::pptx_theme::{ColorMapData, ThemeData};

fn tag(name: &str, attrs: &[(&str, &str)]) -> XmlTag {
    XmlTag {
        name: name.to_string(),
        attrs: attrs
            .iter()
            .map(|(n, v)| XmlAttr { name: n.to_string(), value: v.to_string() })
            .collect(),
    }
}

/// A layout whose one placeholder has the given list style content,
/// followed in its text body by `after`.
fn layout_with_list_style(content: &str, after: &str) -> String {
    format!(
        r#"<p:sldLayout xmlns:a="a" xmlns:p="p"><p:cSld><p:spTree><p:sp><p:nvSpPr><p:nvPr><p:ph type="body" idx="1"/></p:nvPr></p:nvSpPr><p:spPr/><p:txBody><a:bodyPr/><a:lstStyle>{content}</a:lstStyle>{after}</p:txBody></p:sp></p:spTree></p:cSld></p:sldLayout>"#
    )
}

/// Read the list style a placeholder of a layout holds.
fn read_list_style(content: &str) -> PptxTextBodyStyleDefaults<i64> {
    let mut entries = scan_layer_placeholders(&layout_with_list_style(content, "<a:p/>"), &no_theme(), &no_color_map());
    assert_eq!(entries.len(), 1);
    entries.remove(0).text_defaults.expect("a list style")
}

/// A master holding the given text styles.
fn master_with_tx_styles(tx_styles: &str) -> String {
    format!(
        r#"<p:sldMaster xmlns:a="a" xmlns:p="p"><p:cSld><p:spTree/></p:cSld><p:txStyles>{tx_styles}</p:txStyles></p:sldMaster>"#
    )
}

#[test]
fn run_attributes_are_read_in_hundredths_of_a_point() {
    let mut style: TextStyle<i64> = TextStyle::default();
    style.bold = Some(true);
    extract_rpr_attributes(&tag("defRPr", &[("sz", "1800"), ("i", "true"), ("u", "none"), ("strike", "sngStrike")]), &mut style);
    assert_eq!(style.font_size, Some(1800));
    assert_eq!(style.bold, Some(true));
    assert_eq!(style.italic, Some(true));
    assert_eq!(style.underline, Some(false));
    assert_eq!(style.strikethrough, Some(true));
    extract_rpr_attributes(&tag("rPr", &[("b", "0"), ("u", "sng"), ("strike", "noStrike"), ("sz", "big")]), &mut style);
    assert_eq!(style.bold, Some(false));
    assert_eq!(style.underline, Some(true));
    assert_eq!(style.strikethrough, Some(false));
    assert_eq!(style.font_size, Some(1800));
}

#[test]
fn paragraph_attributes_set_alignment_direction_and_indents() {
    let mut style: ParagraphStyle<i64> = ParagraphStyle::default();
    extract_paragraph_props(&tag("pPr", &[("algn", "just"), ("rtl", "1"), ("marL", "457200"), ("marR", "12700"), ("indent", "-228600")]), &mut style);
    assert_eq!(style.alignment, Some(Alignment::Justify));
    assert_eq!(style.direction, Some(TextDirection::Rtl));
    assert_eq!(style.indent_left, Some(457200));
    assert_eq!(style.indent_right, Some(12700));
    assert_eq!(style.indent_first_line, Some(-228600));
    // An unknown alignment clears it; a false `rtl` leaves the direction.
    extract_paragraph_props(&tag("pPr", &[("algn", "dist"), ("rtl", "0")]), &mut style);
    assert_eq!(style.alignment, None);
    assert_eq!(style.direction, Some(TextDirection::Rtl));
}

#[test]
fn line_spacing_keeps_its_unit() {
    let mut style: ParagraphStyle<i64> = ParagraphStyle::default();
    extract_pptx_line_spacing_pct(&tag("spcPct", &[("val", "150000")]), &mut style);
    assert_eq!(style.line_spacing, Some(LineSpacing::Proportional(150000)));
    extract_pptx_line_spacing_pts(&tag("spcPts", &[("val", "1800")]), &mut style);
    assert_eq!(style.line_spacing, Some(LineSpacing::Exact(1800)));
    extract_pptx_line_spacing_pts(&tag("spcPts", &[]), &mut style);
    assert_eq!(style.line_spacing, Some(LineSpacing::Exact(1800)));
}

#[test]
fn list_style_reads_defaults_and_levels() {
    let content = r#"<a:defPPr algn="r"/><a:lvl1pPr marL="342900" indent="-342900" algn="ctr" rtl="1"><a:lnSpc><a:spcPct val="90000"/></a:lnSpc><a:buClr><a:srgbClr val="FF0000"/></a:buClr><a:buSzPct val="75000"/><a:buChar char="-"/><a:defRPr sz="2400" b="1" i="0" u="sng" strike="noStrike"><a:solidFill><a:srgbClr val="00FF00"/></a:solidFill><a:latin typeface="Arial"/></a:defRPr></a:lvl1pPr><a:lvl2pPr><a:buAutoNum type="arabicPeriod" startAt="3"/></a:lvl2pPr><a:lvl3pPr><a:buNone/><a:buFontTx/><a:buClrTx/><a:buSzTx/></a:lvl3pPr>"#;
    // What follows the list style's end is not part of it.
    let mut entries = scan_layer_placeholders(&layout_with_list_style(content, r#"<a:lvl4pPr algn="l"/><a:p/>"#), &no_theme(), &no_color_map());
    let d = entries.remove(0).text_defaults.expect("a list style");

    assert_eq!(d.default_paragraph.alignment, Some(Alignment::Right));
    assert_eq!(d.levels.len(), 3);

    let first = &d.levels[&0];
    assert_eq!(first.paragraph.alignment, Some(Alignment::Center));
    assert_eq!(first.paragraph.direction, Some(TextDirection::Rtl));
    assert_eq!(first.paragraph.indent_left, Some(342900));
    assert_eq!(first.paragraph.indent_first_line, Some(-342900));
    assert_eq!(first.paragraph.line_spacing, Some(LineSpacing::Proportional(90000)));
    assert_eq!(first.bullet.kind, Some(PptxBulletKind::Character("-".to_string())));
    assert_eq!(first.bullet.size, Some(PptxBulletSizeSource::Percent(75000)));
    assert_eq!(first.bullet.color, Some(PptxBulletColorSource::Explicit(Color::new(255, 0, 0))));
    assert_eq!(first.run.font_size, Some(2400));
    assert_eq!(first.run.bold, Some(true));
    assert_eq!(first.run.italic, Some(false));
    assert_eq!(first.run.underline, Some(true));
    assert_eq!(first.run.strikethrough, Some(false));
    assert_eq!(first.run.color, Some(Color::new(0, 255, 0)));
    assert_eq!(first.run.font_family.as_deref(), Some("Arial"));

    let second = &d.levels[&1];
    assert_eq!(
        second.bullet.kind,
        Some(PptxBulletKind::AutoNumber(PptxAutoNumbering {
            level: 1,
            numbering_pattern: Some("1.".to_string()),
            start_at: Some(3),
        }))
    );

    let third = &d.levels[&2];
    assert_eq!(third.bullet.kind, Some(PptxBulletKind::NoBullet));
    assert_eq!(third.bullet.font, Some(PptxBulletFontSource::FollowText));
    assert_eq!(third.bullet.color, Some(PptxBulletColorSource::FollowText));
    assert_eq!(third.bullet.size, Some(PptxBulletSizeSource::FollowText));
}

#[test]
fn bullets_outside_a_paragraph_container_are_ignored() {
    let d = read_list_style(r#"<a:buChar char="x"/><a:lvl4pPr algn="l"/><a:buNone/>"#);
    assert!(d.default_bullet.kind.is_none());
    assert_eq!(d.levels.len(), 1);
    assert_eq!(d.levels[&3].paragraph.alignment, Some(Alignment::Left));
    assert!(d.levels[&3].bullet.kind.is_none());
}

#[test]
fn bullet_character_defaults_to_a_disc_at_the_top_level_only() {
    let d = read_list_style(r#"<a:defPPr><a:buChar/></a:defPPr><a:lvl2pPr><a:buAutoNum type="romanUcPeriod"/><a:buChar/><a:buSzPts val="1200"/></a:lvl2pPr>"#);
    assert_eq!(d.default_bullet.kind, Some(PptxBulletKind::Character("\u{2022}".to_string())));
    assert_eq!(d.levels[&1].bullet.kind, None);
    assert_eq!(d.levels[&1].bullet.size, Some(PptxBulletSizeSource::Points(1200)));
}

#[test]
fn master_style_buckets_stop_at_their_own_end() {
    let styles = parse_master_text_styles_plain(&master_with_tx_styles(
        r#"<p:titleStyle><a:lvl1pPr algn="ctr"/></p:titleStyle><a:lvl2pPr algn="r"/><p:otherStyle><a:lvl1pPr><a:defRPr sz="1200"/></a:lvl1pPr></p:otherStyle>"#,
    ));
    assert_eq!(styles.title.levels.len(), 1);
    assert_eq!(styles.title.levels[&0].paragraph.alignment, Some(Alignment::Center));
    assert!(styles.body.levels.is_empty());
    assert_eq!(styles.other.levels.len(), 1);
    assert_eq!(styles.other.levels[&0].run.font_size, Some(1200));
}

#[test]
fn run_defaults_end_with_their_element() {
    let d = read_list_style(r#"<a:lvl1pPr><a:defRPr b="1"></a:defRPr><a:spcPct val="50000"/></a:lvl1pPr><a:lvl1pPr><a:defRPr i="1"/></a:lvl1pPr>"#);
    let first = &d.levels[&0];
    assert_eq!(first.run.bold, Some(true));
    assert_eq!(first.run.italic, Some(true));
    // `spcPct` outside `lnSpc` is not line spacing.
    assert_eq!(first.paragraph.line_spacing, None);
}

#[test]
fn layout_placeholder_list_style_overrides_master_title_style() {
    let layout = r#"<p:sldLayout xmlns:a="a" xmlns:p="p"><p:cSld><p:spTree><p:sp><p:nvSpPr><p:cNvPr id="2" name="Title"/><p:nvPr><p:ph type="title"/></p:nvPr></p:nvSpPr><p:spPr/><p:txBody><a:bodyPr/><a:lstStyle><a:lvl1pPr algn="l"><a:defRPr sz="3000"/></a:lvl1pPr></a:lstStyle><a:p><a:endParaRPr lang="en-US"/></a:p></p:txBody></p:sp></p:spTree></p:cSld></p:sldLayout>"#;
    let masters = parse_master_text_styles_plain(&master_with_tx_styles(
        r#"<p:titleStyle><a:lvl1pPr algn="ctr"><a:defRPr sz="4400" b="1"/></a:lvl1pPr></p:titleStyle><p:bodyStyle><a:lvl1pPr><a:defRPr sz="2800"/></a:lvl1pPr><a:lvl2pPr><a:defRPr sz="2400"/></a:lvl2pPr></p:bodyStyle><p:otherStyle><a:lvl1pPr><a:defRPr sz="1200"/></a:lvl1pPr></p:otherStyle>"#,
    ));
    let map = PlaceholderGeometryMap::build(Some(layout), None, &no_theme(), &no_color_map(), &no_color_map(), masters);
    let title = map.text_defaults(Some("title"), None);
    assert_eq!(title.run_style_for_level(0).font_size, Some(3000));
    assert_eq!(title.run_style_for_level(0).bold, Some(true));
    assert_eq!(title.paragraph_style_for_level(0).alignment, Some(Alignment::Left));
    let body = map.text_defaults(Some("body"), Some("1"));
    assert_eq!(body.run_style_for_level(0).font_size, Some(2800));
    assert_eq!(body.run_style_for_level(1).font_size, Some(2400));
    let footer = map.text_defaults(Some("ftr"), Some("11"));
    assert_eq!(footer.run_style_for_level(0).font_size, Some(1200));
}

#[test]
fn text_box_body_properties() {
    let mut padding: Insets<i64> = Insets { top: 45720, right: 91440, bottom: 45720, left: 91440 };
    let mut anchor = TextBoxVerticalAlign::Top;
    let mut no_wrap = false;
    extract_pptx_text_box_body_props(&tag("bodyPr", &[("lIns", "0"), ("bIns", "12700"), ("anchor", "ctr"), ("wrap", "square")]), &mut padding, &mut anchor, &mut no_wrap);
    assert_eq!(padding, Insets { top: 45720, right: 91440, bottom: 12700, left: 0 });
    assert_eq!(anchor, TextBoxVerticalAlign::Center);
    assert!(!no_wrap);
    extract_pptx_text_box_body_props(&tag("bodyPr", &[("anchor", "t"), ("wrap", "none")]), &mut padding, &mut anchor, &mut no_wrap);
    assert_eq!(anchor, TextBoxVerticalAlign::Top);
    assert!(no_wrap);
    extract_pptx_text_box_body_props(&tag("bodyPr", &[("anchor", "b")]), &mut padding, &mut anchor, &mut no_wrap);
    assert_eq!(anchor, TextBoxVerticalAlign::Bottom);
    assert!(no_wrap);
}

#[test]
fn table_cell_properties() {
    let mut anchor: Option<CellVerticalAlign> = None;
    let mut padding: Option<Insets<i64>> = None;
    extract_pptx_table_cell_props(&tag("tcPr", &[("anchor", "b")]), &mut anchor, &mut padding);
    assert_eq!(anchor, Some(CellVerticalAlign::Bottom));
    assert_eq!(padding, None);
    extract_pptx_table_cell_props(&tag("tcPr", &[("marL", "91440"), ("marB", "x")]), &mut anchor, &mut padding);
    assert_eq!(padding, Some(Insets { top: 0, right: 0, bottom: 0, left: 91440 }));
    extract_pptx_table_cell_props(&tag("tcPr", &[("anchor", "ctr"), ("marT", "45720")]), &mut anchor, &mut padding);
    assert_eq!(anchor, Some(CellVerticalAlign::Center));
    assert_eq!(padding, Some(Insets { top: 45720, right: 0, bottom: 0, left: 91440 }));
    extract_pptx_table_cell_props(&tag("tcPr", &[("anchor", "dist")]), &mut anchor, &mut padding);
    assert_eq!(anchor, Some(CellVerticalAlign::Top));
}

#[test]
fn only_the_nine_list_levels_are_read() {
    let d = read_list_style(r#"<a:lvl0pPr algn="l"/><a:lvl9pPr algn="r"/><a:lvl10pPr algn="ctr"/><a:lvlApPr/>"#);
    assert_eq!(d.levels.keys().copied().collect::<Vec<u32>>(), vec![8]);
    assert_eq!(d.levels[&8].paragraph.alignment, Some(Alignment::Right));
}

fn no_theme() -> ThemeData {
    ThemeData { colors: vec![], major_font: None, minor_font: None }
}

fn no_color_map() -> ColorMapData {
    ColorMapData { mappings: vec![] }
}

fn parse_master_text_styles_plain(xml: &str) -> office2pdf::parser::pptx_defaults::PptxMasterTextStyles<i64> {
    parse_master_text_styles(xml, &no_theme(), &no_color_map())
}

#[test]
fn list_style_colors_and_fonts_resolve_against_the_theme() {
    let theme = ThemeData {
        colors: vec![("dk2".to_string(), Color::new(0x1F, 0x49, 0x7D)), ("accent1".to_string(), Color::new(0x4F, 0x81, 0xBD))],
        major_font: Some("Major Font".to_string()),
        minor_font: Some("Minor Font".to_string()),
    };
    let color_map = ColorMapData { mappings: vec![("tx2".to_string(), "dk2".to_string())] };
    let layout = layout_with_list_style(
        r#"<a:lvl1pPr><a:buClr><a:schemeClr val="accent1"><a:lumMod val="75000"/></a:schemeClr></a:buClr><a:buFont typeface="+mn-lt"/><a:defRPr><a:solidFill><a:schemeClr val="tx2"/></a:solidFill><a:latin typeface="+mj-lt"/><a:ea typeface="Other"/></a:defRPr></a:lvl1pPr><a:lvl2pPr><a:defRPr><a:solidFill><a:sysClr val="windowText" lastClr="0a0B0c"/></a:solidFill><a:latin typeface=" "/></a:defRPr></a:lvl2pPr><a:lvl3pPr><a:defRPr><a:solidFill><a:schemeClr val="phClr"/></a:solidFill></a:defRPr></a:lvl3pPr>"#,
        "<a:p/>",
    );
    let mut entries = scan_layer_placeholders(&layout, &theme, &color_map);
    let d = entries.remove(0).text_defaults.expect("a list style");
    let first = &d.levels[&0];
    assert_eq!(first.bullet.color, Some(PptxBulletColorSource::Explicit(Color::new(0x4F, 0x81, 0xBD))));
    assert_eq!(first.bullet.font, Some(PptxBulletFontSource::Explicit("Minor Font".to_string())));
    assert_eq!(first.run.color, Some(Color::new(0x1F, 0x49, 0x7D)));
    // The first typeface wins; later ones do not replace it.
    assert_eq!(first.run.font_family.as_deref(), Some("Major Font"));
    let second = &d.levels[&1];
    assert_eq!(second.run.color, Some(Color::new(0x0A, 0x0B, 0x0C)));
    assert_eq!(second.run.font_family, None);
    assert_eq!(d.levels[&2].run.color, None);
}

#[test]
fn test_title_style_resolves_theme_major_font_in_master() {
    let theme = ThemeData { colors: vec![], major_font: Some("Test Major Font".to_string()), minor_font: Some("Test Minor Font".to_string()) };
    let styles = parse_master_text_styles(
        &master_with_tx_styles(r#"<p:titleStyle><a:lvl1pPr><a:defRPr sz="4400"><a:latin typeface="+mj-lt"/></a:defRPr></a:lvl1pPr></p:titleStyle>"#),
        &theme,
        &no_color_map(),
    );
    assert_eq!(styles.title.levels[&0].run.font_family.as_deref(), Some("Test Major Font"));
}
