use office2pdf::error::ConvertWarning;
use office2pdf::ir::elements::{ArrowHead, BorderLineStyle, ImageFormat, ListKind, Paragraph, Run};
use office2pdf::ir::style::{Color, ParagraphStyle, TextStyle};
use office2pdf::parser::cond_fmt::icon_set_glyphs;
use office2pdf::parser::docx_lists::GroupedBlock;
use office2pdf::parser::pptx_lists::{
    group_pptx_text_blocks, pptx_paragraph_has_visible_content, text_style_eq, PendingPptxList,
    PptxListMarker, PptxParagraphEntry,
};
use office2pdf::parser::pptx_shapes::{
    parse_arrow_head, pptx_dash_to_border_style, prst_to_shape_kind, ArrowDir, PresetKind,
};
use office2pdf::parser::pptx_slides::{
    describe_assets, exported_slide_indices, extract_data_model_ext_rel_id, insert_slide_image, is_hidden_slide,
    pick_supported_asset,
    select_picture_asset, SlideImageAsset, SlideImageMap, SlideImageSource,
};
use office2pdf::parser::pptx_text::{
    extract_paragraph_level, normalize_pptx_run_boundary_spacing, parse_pptx_auto_numbering,
    parse_pptx_bullet_marker, parse_pptx_list_style_level, pptx_auto_numbering_pattern,
    should_preserve_pptx_run_boundary_space, ParagraphTarget, PptxAutoNumbering, PptxBulletKind,
};
use office2pdf::xml::{XmlAttr, XmlTag};

fn tag(name: &str, attrs: &[(&str, &str)]) -> XmlTag {
    XmlTag {
        name: name.to_string(),
        attrs: attrs
            .iter()
            .map(|(k, v)| XmlAttr { name: k.to_string(), value: v.to_string() })
            .collect(),
    }
}

fn run(text: &str) -> Run<f64> {
    Run { text: text.to_string(), style: TextStyle::default(), href: None, footnote: None }
}

fn paragraph(text: &str) -> Paragraph<f64> {
    Paragraph { style: ParagraphStyle::default(), runs: vec![run(text)] }
}

fn numbered(level: u32, pattern: &str, start_at: Option<u32>) -> PptxListMarker<f64> {
    PptxListMarker::Ordered {
        auto_numbering: PptxAutoNumbering { level, numbering_pattern: Some(pattern.to_string()), start_at },
        marker_style: None,
    }
}

fn bullet(level: u32, text: &str) -> PptxListMarker<f64> {
    PptxListMarker::Unordered { level, marker_text: text.to_string(), marker_style: None }
}

fn entry(text: &str, marker: Option<PptxListMarker<f64>>) -> PptxParagraphEntry<f64> {
    PptxParagraphEntry { paragraph: paragraph(text), list_marker: marker }
}

#[test]
fn auto_numbering_patterns() {
    assert_eq!(pptx_auto_numbering_pattern("arabicPeriod"), Some("1."));
    assert_eq!(pptx_auto_numbering_pattern("romanUcParenR"), Some("I)"));
    assert_eq!(pptx_auto_numbering_pattern("arabicPlain"), None);
}

#[test]
fn auto_numbering_reads_type_and_start() {
    let parsed = parse_pptx_auto_numbering(&tag("buAutoNum", &[("type", "alphaLcParenR"), ("startAt", "3")]), 2);
    assert_eq!(
        parsed,
        PptxAutoNumbering { level: 2, numbering_pattern: Some("a)".to_string()), start_at: Some(3) }
    );
    let negative = parse_pptx_auto_numbering(&tag("buAutoNum", &[("startAt", "-1")]), 0);
    assert_eq!(negative.start_at, None);
    assert_eq!(negative.numbering_pattern, None);
}

#[test]
fn paragraph_level_defaults_to_zero() {
    assert_eq!(extract_paragraph_level(&tag("pPr", &[("lvl", "2")])), 2);
    assert_eq!(extract_paragraph_level(&tag("pPr", &[("lvl", "x")])), 0);
    assert_eq!(extract_paragraph_level(&tag("pPr", &[])), 0);
}

#[test]
fn bullet_marker_defaults_to_disc_at_top_level() {
    assert_eq!(
        parse_pptx_bullet_marker(&tag("buChar", &[("char", "-")]), 1),
        Some(PptxBulletKind::Character("-".to_string()))
    );
    assert_eq!(
        parse_pptx_bullet_marker(&tag("buChar", &[]), 0),
        Some(PptxBulletKind::Character("\u{2022}".to_string()))
    );
    assert_eq!(parse_pptx_bullet_marker(&tag("buChar", &[]), 1), None);
}

#[test]
fn list_style_level_names() {
    assert_eq!(parse_pptx_list_style_level("lvl1pPr"), Some(0));
    assert_eq!(parse_pptx_list_style_level("lvl9pPr"), Some(8));
    assert_eq!(parse_pptx_list_style_level("lvl0pPr"), None);
    assert_eq!(parse_pptx_list_style_level("defPPr"), None);
    assert_eq!(ParagraphTarget::Default.level(), 0);
    assert_eq!(ParagraphTarget::Level(4).level(), 4);
}

#[test]
fn boundary_space_becomes_non_breaking_before_punctuation() {
    assert!(should_preserve_pptx_run_boundary_space('='));
    assert!(!should_preserve_pptx_run_boundary_space('a'));
    let previous = run("K");
    let mut next = run(" = 100)");
    normalize_pptx_run_boundary_spacing(Some(&previous), &mut next);
    assert_eq!(next.text, "\u{00A0}= 100)");
    let spaced = run("K ");
    let mut kept = run(" = 1");
    normalize_pptx_run_boundary_spacing(Some(&spaced), &mut kept);
    assert_eq!(kept.text, " = 1");
    let mut word = run(" and");
    normalize_pptx_run_boundary_spacing(Some(&previous), &mut word);
    assert_eq!(word.text, " and");
    let mut first = run(" = 1");
    normalize_pptx_run_boundary_spacing(None, &mut first);
    assert_eq!(first.text, " = 1");
}

#[test]
fn visible_content_ignores_white_space_and_soft_breaks() {
    assert!(!pptx_paragraph_has_visible_content(&paragraph(" \u{000B}\t")));
    assert!(pptx_paragraph_has_visible_content(&paragraph(" x ")));
    let mut footnoted = paragraph("");
    footnoted.runs[0].footnote = Some("1".to_string());
    assert!(pptx_paragraph_has_visible_content(&footnoted));
}

#[test]
fn marker_accessors() {
    let n = numbered(1, "1.", Some(4));
    assert_eq!(n.kind(), ListKind::Ordered);
    assert_eq!(n.level(), 1);
    assert_eq!(n.numbering_pattern(), Some("1."));
    assert_eq!(n.start_at(), Some(4));
    assert_eq!(n.marker_text(), None);
    let b = bullet(2, "-");
    assert_eq!(b.kind(), ListKind::Unordered);
    assert_eq!(b.marker_text(), Some("-"));
    assert!(b.marker_style().is_none());
}

#[test]
fn pending_list_extension_rules() {
    let first = numbered(0, "1.", Some(1));
    let mut list = PendingPptxList::new(&first);
    assert!(list.can_extend(&first));
    list.push(paragraph("a"), first);
    assert!(list.can_extend(&numbered(0, "1.", None)));
    assert!(!list.can_extend(&numbered(0, "1.", Some(1))));
    assert!(!list.can_extend(&numbered(0, "a)", None)));
    assert!(!list.can_extend(&bullet(0, "-")));
    assert!(list.can_extend(&numbered(1, "a)", Some(1))));
    list.push(paragraph("b"), numbered(0, "1.", None));
    assert_eq!(list.items.len(), 2);
    assert_eq!(list.items[0].start_at, Some(1));
    assert_eq!(list.items[1].start_at, None);
    assert_eq!(list.level_styles[&0].numbering_pattern.as_deref(), Some("1."));
    let mut bullets = PendingPptxList::new(&bullet(0, "-"));
    bullets.push(paragraph("x"), bullet(0, "-"));
    assert!(bullets.can_extend(&bullet(0, "-")));
    assert!(!bullets.can_extend(&bullet(0, "*")));
}

#[test]
fn text_style_equality() {
    let a: TextStyle<f64> = TextStyle { font_size: Some(10.0), bold: Some(true), ..TextStyle::default() };
    let b = a.clone();
    assert!(text_style_eq(&a, &b));
    let c = TextStyle { font_size: Some(11.0), ..a.clone() };
    assert!(!text_style_eq(&a, &c));
}

#[test]
fn group_pptx_text_blocks_forms_lists_and_trims_empty_tail() {
    let entries = vec![
        entry("intro", None),
        entry("one", Some(numbered(0, "1.", None))),
        entry("two", Some(numbered(0, "1.", None))),
        entry("dot", Some(bullet(0, "-"))),
        entry("outro", None),
        entry(" ", Some(bullet(0, "-"))),
    ];
    let blocks = group_pptx_text_blocks(entries);
    assert_eq!(blocks.len(), 4);
    match &blocks[0] {
        GroupedBlock::Block(p) => assert_eq!(p.runs[0].text, "intro"),
        GroupedBlock::List(_) => panic!("expected a paragraph"),
    }
    match &blocks[1] {
        GroupedBlock::List(list) => {
            assert_eq!(list.kind, ListKind::Ordered);
            assert_eq!(list.items.len(), 2);
            assert_eq!(list.items[1].content[0].runs[0].text, "two");
        }
        GroupedBlock::Block(_) => panic!("expected a list"),
    }
    match &blocks[2] {
        GroupedBlock::List(list) => assert_eq!(list.kind, ListKind::Unordered),
        GroupedBlock::Block(_) => panic!("expected a list"),
    }
    match &blocks[3] {
        GroupedBlock::Block(p) => assert_eq!(p.runs[0].text, "outro"),
        GroupedBlock::List(_) => panic!("expected a paragraph"),
    }
}

#[test]
fn group_pptx_text_blocks_keeps_a_lone_empty_list_entry() {
    let blocks = group_pptx_text_blocks(vec![entry("", Some(bullet(0, "-")))]);
    assert_eq!(blocks.len(), 1);
}

#[test]
fn dash_and_arrow_styles() {
    assert_eq!(pptx_dash_to_border_style("lgDash"), BorderLineStyle::Dashed);
    assert_eq!(pptx_dash_to_border_style("lgDashDot"), BorderLineStyle::Dotted);
    assert_eq!(pptx_dash_to_border_style("sysDashDotDot"), BorderLineStyle::DashDotDot);
    assert_eq!(pptx_dash_to_border_style("zigzag"), BorderLineStyle::Solid);
    assert_eq!(parse_arrow_head(Some("stealth")), ArrowHead::Triangle);
    assert_eq!(parse_arrow_head(Some("none")), ArrowHead::NoHead);
    assert_eq!(parse_arrow_head(None), ArrowHead::NoHead);
}

#[test]
fn hidden_slides() {
    assert!(is_hidden_slide(r#"<?xml version="1.0"?><p:sld show="0" xmlns:p="p"/>"#));
    assert!(is_hidden_slide(r#"<p:sld show="false"><p:cSld/></p:sld>"#));
    assert!(!is_hidden_slide(r#"<p:sld show="1"><p:cSld/></p:sld>"#));
    assert!(!is_hidden_slide(r#"<p:sldLayout show="0"/>"#));
    assert!(!is_hidden_slide(""));
}

#[test]
fn data_model_ext_rel_id() {
    let xml = r#"<dgm:dataModel><dgm:extLst><a:ext uri="x"><dsp:dataModelExt xmlns:dsp="d" relId="rId7" minVer="1"/></a:ext></dgm:extLst></dgm:dataModel>"#;
    assert_eq!(extract_data_model_ext_rel_id(xml), Some("rId7".to_string()));
    assert_eq!(extract_data_model_ext_rel_id("<dgm:dataModel/>"), None);
}

fn asset(path: &str, source: SlideImageSource) -> SlideImageAsset {
    SlideImageAsset { path: path.to_string(), data: vec![1, 2, 3], source }
}

#[test]
fn slide_image_assets() {
    let png = asset("ppt/media/image1.png", SlideImageSource::Supported(ImageFormat::Png));
    assert_eq!(png.format(), Some(ImageFormat::Png));
    assert!(png.is_supported());
    assert_eq!(png.file_name(), "image1.png");
    let bare = asset("image2.wdp", SlideImageSource::Unsupported);
    assert_eq!(bare.format(), None);
    assert_eq!(bare.file_name(), "image2.wdp");
    let copy = png.copy();
    assert_eq!(copy.path, png.path);
    assert_eq!(copy.data, png.data);
}

fn images() -> SlideImageMap {
    vec![
        ("rId1".to_string(), asset("ppt/media/base.png", SlideImageSource::Supported(ImageFormat::Png))),
        ("rId2".to_string(), asset("ppt/media/vector.svg", SlideImageSource::Supported(ImageFormat::Svg))),
        ("rId3".to_string(), asset("ppt/media/layer.wdp", SlideImageSource::Unsupported)),
        ("rId4".to_string(), asset("ppt/media/other.emz", SlideImageSource::Unsupported)),
    ]
}

#[test]
fn picture_asset_prefers_svg_then_base() {
    let images = images();
    assert!(pick_supported_asset("rId3", &images).is_none());
    assert_eq!(pick_supported_asset("rId1", &images).unwrap().path, "ppt/media/base.png");
    let (selected, warnings) = select_picture_asset(&images, "slide 1", Some("rId1"), Some("rId2"), &vec![]);
    assert_eq!(selected.unwrap().path, "ppt/media/vector.svg");
    assert!(warnings.is_empty());
    let (selected, warnings) =
        select_picture_asset(&images, "slide 1", Some("rId1"), None, &vec!["rId3".to_string()]);
    assert_eq!(selected.unwrap().path, "ppt/media/base.png");
    assert_eq!(warnings.len(), 1);
    match &warnings[0] {
        ConvertWarning::PartialElement { format, element, detail } => {
            assert_eq!(format, "PPTX");
            assert_eq!(element, "slide 1 picture");
            assert_eq!(detail, "unsupported image layer omitted: layer.wdp");
        }
        other => panic!("unexpected warning {other:?}"),
    }
}

#[test]
fn picture_without_supported_image_is_omitted_with_warning() {
    let images = images();
    let (selected, warnings) =
        select_picture_asset(&images, "slide 2", Some("rId4"), None, &vec!["rId3".to_string(), "rId9".to_string()]);
    assert!(selected.is_none());
    assert_eq!(warnings.len(), 2);
    match &warnings[1] {
        ConvertWarning::UnsupportedElement { format, element } => {
            assert_eq!(format, "PPTX");
            assert_eq!(element, "slide 2 image omitted: other.emz, layer.wdp");
        }
        other => panic!("unexpected warning {other:?}"),
    }
    assert_eq!(describe_assets(&vec![]), "");
    assert_eq!(describe_assets(&vec!["a".to_string(), "b".to_string()]), "a, b");
}

#[test]
fn icon_sets() {
    let lights = icon_set_glyphs("", 3);
    assert_eq!(lights.len(), 3);
    assert_eq!(lights[0], ("\u{25cf}", Some(Color::new(214, 85, 50))));
    assert_eq!(lights[2].1, Some(Color::new(104, 164, 144)));
    let arrows = icon_set_glyphs("5ArrowsGray", 5);
    assert_eq!(arrows[4], ("\u{2191}", Some(Color::new(128, 128, 128))));
    let unknown = icon_set_glyphs("5Quarters", 5);
    assert_eq!(unknown.len(), 5);
    assert_eq!(unknown[0].0, "\u{2193}");
    assert!(unknown.iter().all(|(_, color)| color.is_some()));
    let four = icon_set_glyphs("4RedToBlack", 4);
    assert_eq!(four.len(), 4);
    assert!(four.iter().all(|(_, color)| color.is_some()));
    assert_eq!(icon_set_glyphs("3Stars", 3).len(), 3);
    assert_eq!(icon_set_glyphs("4TrafficLights", 4)[0].1, Some(Color::new(0, 0, 0)));
}

#[test]
fn slide_image_insert_replaces_an_id() {
    let mut images: SlideImageMap = Vec::new();
    insert_slide_image(&mut images, "rId1".to_string(), asset("media/a.png", SlideImageSource::Supported(ImageFormat::Png)));
    insert_slide_image(&mut images, "rId2".to_string(), asset("media/b.emf", SlideImageSource::Unsupported));
    insert_slide_image(&mut images, "rId1".to_string(), asset("media/c.png", SlideImageSource::Supported(ImageFormat::Png)));
    assert_eq!(images.len(), 2);
    assert_eq!(pick_supported_asset("rId1", &images).map(|a| a.path), Some("media/c.png".to_string()));
    assert!(pick_supported_asset("rId2", &images).is_none());
}

#[test]
fn hidden_slides_are_left_out_of_the_export() {
    let slides = vec![
        r#"<p:sld show="0" xmlns:p="p"/>"#.to_string(),
        r#"<p:sld xmlns:p="p"><p:cSld/></p:sld>"#.to_string(),
        r#"<?xml version="1.0"?><p:sld show="false" xmlns:p="p"><p:cSld/></p:sld>"#.to_string(),
        r#"<p:sld show="1" xmlns:p="p"></p:sld>"#.to_string(),
    ];
    assert_eq!(exported_slide_indices(&slides), vec![1, 3]);
}

#[test]
fn preset_geometry_names_its_shape() {
    let none = ArrowHead::NoHead;
    assert_eq!(prst_to_shape_kind("ellipse", &vec![], none, none), PresetKind::Ellipse);
    assert_eq!(
        prst_to_shape_kind("curvedConnector3", &vec![], none, ArrowHead::Triangle),
        PresetKind::BentConnector3 { adj: 50000, head_end: none, tail_end: ArrowHead::Triangle }
    );
    assert_eq!(
        prst_to_shape_kind("curvedConnector2", &vec![], none, none),
        PresetKind::BentConnector2 { head_end: none, tail_end: none }
    );
    assert_eq!(
        prst_to_shape_kind("line", &vec![], none, none),
        PresetKind::Line { head_end: none, tail_end: none }
    );
    assert_eq!(
        prst_to_shape_kind("bentConnector3", &vec![], none, none),
        PresetKind::BentConnector3 { adj: 50000, head_end: none, tail_end: none }
    );
    assert_eq!(
        prst_to_shape_kind("bentConnector5", &vec![20000], none, none),
        PresetKind::BentConnector4 { adj1: 20000, adj2: 50000, head_end: none, tail_end: none }
    );
    assert_eq!(prst_to_shape_kind("hexagon", &vec![], none, none), PresetKind::RegularPolygon { sides: 6 });
    assert_eq!(prst_to_shape_kind("arrow", &vec![], none, none), PresetKind::BlockArrow { dir: ArrowDir::Right });
    assert_eq!(prst_to_shape_kind("cloud", &vec![], none, none), PresetKind::Rectangle);
}

#[test]
fn picture_naming_only_unknown_ids_shows_nothing_and_warns_of_nothing() {
    let images = images();
    let (selected, warnings) =
        select_picture_asset(&images, "slide 3", Some("rId8"), Some("rId9"), &vec!["rId7".to_string()]);
    assert!(selected.is_none());
    assert!(warnings.is_empty());
    let (selected, warnings) = select_picture_asset(&images, "slide 3", Some("rId8"), None, &vec!["rId1".to_string()]);
    assert_eq!(selected.unwrap().path, "ppt/media/base.png");
    assert!(warnings.is_empty());
}
