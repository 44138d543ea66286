use std::collections::BTreeMap;

use office2pdf::ir::elements::Run;
use office2pdf::ir::style::{Alignment, Color, ParagraphStyle, TextStyle};
use office2pdf::parser::pptx_defaults::{
    merge_pptx_bullet_definition, PptxBulletColorSource, PptxBulletDefinition, PptxBulletFontSource,
    PptxBulletSizeSource, PptxTextBodyStyleDefaults, PptxTextLevelStyle,
};
use office2pdf::parser::pptx_lists::{
    finalize_pptx_marker_style, first_pptx_visible_run_style, push_pptx_run, push_pptx_soft_line_break,
    resolve_pptx_list_marker, resolve_pptx_marker_base_style, resolve_pptx_marker_style, PptxListMarker,
};
use office2pdf::parser::pptx_slides::slide_path_for_target;
use office2pdf::parser::pptx_text::{PptxAutoNumbering, PptxBulletKind};

fn bullet(kind: Option<PptxBulletKind>) -> PptxBulletDefinition<f64> {
    PptxBulletDefinition { kind, font: None, color: None, size: None }
}

fn level(size: f64, bold: Option<bool>) -> PptxTextLevelStyle<f64> {
    PptxTextLevelStyle {
        paragraph: ParagraphStyle::default(),
        run: TextStyle { font_size: Some(size), bold, ..TextStyle::default() },
        bullet: bullet(None),
    }
}

fn defaults(levels: Vec<(u32, PptxTextLevelStyle<f64>)>) -> PptxTextBodyStyleDefaults<f64> {
    let mut map = BTreeMap::new();
    for (k, v) in levels {
        map.insert(k, v);
    }
    PptxTextBodyStyleDefaults {
        default_paragraph: ParagraphStyle::default(),
        default_run: TextStyle { font_size: Some(18.0), ..TextStyle::default() },
        default_bullet: bullet(Some(PptxBulletKind::Character("\u{2022}".to_string()))),
        levels: map,
    }
}

#[test]
fn bullet_definitions_merge_part_by_part() {
    let mut target: PptxBulletDefinition<f64> = PptxBulletDefinition {
        kind: Some(PptxBulletKind::Character("-".to_string())),
        font: Some(PptxBulletFontSource::FollowText),
        color: None,
        size: Some(PptxBulletSizeSource::Percent(0.8)),
    };
    let source: PptxBulletDefinition<f64> = PptxBulletDefinition {
        kind: None,
        font: Some(PptxBulletFontSource::Explicit("Wingdings".to_string())),
        color: Some(PptxBulletColorSource::Explicit(Color::new(1, 2, 3))),
        size: None,
    };
    merge_pptx_bullet_definition(&mut target, &source);
    assert_eq!(target.kind, Some(PptxBulletKind::Character("-".to_string())));
    assert_eq!(target.font, Some(PptxBulletFontSource::Explicit("Wingdings".to_string())));
    assert_eq!(target.color, Some(PptxBulletColorSource::Explicit(Color::new(1, 2, 3))));
    assert_eq!(target.size, Some(PptxBulletSizeSource::Percent(0.8)));
}

#[test]
fn styles_for_levels_overlay_defaults() {
    let d = defaults(vec![(1, level(14.0, Some(true)))]);
    assert_eq!(d.run_style_for_level(0).font_size, Some(18.0));
    let second = d.run_style_for_level(1);
    assert_eq!(second.font_size, Some(14.0));
    assert_eq!(second.bold, Some(true));
    assert_eq!(
        d.bullet_for_level(1).kind,
        Some(PptxBulletKind::Character("\u{2022}".to_string()))
    );
    assert_eq!(d.paragraph_style_for_level(1).alignment, None);
}

#[test]
fn merging_defaults_stacks_layers() {
    let mut base = defaults(vec![(0, level(20.0, None)), (1, level(16.0, Some(true)))]);
    let mut top = defaults(vec![(1, level(12.0, None)), (2, level(10.0, None))]);
    top.default_run = TextStyle::default();
    top.default_paragraph = ParagraphStyle { alignment: Some(Alignment::Center), ..ParagraphStyle::default() };
    base.merge_from(&top);
    assert_eq!(base.levels.len(), 3);
    assert_eq!(base.levels[&0].run.font_size, Some(20.0));
    assert_eq!(base.levels[&1].run.font_size, Some(12.0));
    assert_eq!(base.levels[&1].run.bold, Some(true));
    assert_eq!(base.levels[&2].run.font_size, Some(10.0));
    assert_eq!(base.default_run.font_size, Some(18.0));
    assert_eq!(base.default_paragraph.alignment, Some(Alignment::Center));
}

#[test]
fn default_color_reaches_every_level() {
    let mut d = defaults(vec![(0, level(20.0, None)), (3, level(9.0, None))]);
    d.apply_default_color(Color::new(9, 9, 9));
    assert_eq!(d.default_run.color, Some(Color::new(9, 9, 9)));
    assert_eq!(d.levels[&0].run.color, Some(Color::new(9, 9, 9)));
    assert_eq!(d.levels[&3].run.color, Some(Color::new(9, 9, 9)));
    assert_eq!(d.levels[&3].run.font_size, Some(9.0));
}

#[test]
fn empty_defaults_set_nothing() {
    let empty: PptxTextBodyStyleDefaults<f64> = PptxTextBodyStyleDefaults::empty();
    assert!(empty.levels.is_empty());
    assert_eq!(empty.run_style_for_level(4), TextStyle::default());
}

fn run(text: &str, bold: Option<bool>) -> Run<f64> {
    Run { text: text.to_string(), style: TextStyle { bold, ..TextStyle::default() }, href: None, footnote: None }
}

#[test]
fn runs_join_when_formatted_alike() {
    let mut runs = vec![run("Hello", None)];
    assert!(push_pptx_run(&mut runs, run(", world", None)));
    assert_eq!(runs.len(), 1);
    assert_eq!(runs[0].text, "Hello, world");
    assert!(!push_pptx_run(&mut runs, run(" = 1", Some(true))));
    assert_eq!(runs.len(), 2);
    assert_eq!(runs[1].text, "\u{00A0}= 1");
}

#[test]
fn soft_line_breaks_join_runs_of_the_same_style() {
    let mut runs = vec![run("a", Some(true))];
    let bold = TextStyle { bold: Some(true), ..TextStyle::default() };
    assert!(push_pptx_soft_line_break(&mut runs, &bold));
    assert_eq!(runs.len(), 1);
    assert_eq!(runs[0].text, "a\u{000B}");
    assert!(!push_pptx_soft_line_break(&mut runs, &TextStyle::default()));
    assert_eq!(runs.len(), 2);
    assert_eq!(runs[1].text, "\u{000B}");
    assert_eq!(runs[1].style, TextStyle::default());
}

#[test]
fn first_visible_run_skips_empty_and_footnotes() {
    let mut footnote = run("1", Some(false));
    footnote.footnote = Some("note".to_string());
    let runs = vec![run("", Some(true)), footnote, run("text", None), run("more", Some(true))];
    assert_eq!(first_pptx_visible_run_style(&runs), Some(TextStyle::default()));
    assert_eq!(first_pptx_visible_run_style::<f64>(&vec![]), None);
}

fn times(size: f64, percent: f64) -> f64 {
    size * percent
}

#[test]
fn list_markers_follow_bullet_kind() {
    let bold = TextStyle { bold: Some(true), ..TextStyle::default() };
    let runs = vec![run("item", Some(true))];
    let plain = TextStyle::default();
    assert!(resolve_pptx_list_marker(&bullet(None), 0, &runs, &plain, &plain, &times).is_none());
    assert!(resolve_pptx_list_marker(&bullet(Some(PptxBulletKind::NoBullet)), 0, &runs, &plain, &plain, &times).is_none());
    match resolve_pptx_list_marker(&bullet(Some(PptxBulletKind::Character("o".to_string()))), 2, &runs, &plain, &plain, &times) {
        Some(PptxListMarker::Unordered { level, marker_text, marker_style }) => {
            assert_eq!(level, 2);
            assert_eq!(marker_text, "o");
            assert_eq!(marker_style, Some(bold.clone()));
        }
        _ => panic!("expected a bullet"),
    }
    let numbering = PptxAutoNumbering { level: 1, numbering_pattern: Some("1.".to_string()), start_at: Some(2) };
    match resolve_pptx_list_marker(&bullet(Some(PptxBulletKind::AutoNumber(numbering.clone()))), 1, &vec![], &plain, &plain, &times) {
        Some(PptxListMarker::Ordered { auto_numbering, marker_style }) => {
            assert_eq!(auto_numbering, numbering);
            assert!(marker_style.is_none());
        }
        _ => panic!("expected numbering"),
    }
}

#[test]
fn marker_style_falls_back_and_applies_bullet_overrides() {
    let end = TextStyle { italic: Some(true), font_size: Some(20.0), ..TextStyle::default() };
    let default_run = TextStyle { font_size: Some(18.0), ..TextStyle::default() };
    let empty_runs: Vec<Run<f64>> = vec![run("", Some(true))];
    // No visible run: the paragraph end's style, where it sets anything.
    assert_eq!(resolve_pptx_marker_base_style(&empty_runs, &end, &default_run), end);
    assert_eq!(resolve_pptx_marker_base_style(&empty_runs, &TextStyle::default(), &default_run), default_run);
    let sized = PptxBulletDefinition {
        kind: None,
        font: Some(PptxBulletFontSource::Explicit("Wingdings".to_string())),
        color: Some(PptxBulletColorSource::Explicit(Color::new(255, 0, 0))),
        size: Some(PptxBulletSizeSource::Percent(0.5)),
    };
    let style = resolve_pptx_marker_style(&sized, &empty_runs, &end, &default_run, &times).expect("a style");
    assert_eq!(style.font_size, Some(10.0));
    assert_eq!(style.font_family.as_deref(), Some("Wingdings"));
    assert_eq!(style.color, Some(Color::new(255, 0, 0)));
    assert_eq!(style.italic, Some(true));
    let points = PptxBulletDefinition { size: Some(PptxBulletSizeSource::Points(12.0)), ..bullet(None) };
    assert_eq!(resolve_pptx_marker_style(&points, &empty_runs, &TextStyle::default(), &TextStyle::default(), &times).and_then(|s| s.font_size), Some(12.0));
    // A percentage of no size stays unset, and a style that sets nothing is none.
    let percent = PptxBulletDefinition { size: Some(PptxBulletSizeSource::Percent(0.5)), ..bullet(None) };
    assert_eq!(resolve_pptx_marker_style(&percent, &empty_runs, &TextStyle::default(), &TextStyle::default(), &times), None);
    assert_eq!(finalize_pptx_marker_style::<f64>(TextStyle::default()), None);
}

#[test]
fn slide_paths_resolve_under_ppt() {
    assert_eq!(slide_path_for_target("slides/slide1.xml"), "ppt/slides/slide1.xml");
    assert_eq!(slide_path_for_target("/ppt/slides/slide2.xml"), "ppt/slides/slide2.xml");
}

use office2pdf::parser::pptx_defaults::PptxMasterTextStyles;
use office2pdf::parser::pptx_placeholders::{LayerPlaceholder, PlaceholderGeometryMap};

fn placeholder(
    ph_type: Option<&str>,
    ph_idx: Option<&str>,
    defaults: Option<PptxTextBodyStyleDefaults<f64>>,
) -> LayerPlaceholder<PptxTextBodyStyleDefaults<f64>> {
    LayerPlaceholder {
        ph_type: ph_type.map(str::to_string),
        ph_idx: ph_idx.map(str::to_string),
        geometry: None,
        text_defaults: defaults,
    }
}

#[test]
fn placeholder_text_defaults_stack_master_then_layout() {
    let mut title = defaults(vec![(0, level(44.0, Some(true)))]);
    title.default_run.font_family = Some("Title Font".to_string());
    let masters = PptxMasterTextStyles {
        title,
        body: defaults(vec![(0, level(28.0, None))]),
        other: defaults(vec![]),
    };
    let master_overlay = defaults(vec![(0, level(40.0, None))]);
    let mut layout_overlay = defaults(vec![]);
    layout_overlay.default_run = TextStyle { italic: Some(true), ..TextStyle::default() };
    let map = PlaceholderGeometryMap {
        layout: vec![placeholder(Some("ctrTitle"), None, Some(layout_overlay))],
        master: vec![placeholder(Some("title"), None, Some(master_overlay))],
        master_text_styles: masters,
    };
    let resolved = map.text_defaults(Some("title"), None);
    assert_eq!(resolved.levels[&0].run.font_size, Some(40.0));
    assert_eq!(resolved.levels[&0].run.bold, Some(true));
    assert_eq!(resolved.default_run.italic, Some(true));
    assert_eq!(resolved.default_run.font_family, Some("Title Font".to_string()));
    let body = map.text_defaults(Some("body"), Some("1"));
    assert_eq!(body.levels[&0].run.font_size, Some(28.0));
}
