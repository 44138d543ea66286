use std::collections::BTreeMap;

use office2pdf::ir::elements::{ListKind, Paragraph, Run};
use office2pdf::ir::style::{Color, ParagraphStyle, TextStyle};
use office2pdf::parser::docx_lists::{
    extract_num_info, group_into_lists, GroupedBlock, NumInfo, NumberingProperty, ParagraphNumbering,
    StyleNumbering, TaggedElement,
};
use office2pdf::parser::docx_media::{
    extract_vml_style_value, extract_vml_style_wrap_mode, has_vml_style_value,
};
use office2pdf::parser::docx_numbering::{
    build_numbering_map, build_typst_numbering_pattern, level_kind, numberings_are_well_indexed, typst_counter_symbol,
    AbstractNumbering, LevelDefinition, LevelOverride, NumberingDefinition, Numberings, RawListLevel,
};
use office2pdf::parser::docx_tables::scan_table_headers;
use office2pdf::parser::docx_text::resolve_highlight_color;
use office2pdf::ir::elements::WrapMode;

#[test]
fn test_resolve_highlight_color_named_colors() {
    assert_eq!(
        resolve_highlight_color("yellow"),
        Some(Color::new(255, 255, 0))
    );
    assert_eq!(
        resolve_highlight_color("green"),
        Some(Color::new(0, 255, 0))
    );
    assert_eq!(
        resolve_highlight_color("cyan"),
        Some(Color::new(0, 255, 255))
    );
    assert_eq!(resolve_highlight_color("red"), Some(Color::new(255, 0, 0)));
    assert_eq!(
        resolve_highlight_color("darkBlue"),
        Some(Color::new(0, 0, 128))
    );
    assert_eq!(resolve_highlight_color("black"), Some(Color::new(0, 0, 0)));
    assert_eq!(
        resolve_highlight_color("white"),
        Some(Color::new(255, 255, 255))
    );
    assert_eq!(resolve_highlight_color("none"), None);
    assert_eq!(resolve_highlight_color("unknown"), None);
}

#[test]
fn highlight_dark_and_gray_colors() {
    assert_eq!(resolve_highlight_color("darkYellow"), Some(Color::new(128, 128, 0)));
    assert_eq!(resolve_highlight_color("lightGray"), Some(Color::new(192, 192, 192)));
    assert_eq!(resolve_highlight_color("Yellow"), None);
}

#[test]
fn test_scan_table_headers_counts_only_leading_rows() {
    let document_xml = r#"<?xml version="1.0" encoding="UTF-8" standalone="yes"?>
<w:document xmlns:w="http://schemas.openxmlformats.org/wordprocessingml/2006/main">
    <w:body>
        <w:tbl>
            <w:tr>
                <w:trPr><w:tblHeader/></w:trPr>
                <w:tc><w:p><w:r><w:t>H1</w:t></w:r></w:p></w:tc>
            </w:tr>
            <w:tr>
                <w:trPr><w:tblHeader/></w:trPr>
                <w:tc><w:p><w:r><w:t>H2</w:t></w:r></w:p></w:tc>
            </w:tr>
            <w:tr>
                <w:tc><w:p><w:r><w:t>D1</w:t></w:r></w:p></w:tc>
            </w:tr>
            <w:tr>
                <w:trPr><w:tblHeader/></w:trPr>
                <w:tc><w:p><w:r><w:t>Ignored</w:t></w:r></w:p></w:tc>
            </w:tr>
        </w:tbl>
        <w:tbl>
            <w:tr>
                <w:tc><w:p><w:r><w:t>Only body</w:t></w:r></w:p></w:tc>
            </w:tr>
        </w:tbl>
    </w:body>
</w:document>"#;

    let headers = scan_table_headers(document_xml);

    assert_eq!(headers.len(), 2);
    assert_eq!(headers[0].repeat_rows, 2);
    assert_eq!(headers[1].repeat_rows, 0);
}

#[test]
fn test_scan_table_headers_tracks_visual_rtl_per_table() {
    let document_xml = r#"<w:document xmlns:w="http://schemas.openxmlformats.org/wordprocessingml/2006/main">
        <w:body>
            <w:tbl><w:tblPr><w:bidiVisual/></w:tblPr></w:tbl>
            <w:tbl><w:tblPr><w:bidiVisual w:val="0"/></w:tblPr></w:tbl>
            <w:tbl><w:tblPr/></w:tbl>
        </w:body>
    </w:document>"#;

    let tables = scan_table_headers(document_xml);

    assert_eq!(tables.len(), 3);
    assert!(tables[0].is_visual_rtl);
    assert!(!tables[1].is_visual_rtl);
    assert!(!tables[2].is_visual_rtl);
}

#[test]
fn scan_table_headers_keeps_nested_rows_apart() {
    let xml = r#"<w:body xmlns:w="w"><w:tbl><w:tr><w:trPr><w:tblHeader/></w:trPr><w:tc>
        <w:tbl><w:tr><w:tc/></w:tr></w:tbl></w:tc></w:tr>
        <w:tr><w:trPr><w:tblHeader w:val="false"/></w:trPr></w:tr></w:tbl></w:body>"#;
    let tables = scan_table_headers(xml);
    assert_eq!(tables.len(), 2);
    assert_eq!(tables[0].repeat_rows, 1);
    assert_eq!(tables[1].repeat_rows, 0);
}

fn plain_paragraph(text: &str) -> Paragraph<f64> {
    Paragraph {
        style: ParagraphStyle::default(),
        runs: vec![Run {
            text: text.to_string(),
            style: TextStyle::default(),
            href: None,
            footnote: None,
        }],
    }
}

fn level(index: usize, format: &str, text: &str, indent: Option<f64>) -> LevelDefinition<f64> {
    LevelDefinition {
        level: index,
        start: 1,
        number_format: format.to_string(),
        level_text: text.to_string(),
        paragraph_style: ParagraphStyle {
            indent_left: indent,
            ..ParagraphStyle::default()
        },
    }
}

fn sample_numberings() -> Numberings<f64> {
    Numberings {
        abstract_nums: vec![
            AbstractNumbering {
                id: 0,
                levels: vec![
                    level(0, "decimal", "%1.", Some(36.0)),
                    level(1, "lowerLetter", "%1.%2)", Some(72.0)),
                ],
            },
            AbstractNumbering {
                id: 1,
                levels: vec![level(0, "bullet", "\u{2022}", Some(18.0))],
            },
        ],
        numberings: vec![
            NumberingDefinition { id: 1, abstract_num_id: 0, level_overrides: vec![] },
            NumberingDefinition { id: 2, abstract_num_id: 1, level_overrides: vec![] },
            NumberingDefinition {
                id: 3,
                abstract_num_id: 0,
                level_overrides: vec![LevelOverride { level: 0, override_level: None, override_start: Some(5) }],
            },
        ],
    }
}

#[test]
fn numbering_map_resolves_patterns_and_kinds() {
    let map = build_numbering_map(&sample_numberings());
    assert_eq!(map.len(), 3);
    let first = &map[&1];
    assert_eq!(first.abstract_num_id, 0);
    assert_eq!(first.levels[&0].style.kind, ListKind::Ordered);
    assert_eq!(first.levels[&0].style.numbering_pattern.as_deref(), Some("1."));
    assert_eq!(first.levels[&1].style.numbering_pattern.as_deref(), Some("1.a)"));
    assert!(first.levels[&1].style.full_numbering);
    let bullets = &map[&2];
    assert_eq!(bullets.levels[&0].style.kind, ListKind::Unordered);
    assert_eq!(bullets.levels[&0].style.marker_text.as_deref(), Some("\u{2022}"));
    let restarted = &map[&3];
    assert_eq!(restarted.levels[&0].start, 5);
    assert!(restarted.levels[&0].has_start_override);
}

#[test]
fn level_kind_and_counter_symbols() {
    assert_eq!(level_kind("bullet"), ListKind::Unordered);
    assert_eq!(level_kind("decimal"), ListKind::Ordered);
    assert_eq!(typst_counter_symbol("upperRoman"), Some("I"));
    assert_eq!(typst_counter_symbol("decimalZero"), Some("1"));
    assert_eq!(typst_counter_symbol("ordinal"), None);
}

#[test]
fn numbering_pattern_prefixes_current_level_when_absent() {
    let mut levels: BTreeMap<u32, RawListLevel<f64>> = BTreeMap::new();
    levels.insert(
        0,
        RawListLevel {
            start: 1,
            number_format: "upperLetter".to_string(),
            level_text: "(%1)".to_string(),
            paragraph_style: ParagraphStyle::default(),
            has_start_override: false,
        },
    );
    assert_eq!(
        build_typst_numbering_pattern("(%1)", 0, &levels),
        Some(("(A)".to_string(), false))
    );
    assert_eq!(
        build_typst_numbering_pattern("Item", 0, &levels),
        Some(("AItem".to_string(), false))
    );
    assert_eq!(build_typst_numbering_pattern("%2", 0, &levels), None);
}

fn list_paragraph(num_id: usize, level: u32, text: &str) -> TaggedElement<f64, &'static str> {
    TaggedElement::ListParagraph {
        info: NumInfo { num_id, level },
        paragraph: plain_paragraph(text),
    }
}

#[test]
fn group_into_lists_numbers_and_splits_on_plain_blocks() {
    let map = build_numbering_map(&sample_numberings());
    let elements = vec![
        list_paragraph(1, 0, "one"),
        list_paragraph(1, 0, "two"),
        list_paragraph(1, 1, "two.a"),
        TaggedElement::Plain(vec!["table"]),
        list_paragraph(1, 0, "three"),
    ];
    let blocks = group_into_lists(elements, &map);
    assert_eq!(blocks.len(), 3);
    match &blocks[0] {
        GroupedBlock::List(list) => {
            assert_eq!(list.kind, ListKind::Ordered);
            assert_eq!(list.items.len(), 3);
            assert_eq!(list.items[0].start_at, Some(1));
            assert_eq!(list.items[1].start_at, None);
            assert_eq!(list.items[2].level, 1);
            assert_eq!(list.items[2].start_at, Some(1));
            assert_eq!(list.items[2].content[0].style.indent_left, Some(72.0));
        }
        GroupedBlock::Block(_) => panic!("expected a list"),
    }
    match &blocks[1] {
        GroupedBlock::Block(b) => assert_eq!(*b, "table"),
        GroupedBlock::List(_) => panic!("expected the plain block"),
    }
    match &blocks[2] {
        GroupedBlock::List(list) => {
            assert_eq!(list.items.len(), 1);
            assert_eq!(list.items[0].start_at, Some(3));
        }
        GroupedBlock::Block(_) => panic!("expected a list"),
    }
}

#[test]
fn group_into_lists_starts_new_list_on_kind_change() {
    let map = build_numbering_map(&sample_numberings());
    let elements = vec![list_paragraph(1, 0, "one"), list_paragraph(2, 0, "bullet")];
    let blocks = group_into_lists(elements, &map);
    assert_eq!(blocks.len(), 2);
    match &blocks[1] {
        GroupedBlock::List(list) => {
            assert_eq!(list.kind, ListKind::Unordered);
            assert_eq!(list.items[0].content[0].style.indent_left, Some(18.0));
        }
        GroupedBlock::Block(_) => panic!("expected a list"),
    }
}

#[test]
fn group_into_lists_restarts_on_start_override_with_new_num_id() {
    let map = build_numbering_map(&sample_numberings());
    let elements = vec![
        list_paragraph(1, 0, "one"),
        list_paragraph(1, 0, "two"),
        list_paragraph(3, 0, "restart"),
        list_paragraph(3, 0, "next"),
    ];
    let blocks = group_into_lists(elements, &map);
    assert_eq!(blocks.len(), 1);
    match &blocks[0] {
        GroupedBlock::List(list) => {
            assert_eq!(list.items.len(), 4);
            assert_eq!(list.items[2].start_at, Some(5));
            assert_eq!(list.items[3].start_at, None);
        }
        GroupedBlock::Block(_) => panic!("expected a list"),
    }
}

#[test]
fn group_into_lists_keeps_plain_blocks_in_order() {
    let map = build_numbering_map(&sample_numberings());
    let elements: Vec<TaggedElement<f64, &'static str>> = vec![
        TaggedElement::Plain(vec!["a", "b"]),
        TaggedElement::Plain(vec![]),
        TaggedElement::Plain(vec!["c"]),
    ];
    let blocks = group_into_lists(elements, &map);
    let names: Vec<&str> = blocks
        .iter()
        .map(|b| match b {
            GroupedBlock::Block(x) => *x,
            GroupedBlock::List(_) => "list",
        })
        .collect();
    assert_eq!(names, vec!["a", "b", "c"]);
}

#[test]
fn extract_num_info_prefers_paragraph_then_style() {
    let styles = vec![StyleNumbering {
        style_id: "ListBullet".to_string(),
        numbering_property: Some(NumberingProperty { id: Some(4), level: None }),
    }];
    let own = ParagraphNumbering {
        has_numbering: true,
        numbering_property: Some(NumberingProperty { id: Some(2), level: Some(1) }),
        style: Some("ListBullet".to_string()),
    };
    assert_eq!(extract_num_info(&own, &styles), Some(NumInfo { num_id: 2, level: 1 }));
    let from_style = ParagraphNumbering {
        has_numbering: false,
        numbering_property: None,
        style: Some("ListBullet".to_string()),
    };
    assert_eq!(extract_num_info(&from_style, &styles), Some(NumInfo { num_id: 4, level: 0 }));
    let removed = ParagraphNumbering {
        has_numbering: true,
        numbering_property: Some(NumberingProperty { id: Some(0), level: None }),
        style: None,
    };
    assert_eq!(extract_num_info(&removed, &styles), None);
    let unknown_style = ParagraphNumbering {
        has_numbering: false,
        numbering_property: None,
        style: Some("Heading1".to_string()),
    };
    assert_eq!(extract_num_info(&unknown_style, &styles), None);
}

#[test]
fn vml_style_values_are_trimmed_and_case_insensitive() {
    let style = " position : absolute ;margin-left:10pt; mso-wrap-style:Square";
    assert_eq!(extract_vml_style_value(style, "position"), Some("absolute".to_string()));
    assert_eq!(extract_vml_style_value(style, "margin-left"), Some("10pt".to_string()));
    assert_eq!(extract_vml_style_value(style, "width"), None);
    assert!(has_vml_style_value(style, "position", "ABSOLUTE"));
    assert!(!has_vml_style_value(style, "position", "relative"));
    assert_eq!(extract_vml_style_wrap_mode(Some(style)), Some(WrapMode::Square));
    assert_eq!(extract_vml_style_wrap_mode(Some("mso-wrap-style:none")), Some(WrapMode::NoWrap));
    assert_eq!(extract_vml_style_wrap_mode(Some("mso-wrap-style:through")), Some(WrapMode::Tight));
    assert_eq!(extract_vml_style_wrap_mode(Some("mso-wrap-style:topAndBottom")), Some(WrapMode::TopAndBottom));
    assert_eq!(extract_vml_style_wrap_mode(None), None);
}

#[test]
fn merges_adjacent_lists_with_different_num_ids() {
    let numberings: Numberings<f64> = Numberings {
        abstract_nums: vec![AbstractNumbering {
            id: 0,
            levels: vec![level(0, "decimal", "%1.", None), level(1, "bullet", "\u{2022}", None)],
        }],
        numberings: vec![
            NumberingDefinition { id: 1, abstract_num_id: 0, level_overrides: vec![] },
            NumberingDefinition { id: 2, abstract_num_id: 0, level_overrides: vec![] },
        ],
    };
    let map = build_numbering_map(&numberings);
    let elements = vec![list_paragraph(1, 0, "First"), list_paragraph(2, 0, "Second"), list_paragraph(2, 1, "Sub")];
    let blocks = group_into_lists(elements, &map);
    assert_eq!(blocks.len(), 1, "adjacent list paragraphs must merge into a single list");
    match &blocks[0] {
        GroupedBlock::List(list) => {
            assert_eq!(list.kind, ListKind::Ordered);
            assert_eq!(list.items.len(), 3);
            assert_eq!(list.items[0].level, 0);
            assert_eq!(list.items[0].start_at, Some(1));
            assert_eq!(list.items[1].level, 0);
            assert_eq!(list.items[1].start_at, None);
            assert_eq!(list.items[2].level, 1);
            assert_eq!(list.level_styles.get(&0).map(|style| style.kind), Some(ListKind::Ordered));
            assert_eq!(list.level_styles.get(&1).map(|style| style.kind), Some(ListKind::Unordered));
        }
        GroupedBlock::Block(_) => panic!("expected a list"),
    }
}

#[test]
fn start_override_at_the_last_index_updates_an_existing_level() {
    let last = u32::MAX as usize;
    let numberings = Numberings {
        abstract_nums: vec![AbstractNumbering { id: 0, levels: vec![level(last, "decimal", "%1.", None)] }],
        numberings: vec![NumberingDefinition {
            id: 7,
            abstract_num_id: 0,
            level_overrides: vec![LevelOverride { level: last, override_level: None, override_start: Some(4) }],
        }],
    };
    let map = build_numbering_map(&numberings);
    let resolved = &map[&7].levels[&u32::MAX];
    assert_eq!(resolved.start, 4);
    assert!(resolved.has_start_override);
}

#[test]
fn start_only_override_at_last_level_index_is_refused_unless_defined() {
    assert!(numberings_are_well_indexed(&sample_numberings()));
    let last = u32::MAX as usize;
    let mut bad = sample_numberings();
    bad.numberings.push(NumberingDefinition {
        id: 4,
        abstract_num_id: 0,
        level_overrides: vec![LevelOverride { level: last, override_level: None, override_start: Some(2) }],
    });
    assert!(!numberings_are_well_indexed(&bad));
    let mut good = sample_numberings();
    good.numberings.push(NumberingDefinition {
        id: 4,
        abstract_num_id: 0,
        level_overrides: vec![
            LevelOverride { level: last, override_level: Some(level(last, "decimal", "%1.", None)), override_start: None },
            LevelOverride { level: last, override_level: None, override_start: Some(2) },
        ],
    });
    assert!(numberings_are_well_indexed(&good));
}

#[test]
fn resolved_levels_are_defined_and_overridden_indices() {
    let mut numberings = sample_numberings();
    numberings.numberings.push(NumberingDefinition {
        id: 5,
        abstract_num_id: 0,
        level_overrides: vec![
            LevelOverride { level: 3, override_level: None, override_start: Some(4) },
            LevelOverride { level: 6, override_level: None, override_start: None },
        ],
    });
    numberings.numberings.push(NumberingDefinition { id: 6, abstract_num_id: 42, level_overrides: vec![] });
    let map = build_numbering_map(&numberings);
    let resolved = &map[&5];
    assert_eq!(resolved.abstract_num_id, 0);
    assert_eq!(resolved.levels.keys().copied().collect::<Vec<u32>>(), vec![0, 1, 3]);
    assert_eq!(resolved.levels[&3].style.kind, ListKind::Ordered);
    assert!(resolved.levels[&3].style.marker_text.is_none());
    assert_eq!(resolved.levels[&3].start, 4);
    assert!(map[&6].levels.is_empty());
    assert!(map[&2].levels[&0].style.numbering_pattern.is_none());
}
