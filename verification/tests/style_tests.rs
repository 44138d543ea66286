use office2pdf::ir::style::{
    Alignment, Color, LineBox, LineSpacing, ParagraphStyle, StyleSheet, TabAlignment, TabLeader,
    TabStop, TextDirection, TextStyle, VerticalTextAlign,
};

#[test]
fn test_color_constructors() {
    let black = Color::black();
    assert_eq!(black, Color { r: 0, g: 0, b: 0 });
    let white = Color::white();
    assert_eq!(
        white,
        Color {
            r: 255,
            g: 255,
            b: 255,
        }
    );
}

#[test]
fn test_stylesheet_default_is_empty() {
    let ss: StyleSheet<f64> = StyleSheet::default();
    assert!(ss.styles.is_empty());
}

#[test]
fn test_text_style_default_has_none_text_effects() {
    let ts: TextStyle<f64> = TextStyle::default();
    assert!(ts.vertical_align.is_none());
    assert!(ts.all_caps.is_none());
    assert!(ts.small_caps.is_none());
}

#[test]
fn test_text_style_superscript() {
    let ts: TextStyle<f64> = TextStyle {
        vertical_align: Some(VerticalTextAlign::Superscript),
        ..TextStyle::default()
    };
    assert_eq!(ts.vertical_align, Some(VerticalTextAlign::Superscript));
}

#[test]
fn test_text_style_subscript() {
    let ts: TextStyle<f64> = TextStyle {
        vertical_align: Some(VerticalTextAlign::Subscript),
        ..TextStyle::default()
    };
    assert_eq!(ts.vertical_align, Some(VerticalTextAlign::Subscript));
}

#[test]
fn test_text_style_caps() {
    let ts: TextStyle<f64> = TextStyle {
        all_caps: Some(true),
        small_caps: Some(true),
        ..TextStyle::default()
    };
    assert_eq!(ts.all_caps, Some(true));
    assert_eq!(ts.small_caps, Some(true));
}

#[test]
fn color_new_keeps_components() {
    assert_eq!(Color::new(1, 2, 3), Color { r: 1, g: 2, b: 3 });
}

#[test]
fn text_style_merge_from_all_none_source_preserves_target() {
    let mut target = TextStyle {
        font_family: Some("Arial".to_string()),
        font_size: Some(12.0),
        bold: Some(true),
        italic: Some(false),
        underline: Some(true),
        strikethrough: Some(false),
        color: Some(Color::new(255, 0, 0)),
        highlight: Some(Color::new(0, 255, 0)),
        vertical_align: Some(VerticalTextAlign::Superscript),
        all_caps: Some(true),
        small_caps: Some(false),
        letter_spacing: Some(1.5),
    };
    let original: TextStyle<f64> = target.clone();
    let source = TextStyle::default();

    target.merge_from(&source);

    assert_eq!(target, original);
}

#[test]
fn text_style_merge_from_all_some_source_overwrites_target() {
    let mut target = TextStyle {
        font_family: Some("Arial".to_string()),
        font_size: Some(12.0),
        bold: Some(true),
        italic: Some(true),
        underline: Some(true),
        strikethrough: Some(true),
        color: Some(Color::new(255, 0, 0)),
        highlight: Some(Color::new(0, 255, 0)),
        vertical_align: Some(VerticalTextAlign::Superscript),
        all_caps: Some(true),
        small_caps: Some(true),
        letter_spacing: Some(1.5),
    };
    let source = TextStyle {
        font_family: Some("Times".to_string()),
        font_size: Some(24.0),
        bold: Some(false),
        italic: Some(false),
        underline: Some(false),
        strikethrough: Some(false),
        color: Some(Color::new(0, 0, 255)),
        highlight: Some(Color::new(128, 128, 128)),
        vertical_align: Some(VerticalTextAlign::Subscript),
        all_caps: Some(false),
        small_caps: Some(false),
        letter_spacing: Some(3.0),
    };

    target.merge_from(&source);

    assert_eq!(target, source);
}

#[test]
fn text_style_merge_from_partial_overlap() {
    let mut target: TextStyle<f64> = TextStyle {
        font_family: Some("Arial".to_string()),
        font_size: Some(12.0),
        bold: None,
        italic: Some(true),
        ..TextStyle::default()
    };
    let source = TextStyle {
        font_family: Some("Helvetica".to_string()),
        bold: Some(true),
        italic: None,
        color: Some(Color::new(100, 100, 100)),
        ..TextStyle::default()
    };

    target.merge_from(&source);

    assert_eq!(target.font_family, Some("Helvetica".to_string()));
    assert_eq!(target.font_size, Some(12.0));
    assert_eq!(target.bold, Some(true));
    assert_eq!(target.italic, Some(true));
    assert_eq!(target.color, Some(Color::new(100, 100, 100)));
    assert!(target.underline.is_none());
}

#[test]
fn text_style_merge_from_into_default_target() {
    let mut target: TextStyle<f64> = TextStyle::default();
    let source = TextStyle {
        font_size: Some(18.0),
        bold: Some(false),
        letter_spacing: Some(2.0),
        ..TextStyle::default()
    };

    target.merge_from(&source);

    assert_eq!(target.font_size, Some(18.0));
    assert_eq!(target.bold, Some(false));
    assert_eq!(target.letter_spacing, Some(2.0));
    assert!(target.font_family.is_none());
}

#[test]
fn paragraph_style_merge_from_all_none_source_preserves_target() {
    let mut target = ParagraphStyle {
        alignment: Some(Alignment::Center),
        indent_left: Some(10.0),
        indent_right: Some(5.0),
        indent_first_line: Some(20.0),
        line_spacing: Some(LineSpacing::Proportional(1.5)),
        line_box: Some(LineBox {
            ascent_em: 1.0,
            descent_em: 0.25,
        }),
        space_before: Some(6.0),
        space_after: Some(12.0),
        heading_level: Some(2),
        direction: Some(TextDirection::Rtl),
        tab_stops: Some(vec![TabStop {
            position: 72.0,
            alignment: TabAlignment::Left,
            leader: TabLeader::NoLeader,
        }]),
        background: Some(Color::new(0xEE, 0xEE, 0xEE)),
        border: None,
    };
    let original: ParagraphStyle<f64> = target.clone();
    let source = ParagraphStyle::default();

    target.merge_from(&source);

    assert_eq!(target.alignment, original.alignment);
    assert_eq!(target.indent_left, original.indent_left);
    assert_eq!(target.indent_right, original.indent_right);
    assert_eq!(target.indent_first_line, original.indent_first_line);
    assert_eq!(target.line_box, original.line_box);
    assert_eq!(target.space_before, original.space_before);
    assert_eq!(target.space_after, original.space_after);
    assert_eq!(target.heading_level, original.heading_level);
    assert_eq!(target.direction, original.direction);
    assert_eq!(target.tab_stops, original.tab_stops);
}

#[test]
fn paragraph_style_merge_from_all_some_source_overwrites_target() {
    let mut target: ParagraphStyle<f64> = ParagraphStyle {
        alignment: Some(Alignment::Left),
        indent_left: Some(10.0),
        space_before: Some(6.0),
        ..ParagraphStyle::default()
    };
    let source = ParagraphStyle {
        alignment: Some(Alignment::Right),
        indent_left: Some(20.0),
        indent_right: Some(15.0),
        indent_first_line: Some(30.0),
        line_spacing: Some(LineSpacing::Exact(14.0)),
        line_box: Some(LineBox {
            ascent_em: 1.3125,
            descent_em: 0.4375,
        }),
        space_before: Some(8.0),
        space_after: Some(16.0),
        heading_level: Some(1),
        direction: Some(TextDirection::Rtl),
        background: Some(Color::new(0xF4, 0xF4, 0xF4)),
        border: None,
        tab_stops: Some(vec![TabStop {
            position: 144.0,
            alignment: TabAlignment::Right,
            leader: TabLeader::Dot,
        }]),
    };

    target.merge_from(&source);

    assert_eq!(target.alignment, Some(Alignment::Right));
    assert_eq!(target.indent_left, Some(20.0));
    assert_eq!(target.indent_right, Some(15.0));
    assert_eq!(target.indent_first_line, Some(30.0));
    assert_eq!(target.line_box, source.line_box);
    assert_eq!(target.space_before, Some(8.0));
    assert_eq!(target.space_after, Some(16.0));
    assert_eq!(target.heading_level, Some(1));
    assert_eq!(target.direction, Some(TextDirection::Rtl));
    assert_eq!(
        target.tab_stops,
        Some(vec![TabStop {
            position: 144.0,
            alignment: TabAlignment::Right,
            leader: TabLeader::Dot,
        }])
    );
}

#[test]
fn paragraph_style_merge_from_partial_overlap() {
    let mut target: ParagraphStyle<f64> = ParagraphStyle {
        alignment: Some(Alignment::Left),
        indent_left: Some(10.0),
        space_before: Some(6.0),
        ..ParagraphStyle::default()
    };
    let source = ParagraphStyle {
        alignment: Some(Alignment::Center),
        space_after: Some(12.0),
        ..ParagraphStyle::default()
    };

    target.merge_from(&source);

    assert_eq!(target.alignment, Some(Alignment::Center));
    assert_eq!(target.indent_left, Some(10.0));
    assert_eq!(target.space_before, Some(6.0));
    assert_eq!(target.space_after, Some(12.0));
    assert!(target.heading_level.is_none());
}

#[test]
fn text_style_merge_is_associative_on_example() {
    let a: TextStyle<f64> = TextStyle {
        font_size: Some(10.0),
        bold: Some(true),
        ..TextStyle::default()
    };
    let b: TextStyle<f64> = TextStyle {
        font_size: Some(12.0),
        italic: Some(true),
        ..TextStyle::default()
    };
    let c: TextStyle<f64> = TextStyle {
        bold: Some(false),
        color: Some(Color::new(1, 2, 3)),
        ..TextStyle::default()
    };
    let mut left = a.clone();
    left.merge_from(&b);
    left.merge_from(&c);
    let mut bc = b.clone();
    bc.merge_from(&c);
    let mut right = a.clone();
    right.merge_from(&bc);
    assert_eq!(left, right);
    assert_eq!(left.font_size, Some(12.0));
    assert_eq!(left.bold, Some(false));
    assert_eq!(left.italic, Some(true));
}

#[test]
fn text_style_merge_with_empty_is_identity() {
    let a: TextStyle<f64> = TextStyle {
        font_family: Some("Calibri".to_string()),
        underline: Some(true),
        ..TextStyle::default()
    };
    let mut merged = a.clone();
    merged.merge_from(&TextStyle::empty());
    assert_eq!(merged, a);
    let mut from_empty: TextStyle<f64> = TextStyle::empty();
    from_empty.merge_from(&a);
    assert_eq!(from_empty, a);
}

#[test]
fn paragraph_style_merge_with_empty_is_identity() {
    let a: ParagraphStyle<f64> = ParagraphStyle {
        alignment: Some(Alignment::Justify),
        indent_left: Some(7.0),
        ..ParagraphStyle::default()
    };
    let mut merged = a.clone();
    merged.merge_from(&ParagraphStyle::empty());
    assert_eq!(merged, a);
}
