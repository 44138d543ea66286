//! Grouping the paragraphs of a presentation text body into lists.

use vstd::prelude::*;
use vstd::std_specs::cmp::PartialEqSpec;

use std::collections::BTreeMap;

use crate::ir::elements::{List, ListItem, ListKind, ListLevelStyle, Paragraph, Run};
use crate::ir::style::{clone_opt_string, empty_text_style, Color, TextStyle, VerticalTextAlign};
use crate::parser::pptx_defaults::{
    PptxBulletColorSource, PptxBulletDefinition, PptxBulletFontSource, PptxBulletSizeSource,
};
use crate::parser::docx_lists::GroupedBlock;
use crate::parser::pptx_text::{
    boundary_space_fixed, is_white_space, is_whitespace, normalize_pptx_run_boundary_spacing, PptxAutoNumbering,
    PptxBulletKind,
};
use crate::text_util::{chars_of, concat2, opt_chars, str_eq};

verus! {

broadcast use {vstd::std_specs::btree::group_btree_axioms, vstd::laws_cmp::group_laws_cmp};

/// The list marker of a paragraph: automatic numbering, or a bullet
/// character; each with the marker's own text style, where it has one.
#[derive(Debug, Clone)]
pub enum PptxListMarker<N> {
    Ordered { auto_numbering: PptxAutoNumbering, marker_style: Option<TextStyle<N>> },
    Unordered { level: u32, marker_text: String, marker_style: Option<TextStyle<N>> },
}

pub open spec fn marker_kind<N>(m: PptxListMarker<N>) -> ListKind {
    match m {
        PptxListMarker::Ordered { .. } => ListKind::Ordered,
        PptxListMarker::Unordered { .. } => ListKind::Unordered,
    }
}

pub open spec fn marker_level<N>(m: PptxListMarker<N>) -> u32 {
    match m {
        PptxListMarker::Ordered { auto_numbering, .. } => auto_numbering.level,
        PptxListMarker::Unordered { level, .. } => level,
    }
}

pub open spec fn marker_pattern<N>(m: PptxListMarker<N>) -> Option<Seq<char>> {
    match m {
        PptxListMarker::Ordered { auto_numbering, .. } => opt_chars(auto_numbering.numbering_pattern),
        PptxListMarker::Unordered { .. } => None,
    }
}

pub open spec fn marker_start<N>(m: PptxListMarker<N>) -> Option<u32> {
    match m {
        PptxListMarker::Ordered { auto_numbering, .. } => auto_numbering.start_at,
        PptxListMarker::Unordered { .. } => None,
    }
}

pub open spec fn marker_text_of<N>(m: PptxListMarker<N>) -> Option<Seq<char>> {
    match m {
        PptxListMarker::Ordered { .. } => None,
        PptxListMarker::Unordered { marker_text, .. } => Some(marker_text@),
    }
}

pub open spec fn marker_style_of<N>(m: PptxListMarker<N>) -> Option<TextStyle<N>> {
    match m {
        PptxListMarker::Ordered { marker_style, .. } => marker_style,
        PptxListMarker::Unordered { marker_style, .. } => marker_style,
    }
}

/// The characters of an optional string slice.
pub open spec fn opt_str_chars(s: Option<&str>) -> Option<Seq<char>> {
    match s {
        Some(v) => Some(v@),
        None => None,
    }
}

impl<N> PptxListMarker<N> {
    /// Ordered for automatic numbering, unordered for a bullet.
    pub fn kind(&self) -> (kind: ListKind)
        ensures
            kind == marker_kind(*self),
    {
        match self {
            Self::Ordered { .. } => ListKind::Ordered,
            Self::Unordered { .. } => ListKind::Unordered,
        }
    }

    /// The list level of the marked paragraph.
    pub fn level(&self) -> (level: u32)
        ensures
            level == marker_level(*self),
    {
        match self {
            Self::Ordered { auto_numbering, .. } => auto_numbering.level,
            Self::Unordered { level, .. } => *level,
        }
    }

    /// The numbering pattern of automatic numbering.
    pub fn numbering_pattern(&self) -> (pattern: Option<&str>)
        ensures
            opt_str_chars(pattern) == marker_pattern(*self),
    {
        match self {
            Self::Ordered { auto_numbering, .. } => match &auto_numbering.numbering_pattern {
                Some(p) => Some(p.as_str()),
                None => None,
            },
            Self::Unordered { .. } => None,
        }
    }

    /// The start number of automatic numbering.
    pub fn start_at(&self) -> (start: Option<u32>)
        ensures
            start == marker_start(*self),
    {
        match self {
            Self::Ordered { auto_numbering, .. } => auto_numbering.start_at,
            Self::Unordered { .. } => None,
        }
    }

    /// The bullet character.
    pub fn marker_text(&self) -> (text: Option<&str>)
        ensures
            opt_str_chars(text) == marker_text_of(*self),
    {
        match self {
            Self::Ordered { .. } => None,
            Self::Unordered { marker_text, .. } => Some(marker_text.as_str()),
        }
    }

    /// The marker's own text style.
    pub fn marker_style(&self) -> (style: Option<&TextStyle<N>>)
        ensures
            match style {
                Some(s) => marker_style_of(*self) == Some(*s),
                None => marker_style_of(*self) is None,
            },
    {
        match self {
            Self::Ordered { marker_style, .. } | Self::Unordered { marker_style, .. } => match marker_style {
                Some(s) => Some(s),
                None => None,
            },
        }
    }
}

// ── Comparing marker styles ─────────────────────────────────────────

/// Optional measures that are equal as the measure type's `==` says.
pub open spec fn same_measure<N: PartialEq>(a: Option<N>, b: Option<N>) -> bool {
    match (a, b) {
        (Some(x), Some(y)) => x.eq_spec(&y),
        (None, None) => true,
        _ => false,
    }
}

/// Text styles equal field by field, measures as their type's `==` says.
pub open spec fn same_text_style<N: PartialEq>(a: TextStyle<N>, b: TextStyle<N>) -> bool {
    &&& opt_chars(a.font_family) == opt_chars(b.font_family)
    &&& same_measure(a.font_size, b.font_size)
    &&& a.bold == b.bold
    &&& a.italic == b.italic
    &&& a.underline == b.underline
    &&& a.strikethrough == b.strikethrough
    &&& a.color == b.color
    &&& a.highlight == b.highlight
    &&& a.vertical_align == b.vertical_align
    &&& a.all_caps == b.all_caps
    &&& a.small_caps == b.small_caps
    &&& same_measure(a.letter_spacing, b.letter_spacing)
}

/// Optional marker styles that match: both absent, or equal.
pub open spec fn same_marker_style<N: PartialEq>(a: Option<TextStyle<N>>, b: Option<TextStyle<N>>) -> bool {
    match (a, b) {
        (Some(x), Some(y)) => same_text_style(x, y),
        (None, None) => true,
        _ => false,
    }
}

fn measure_eq<N: PartialEq>(a: &Option<N>, b: &Option<N>) -> (r: bool)
    ensures
        N::obeys_eq_spec() ==> r == same_measure(*a, *b),
{
    match (a, b) {
        (Some(x), Some(y)) => *x == *y,
        (None, None) => true,
        _ => false,
    }
}

fn opt_string_eq(a: &Option<String>, b: &Option<String>) -> (r: bool)
    ensures
        r == (opt_chars(*a) == opt_chars(*b)),
{
    match (a, b) {
        (Some(x), Some(y)) => str_eq(x.as_str(), y.as_str()),
        (None, None) => true,
        _ => false,
    }
}

fn opt_bool_eq(a: Option<bool>, b: Option<bool>) -> (r: bool)
    ensures
        r == (a == b),
{
    match (a, b) {
        (Some(x), Some(y)) => x == y,
        (None, None) => true,
        _ => false,
    }
}

fn opt_color_eq(a: Option<Color>, b: Option<Color>) -> (r: bool)
    ensures
        r == (a == b),
{
    match (a, b) {
        (Some(x), Some(y)) => x == y,
        (None, None) => true,
        _ => false,
    }
}

fn opt_valign_eq(a: Option<VerticalTextAlign>, b: Option<VerticalTextAlign>) -> (r: bool)
    ensures
        r == (a == b),
{
    match (a, b) {
        (Some(x), Some(y)) => x == y,
        (None, None) => true,
        _ => false,
    }
}

/// Whether two text styles are equal (`==` of the derived `PartialEq`).
pub fn text_style_eq<N: PartialEq>(a: &TextStyle<N>, b: &TextStyle<N>) -> (r: bool)
    ensures
        N::obeys_eq_spec() ==> r == same_text_style(*a, *b),
{
    opt_string_eq(&a.font_family, &b.font_family) && measure_eq(&a.font_size, &b.font_size)
        && opt_bool_eq(a.bold, b.bold) && opt_bool_eq(a.italic, b.italic) && opt_bool_eq(
        a.underline,
        b.underline,
    ) && opt_bool_eq(a.strikethrough, b.strikethrough) && opt_color_eq(a.color, b.color)
        && opt_color_eq(a.highlight, b.highlight) && opt_valign_eq(a.vertical_align, b.vertical_align)
        && opt_bool_eq(a.all_caps, b.all_caps) && opt_bool_eq(a.small_caps, b.small_caps)
        && measure_eq(&a.letter_spacing, &b.letter_spacing)
}

// ── Runs and markers ────────────────────────────────────────────────

/// The style of the first run that shows text without being a footnote.
pub open spec fn first_visible_run_style<N>(runs: Seq<Run<N>>) -> Option<TextStyle<N>>
    decreases runs.len(),
{
    if runs.len() == 0 {
        None
    } else if runs[0].text@.len() > 0 && runs[0].footnote is None {
        Some(runs[0].style)
    } else {
        first_visible_run_style(runs.drop_first())
    }
}

/// The style of the first run with text that is not a footnote.
pub fn first_pptx_visible_run_style<N: Copy>(runs: &Vec<Run<N>>) -> (style: Option<TextStyle<N>>)
    ensures
        style == first_visible_run_style(runs@),
{
    let mut i: usize = 0;
    assert(runs@.skip(0) =~= runs@);
    while i < runs.len()
        invariant
            0 <= i <= runs@.len(),
            first_visible_run_style(runs@) == first_visible_run_style(runs@.skip(i as int)),
        decreases runs@.len() - i,
    {
        assert(runs@.skip(i as int).drop_first() =~= runs@.skip(i as int + 1));
        assert(runs@.skip(i as int)[0] == runs@[i as int]);
        if !runs[i].text.as_str().is_empty() && runs[i].footnote.is_none() {
            return Some(runs[i].style.copy());
        }
        i = i + 1;
    }
    None
}

/// Whether a text style sets nothing (the derived `Default`).
pub fn is_empty_text_style<N>(style: &TextStyle<N>) -> (empty: bool)
    ensures
        empty == (*style == empty_text_style::<N>()),
{
    style.font_family.is_none() && style.font_size.is_none() && style.bold.is_none() && style.italic.is_none()
        && style.underline.is_none() && style.strikethrough.is_none() && style.color.is_none()
        && style.highlight.is_none() && style.vertical_align.is_none() && style.all_caps.is_none()
        && style.small_caps.is_none() && style.letter_spacing.is_none()
}

/// The style a list marker starts from: the first visible run's; else the
/// paragraph end's, where it sets anything; else the text body's default
/// run style.
pub open spec fn marker_base_style<N>(
    runs: Seq<Run<N>>,
    end_para_run_style: TextStyle<N>,
    default_run_style: TextStyle<N>,
) -> TextStyle<N> {
    match first_visible_run_style(runs) {
        Some(s) => s,
        None => if end_para_run_style != empty_text_style::<N>() {
            end_para_run_style
        } else {
            default_run_style
        },
    }
}

/// The style a list marker starts from (see `marker_base_style`).
pub fn resolve_pptx_marker_base_style<N: Copy>(
    runs: &Vec<Run<N>>,
    end_para_run_style: &TextStyle<N>,
    default_run_style: &TextStyle<N>,
) -> (style: TextStyle<N>)
    ensures
        style == marker_base_style(runs@, *end_para_run_style, *default_run_style),
{
    match first_pptx_visible_run_style(runs) {
        Some(s) => s,
        None => if !is_empty_text_style(end_para_run_style) {
            end_para_run_style.copy()
        } else {
            default_run_style.copy()
        },
    }
}

/// A marker style, or none where it sets nothing.
pub open spec fn finalized_marker_style<N>(style: TextStyle<N>) -> Option<TextStyle<N>> {
    if style != empty_text_style::<N>() {
        Some(style)
    } else {
        None
    }
}

/// Keep a marker style only where it sets something.
pub fn finalize_pptx_marker_style<N>(style: TextStyle<N>) -> (r: Option<TextStyle<N>>)
    ensures
        r == finalized_marker_style(style),
{
    if is_empty_text_style(&style) {
        None
    } else {
        Some(style)
    }
}

/// The marker's scaled font size: where the bullet's size is a percentage
/// of a set font size, `scaled` is what `scale` returns for the two; else
/// there is none.
pub open spec fn marker_scaled<N, F: Fn(N, N) -> N>(
    base: TextStyle<N>,
    size: Option<PptxBulletSizeSource<N>>,
    scale: F,
    scaled: Option<N>,
) -> bool {
    match (size, base.font_size) {
        (Some(PptxBulletSizeSource::Percent(p)), Some(s)) => scaled matches Some(v) && call_ensures(scale, (s, p), v),
        _ => scaled is None,
    }
}

/// A base style with a bullet's own font, color and size laid over it; a
/// percentage size replaces the font size by `scaled`.
pub open spec fn bullet_marker_style<N>(
    base: TextStyle<N>,
    bullet: PptxBulletDefinition<N>,
    scaled: Option<N>,
) -> TextStyle<N> {
    TextStyle {
        font_family: match bullet.font {
            Some(PptxBulletFontSource::Explicit(f)) => Some(f),
            _ => base.font_family,
        },
        color: match bullet.color {
            Some(PptxBulletColorSource::Explicit(c)) => Some(c),
            _ => base.color,
        },
        font_size: match bullet.size {
            Some(PptxBulletSizeSource::Points(p)) => Some(p),
            Some(PptxBulletSizeSource::Percent(_)) => scaled,
            _ => base.font_size,
        },
        ..base
    }
}

/// `style` is the marker style of `bullet` over the given runs and styles,
/// with `scale` multiplying a font size by a percentage.
pub open spec fn marker_style_resolved<N, F: Fn(N, N) -> N>(
    bullet: PptxBulletDefinition<N>,
    runs: Seq<Run<N>>,
    end_para_run_style: TextStyle<N>,
    default_run_style: TextStyle<N>,
    scale: F,
    style: Option<TextStyle<N>>,
) -> bool {
    let base = marker_base_style(runs, end_para_run_style, default_run_style);
    exists|scaled: Option<N>|
        #[trigger] marker_scaled(base, bullet.size, scale, scaled)
            && style == finalized_marker_style(bullet_marker_style(base, bullet, scaled))
}

/// The style of a paragraph's list marker: the base style (see
/// `marker_base_style`) with the bullet's own font, color and size laid
/// over it, or none where that sets nothing. A size given as a percentage
/// of the text size is applied by `scale`, in the caller's measure.
pub fn resolve_pptx_marker_style<N: Copy, F: Fn(N, N) -> N>(
    bullet: &PptxBulletDefinition<N>,
    runs: &Vec<Run<N>>,
    end_para_run_style: &TextStyle<N>,
    default_run_style: &TextStyle<N>,
    scale: &F,
) -> (style: Option<TextStyle<N>>)
    requires
        forall|a: N, b: N| call_requires(*scale, (a, b)),
    ensures
        marker_style_resolved(*bullet, runs@, *end_para_run_style, *default_run_style, *scale, style),
{
    let base = resolve_pptx_marker_base_style(runs, end_para_run_style, default_run_style);
    let mut style = base.copy();
    match &bullet.font {
        Some(PptxBulletFontSource::Explicit(font_family)) => {
            style.font_family = Some(font_family.clone());
        },
        _ => {},
    }
    match bullet.color {
        Some(PptxBulletColorSource::Explicit(color)) => {
            style.color = Some(color);
        },
        _ => {},
    }
    let scaled: Option<N> = match (bullet.size, base.font_size) {
        (Some(PptxBulletSizeSource::Percent(percent)), Some(size)) => Some(scale(size, percent)),
        _ => None,
    };
    match bullet.size {
        Some(PptxBulletSizeSource::Points(points)) => {
            style.font_size = Some(points);
        },
        Some(PptxBulletSizeSource::Percent(_)) => {
            style.font_size = scaled;
        },
        _ => {},
    }
    assert(marker_scaled(base, bullet.size, *scale, scaled));
    finalize_pptx_marker_style(style)
}

/// The list marker a bullet definition gives a paragraph at a level, with
/// the marker's resolved style: none without a bullet kind or for
/// `a:buNone`; the bullet character's; or the automatic numbering's.
pub open spec fn marker_for_bullet<N>(
    kind: Option<PptxBulletKind>,
    level: u32,
    marker_style: Option<TextStyle<N>>,
) -> Option<PptxListMarker<N>> {
    match kind {
        None => None,
        Some(PptxBulletKind::NoBullet) => None,
        Some(PptxBulletKind::Character(c)) => Some(PptxListMarker::Unordered { level, marker_text: c, marker_style }),
        Some(PptxBulletKind::AutoNumber(n)) => Some(PptxListMarker::Ordered { auto_numbering: n, marker_style }),
    }
}

/// Resolve a paragraph's list marker from its bullet definition and level,
/// its marker style resolved as `resolve_pptx_marker_style` does.
pub fn resolve_pptx_list_marker<N: Copy, F: Fn(N, N) -> N>(
    bullet: &PptxBulletDefinition<N>,
    level: u32,
    runs: &Vec<Run<N>>,
    end_para_run_style: &TextStyle<N>,
    default_run_style: &TextStyle<N>,
    scale: &F,
) -> (marker: Option<PptxListMarker<N>>)
    requires
        forall|a: N, b: N| call_requires(*scale, (a, b)),
    ensures
        exists|marker_style: Option<TextStyle<N>>|
            marker_style_resolved(*bullet, runs@, *end_para_run_style, *default_run_style, *scale, marker_style)
                && marker == #[trigger] marker_for_bullet(bullet.kind, level, marker_style),
{
    let marker_style = resolve_pptx_marker_style(bullet, runs, end_para_run_style, default_run_style, scale);
    let marker = match &bullet.kind {
        None => None,
        Some(PptxBulletKind::NoBullet) => None,
        Some(PptxBulletKind::Character(c)) => Some(
            PptxListMarker::Unordered { level, marker_text: c.clone(), marker_style },
        ),
        Some(PptxBulletKind::AutoNumber(n)) => Some(
            PptxListMarker::Ordered {
                auto_numbering: PptxAutoNumbering {
                    level: n.level,
                    numbering_pattern: clone_opt_string(&n.numbering_pattern),
                    start_at: n.start_at,
                },
                marker_style,
            },
        ),
    };
    assert(marker == marker_for_bullet(bullet.kind, level, marker_style));
    marker
}

/// A run joins the previous one when their styles, links and footnotes
/// are the same.
pub open spec fn run_joins<N: PartialEq>(previous: Run<N>, run: Run<N>) -> bool {
    &&& same_text_style(previous.style, run.style)
    &&& opt_chars(previous.href) == opt_chars(run.href)
    &&& opt_chars(previous.footnote) == opt_chars(run.footnote)
}

/// How appending `run` took `before` to `after`: its text joined the last
/// run where they are formatted alike (`joined`); otherwise it was added,
/// its leading space made non-breaking where the boundary calls for it.
pub open spec fn run_pushed<N: PartialEq>(before: Seq<Run<N>>, after: Seq<Run<N>>, run: Run<N>, joined: bool) -> bool {
    &&& N::obeys_eq_spec() ==> joined == (before.len() > 0 && run_joins(before.last(), run))
    &&& joined ==> before.len() > 0 && after.len() == before.len() && after.drop_last() == before.drop_last()
        && after.last().text@ == before.last().text@ + run.text@ && after.last().style == before.last().style
        && after.last().href == before.last().href && after.last().footnote == before.last().footnote
    &&& !joined ==> after.drop_last() == before && after.len() == before.len() + 1 && after.last().style
        == run.style && after.last().href == run.href && after.last().footnote == run.footnote
        && after.last().text@ == if boundary_space_fixed(
        if before.len() > 0 {
            Some(before.last())
        } else {
            None
        },
        run,
    ) {
        run.text@.update(0, '\u{a0}')
    } else {
        run.text@
    }
}

/// Append a run to a paragraph's runs: its text joins the last run where
/// they are formatted alike; otherwise it is added, its leading space made
/// non-breaking where the boundary calls for it.
pub fn push_pptx_run<N: PartialEq>(runs: &mut Vec<Run<N>>, run: Run<N>) -> (joined: bool)
    ensures
        run_pushed(old(runs)@, final(runs)@, run, joined),
{
    let n = runs.len();
    if n > 0 {
        let last = &runs[n - 1];
        if text_style_eq(&last.style, &run.style) && opt_string_eq(&last.href, &run.href) && opt_string_eq(
            &last.footnote,
            &run.footnote,
        ) {
            let text = concat2(runs[n - 1].text.as_str(), run.text.as_str());
            let mut previous = runs.pop().unwrap();
            previous.text = text;
            runs.push(previous);
            assert(runs@.drop_last() =~= old(runs)@.drop_last());
            return true;
        }
    }
    let mut run = run;
    if n > 0 {
        normalize_pptx_run_boundary_spacing(Some(&runs[n - 1]), &mut run);
    } else {
        normalize_pptx_run_boundary_spacing(None, &mut run);
    }
    runs.push(run);
    assert(runs@.drop_last() =~= old(runs)@);
    false
}

/// The character a soft line break (`a:br`) becomes in a run.
pub open spec fn soft_line_break_text() -> Seq<char> {
    seq!['\u{b}']
}

/// Append a soft line break in the given style, as `push_pptx_run` appends
/// a run: a run holding only the line break character, with no link or
/// footnote.
pub fn push_pptx_soft_line_break<N: PartialEq + Copy>(runs: &mut Vec<Run<N>>, style: &TextStyle<N>) -> (joined: bool)
    ensures
        exists|run: Run<N>|
            run.text@ == soft_line_break_text() && run.style == *style && run.href is None && run.footnote is None
                && #[trigger] run_pushed(old(runs)@, final(runs)@, run, joined),
{
    let text = "\u{b}".to_string();
    proof {
        reveal_strlit("\u{b}");
        assert(text@ =~= soft_line_break_text());
    }
    let run = Run { text, style: style.copy(), href: None, footnote: None };
    push_pptx_run(runs, run)
}

// ── Pending lists ───────────────────────────────────────────────────

/// The values a list level style holds.
pub ghost struct LevelStyleView<N> {
    pub kind: ListKind,
    pub numbering_pattern: Option<Seq<char>>,
    pub full_numbering: bool,
    pub marker_text: Option<Seq<char>>,
    pub marker_style: Option<TextStyle<N>>,
}

pub open spec fn level_style_view<N>(s: ListLevelStyle<N>) -> LevelStyleView<N> {
    LevelStyleView {
        kind: s.kind,
        numbering_pattern: opt_chars(s.numbering_pattern),
        full_numbering: s.full_numbering,
        marker_text: opt_chars(s.marker_text),
        marker_style: s.marker_style,
    }
}

pub open spec fn level_styles_view<N>(m: Map<u32, ListLevelStyle<N>>) -> Map<u32, LevelStyleView<N>> {
    m.map_values(|s: ListLevelStyle<N>| level_style_view(s))
}

/// The level style a marker gives its level in a list of the given kind.
pub open spec fn style_for_marker<N>(m: PptxListMarker<N>, kind: ListKind) -> LevelStyleView<N> {
    LevelStyleView {
        kind,
        numbering_pattern: marker_pattern(m),
        full_numbering: false,
        marker_text: marker_text_of(m),
        marker_style: marker_style_of(m),
    }
}

/// Whether a marked paragraph may join a list being built: same kind; a
/// first item always; a numbered item that restarts numbering
/// (`startAt`) at or above the last level never; otherwise its level's
/// style, where the list has one, must be the marker's (same pattern for
/// numbering; same bullet and marker style for bullets).
pub open spec fn pending_can_extend<N: PartialEq>(
    kind: ListKind,
    n_items: nat,
    last_level: u32,
    styles: Map<u32, LevelStyleView<N>>,
    m: PptxListMarker<N>,
) -> bool {
    if kind != marker_kind(m) {
        false
    } else if n_items == 0 {
        true
    } else {
        match m {
            PptxListMarker::Ordered { auto_numbering, .. } => {
                &&& !(auto_numbering.start_at is Some && auto_numbering.level <= last_level)
                &&& (styles.contains_key(auto_numbering.level) ==> styles[auto_numbering.level].numbering_pattern
                    == opt_chars(auto_numbering.numbering_pattern))
            },
            PptxListMarker::Unordered { level, marker_text, marker_style } => styles.contains_key(level)
                ==> (styles[level].marker_text == Some(marker_text@) && same_marker_style(
                styles[level].marker_style,
                marker_style,
            )),
        }
    }
}

/// A list being built from marked paragraphs.
#[derive(Debug)]
pub struct PendingPptxList<N> {
    pub kind: ListKind,
    pub items: Vec<ListItem<N>>,
    pub level_styles: BTreeMap<u32, ListLevelStyle<N>>,
    pub last_level: u32,
}

/// A copy of an optional text style.
fn copy_marker_style<N: Copy>(s: Option<&TextStyle<N>>) -> (c: Option<TextStyle<N>>)
    ensures
        match s {
            Some(v) => c == Some(*v),
            None => c is None,
        },
{
    match s {
        Some(v) => Some(v.copy()),
        None => None,
    }
}

/// An owned copy of an optional string slice.
fn owned_opt(s: Option<&str>) -> (c: Option<String>)
    ensures
        opt_chars(c) == opt_str_chars(s),
{
    match s {
        Some(v) => Some(v.to_string()),
        None => None,
    }
}

impl<N: Copy + PartialEq> PendingPptxList<N> {
    /// An empty list of the marker's kind.
    pub fn new(marker: &PptxListMarker<N>) -> (list: Self)
        ensures
            list.kind == marker_kind(*marker),
            list.items@.len() == 0,
            list.level_styles@ == Map::<u32, ListLevelStyle<N>>::empty(),
            list.last_level == 0,
    {
        PendingPptxList { kind: marker.kind(), items: Vec::new(), level_styles: BTreeMap::new(), last_level: 0 }
    }

    /// Whether a marked paragraph may join this list.
    pub fn can_extend(&self, marker: &PptxListMarker<N>) -> (r: bool)
        ensures
            r ==> self.kind == marker_kind(*marker),
            N::obeys_eq_spec() ==> r == pending_can_extend(
                self.kind,
                self.items@.len(),
                self.last_level,
                level_styles_view(self.level_styles@),
                *marker,
            ),
    {
        if self.kind != marker.kind() {
            return false;
        }
        if self.items.len() == 0 {
            return true;
        }
        match marker {
            PptxListMarker::Ordered { auto_numbering, .. } => {
                if auto_numbering.start_at.is_some() && auto_numbering.level <= self.last_level {
                    return false;
                }
                match self.level_styles.get(&auto_numbering.level) {
                    Some(style) => opt_string_eq(&style.numbering_pattern, &auto_numbering.numbering_pattern),
                    None => true,
                }
            },
            PptxListMarker::Unordered { level, marker_text, marker_style } => {
                match self.level_styles.get(level) {
                    Some(style) => {
                        let same_text = match &style.marker_text {
                            Some(t) => str_eq(t.as_str(), marker_text.as_str()),
                            None => false,
                        };
                        let same_style = match (&style.marker_style, marker_style) {
                            (Some(a), Some(b)) => text_style_eq(a, b),
                            (None, None) => true,
                            _ => false,
                        };
                        same_text && same_style
                    },
                    None => true,
                }
            },
        }
    }

    /// Add a marked paragraph: its level takes the marker's style unless the
    /// list already has one for it; only the first item carries the
    /// marker's start number.
    pub fn push(&mut self, paragraph: Paragraph<N>, marker: PptxListMarker<N>)
        ensures
            final(self).kind == old(self).kind,
            final(self).items@ == old(self).items@.push(
                ListItem {
                    content: final(self).items@.last().content,
                    level: marker_level(marker),
                    start_at: if old(self).items@.len() == 0 {
                        marker_start(marker)
                    } else {
                        None
                    },
                },
            ),
            final(self).items@.last().content@ == seq![paragraph],
            level_styles_view(final(self).level_styles@) == if old(self).level_styles@.contains_key(
                marker_level(marker),
            ) {
                level_styles_view(old(self).level_styles@)
            } else {
                level_styles_view(old(self).level_styles@).insert(
                    marker_level(marker),
                    style_for_marker(marker, old(self).kind),
                )
            },
            final(self).last_level == marker_level(marker),
    {
        let level: u32 = marker.level();
        if !self.level_styles.contains_key(&level) {
            let style = ListLevelStyle {
                kind: self.kind,
                numbering_pattern: owned_opt(marker.numbering_pattern()),
                full_numbering: false,
                marker_text: owned_opt(marker.marker_text()),
                marker_style: copy_marker_style(marker.marker_style()),
            };
            let ghost before = self.level_styles@;
            self.level_styles.insert(level, style);
            assert(level_styles_view(self.level_styles@) =~= level_styles_view(before).insert(
                level,
                style_for_marker(marker, self.kind),
            ));
        }
        let start_at = if self.items.len() == 0 {
            marker.start_at()
        } else {
            None
        };
        let mut content: Vec<Paragraph<N>> = Vec::new();
        content.push(paragraph);
        self.items.push(ListItem { content, level, start_at });
        self.last_level = level;
    }

    /// The finished list.
    pub fn into_block<B>(self) -> (block: GroupedBlock<N, B>)
        ensures
            block == GroupedBlock::<N, B>::List(
                List { kind: self.kind, items: self.items, level_styles: self.level_styles },
            ),
    {
        GroupedBlock::List(List { kind: self.kind, items: self.items, level_styles: self.level_styles })
    }
}

// ── Grouping a text body ────────────────────────────────────────────

/// A paragraph of a text body with its list marker, where it has one.
#[derive(Debug)]
pub struct PptxParagraphEntry<N> {
    pub paragraph: Paragraph<N>,
    pub list_marker: Option<PptxListMarker<N>>,
}

/// The soft line break character of a run (`a:br` inside a paragraph).
pub open spec fn soft_line_break() -> char {
    '\u{b}'
}

/// A run shows something: a footnote, or a character other than white
/// space and soft line breaks.
pub open spec fn run_visible<N>(run: Run<N>) -> bool {
    run.footnote is Some || exists|i: int| 0 <= i < run.text@.len() && #[trigger] run.text@[i] != soft_line_break()
        && !is_white_space(run.text@[i])
}

/// A paragraph shows something.
pub open spec fn has_visible_content<N>(p: Paragraph<N>) -> bool {
    exists|j: int| 0 <= j < p.runs@.len() && run_visible(#[trigger] p.runs@[j])
}

/// Whether a paragraph shows anything.
pub fn pptx_paragraph_has_visible_content<N>(paragraph: &Paragraph<N>) -> (r: bool)
    ensures
        r == has_visible_content(*paragraph),
{
    let mut j: usize = 0;
    while j < paragraph.runs.len()
        invariant
            0 <= j <= paragraph.runs@.len(),
            forall|t: int| 0 <= t < j ==> !run_visible(#[trigger] paragraph.runs@[t]),
        decreases paragraph.runs@.len() - j,
    {
        let run = &paragraph.runs[j];
        if run.footnote.is_some() {
            return true;
        }
        let chars = chars_of(run.text.as_str());
        let mut i: usize = 0;
        while i < chars.len()
            invariant
                0 <= i <= chars@.len(),
                j < paragraph.runs@.len(),
                chars@ == paragraph.runs@[j as int].text@,
                forall|t: int| 0 <= t < i ==> !(#[trigger] chars@[t] != soft_line_break() && !is_white_space(chars@[t])),
            decreases chars@.len() - i,
        {
            if chars[i] != '\u{b}' && !is_whitespace(chars[i]) {
                assert(run_visible(paragraph.runs@[j as int]));
                return true;
            }
            i = i + 1;
        }
        assert(!run_visible(paragraph.runs@[j as int]));
        j = j + 1;
    }
    false
}

/// How many entries remain once trailing list entries that show nothing
/// are dropped (the first entry always remains).
pub open spec fn trimmed_len<N>(entries: Seq<PptxParagraphEntry<N>>) -> nat
    decreases entries.len(),
{
    if entries.len() > 1 && entries.last().list_marker is Some && !has_visible_content(entries.last().paragraph) {
        trimmed_len(entries.drop_last())
    } else {
        entries.len()
    }
}

proof fn lemma_trimmed_len_bound<N>(entries: Seq<PptxParagraphEntry<N>>)
    ensures
        trimmed_len(entries) <= entries.len(),
    decreases entries.len(),
{
    if entries.len() > 1 && entries.last().list_marker is Some && !has_visible_content(entries.last().paragraph) {
        lemma_trimmed_len_bound(entries.drop_last());
    }
}

/// Drop trailing list entries that show nothing, keeping at least one entry.
pub fn trim_trailing_empty_pptx_list_entries<N>(entries: &mut Vec<PptxParagraphEntry<N>>)
    ensures
        final(entries)@ == old(entries)@.take(trimmed_len(old(entries)@) as int),
{
    let ghost orig = entries@;
    proof {
        lemma_trimmed_len_bound(orig);
        assert(orig.take(orig.len() as int) =~= orig);
    }
    let mut done = false;
    while !done && entries.len() > 1
        invariant
            trimmed_len(orig) == trimmed_len(entries@),
            trimmed_len(orig) <= entries@.len() <= orig.len(),
            entries@ == orig.take(entries@.len() as int),
            done ==> trimmed_len(entries@) == entries@.len(),
        decreases entries@.len(), if done { 0int } else { 1int },
    {
        let last = entries.len() - 1;
        let drop = match &entries[last].list_marker {
            Some(_) => !pptx_paragraph_has_visible_content(&entries[last].paragraph),
            None => false,
        };
        if !drop {
            done = true;
            continue;
        }
        let ghost before = entries@;
        entries.pop();
        assert(entries@ =~= before.drop_last());
        assert(entries@ =~= orig.take(entries@.len() as int));
        proof {
            lemma_trimmed_len_bound(entries@);
        }
    }
    assert(entries@.len() == trimmed_len(entries@));
}

/// A piece of a grouped text body: one paragraph, or the marked paragraphs
/// of one list, by their positions.
pub ghost enum PptxSegment {
    Paragraph(int),
    List(Seq<int>),
}

/// The grouping state: the finished pieces, and the list being built.
pub ghost struct PptxPlan {
    pub segments: Seq<PptxSegment>,
    pub pending: Seq<int>,
}

/// The marker of a marked entry.
pub open spec fn marker_of<N>(entries: Seq<PptxParagraphEntry<N>>, i: int) -> PptxListMarker<N> {
    entries[i].list_marker->Some_0
}

/// A list's kind: that of its first marker.
pub open spec fn list_kind_of<N>(entries: Seq<PptxParagraphEntry<N>>, idxs: Seq<int>) -> ListKind {
    marker_kind(marker_of(entries, idxs[0]))
}

/// The level styles of a list of marked entries: each level takes the style
/// of its first item.
pub open spec fn pending_styles<N>(entries: Seq<PptxParagraphEntry<N>>, idxs: Seq<int>, kind: ListKind) -> Map<
    u32,
    LevelStyleView<N>,
>
    decreases idxs.len(),
{
    if idxs.len() == 0 {
        Map::empty()
    } else {
        let prev = pending_styles(entries, idxs.drop_last(), kind);
        let m = marker_of(entries, idxs.last());
        if prev.contains_key(marker_level(m)) {
            prev
        } else {
            prev.insert(marker_level(m), style_for_marker(m, kind))
        }
    }
}

/// Whether a marker may join the list of the given entries.
pub open spec fn plan_extends<N: PartialEq>(entries: Seq<PptxParagraphEntry<N>>, idxs: Seq<int>, m: PptxListMarker<N>) -> bool {
    let kind = list_kind_of(entries, idxs);
    pending_can_extend(
        kind,
        idxs.len(),
        marker_level(marker_of(entries, idxs.last())),
        pending_styles(entries, idxs, kind),
        m,
    )
}

/// The open list's piece, if a list is open.
pub open spec fn pptx_closing(pending: Seq<int>) -> Seq<PptxSegment> {
    if pending.len() > 0 {
        seq![PptxSegment::List(pending)]
    } else {
        Seq::empty()
    }
}

/// The grouping state after entry `i`, where `extend` says whether its
/// marker may join the open list.
pub open spec fn pptx_step<N>(entries: Seq<PptxParagraphEntry<N>>, p: PptxPlan, i: int, extend: bool) -> PptxPlan {
    match entries[i].list_marker {
        Some(_) => if p.pending.len() > 0 && !extend {
            PptxPlan { segments: p.segments.push(PptxSegment::List(p.pending)), pending: seq![i] }
        } else {
            PptxPlan { segments: p.segments, pending: p.pending.push(i) }
        },
        None => PptxPlan {
            segments: p.segments + pptx_closing(p.pending) + seq![PptxSegment::Paragraph(i)],
            pending: Seq::empty(),
        },
    }
}

/// The grouping state after the first `n` entries, with the given joining
/// decisions.
pub open spec fn pptx_plan<N>(entries: Seq<PptxParagraphEntry<N>>, d: Seq<bool>, n: nat) -> PptxPlan
    decreases n,
{
    if n == 0 {
        PptxPlan { segments: Seq::empty(), pending: Seq::empty() }
    } else {
        pptx_step(entries, pptx_plan(entries, d, (n - 1) as nat), n - 1, d[n - 1])
    }
}

/// Each joining decision is the one `pending_can_extend` makes.
pub open spec fn decisions_agree<N: PartialEq>(entries: Seq<PptxParagraphEntry<N>>, d: Seq<bool>) -> bool {
    forall|i: nat|
        i < entries.len() && entries[i as int].list_marker is Some && pptx_plan(entries, d, i).pending.len() > 0
            ==> d[i as int] == plan_extends(entries, #[trigger] pptx_plan(entries, d, i).pending, marker_of(entries, i as int))
}

/// The pieces of the whole grouped body.
pub open spec fn pptx_segments<N>(entries: Seq<PptxParagraphEntry<N>>, d: Seq<bool>) -> Seq<PptxSegment> {
    let p = pptx_plan(entries, d, entries.len());
    p.segments + pptx_closing(p.pending)
}

/// A list item is marked entry `i`: its paragraph, its marker's level, and
/// the marker's start number where it is the list's first item.
pub open spec fn pptx_item_matches<N>(entries: Seq<PptxParagraphEntry<N>>, item: ListItem<N>, i: int, first: bool) -> bool {
    &&& item.content@ == seq![entries[i].paragraph]
    &&& item.level == marker_level(marker_of(entries, i))
    &&& item.start_at == if first {
        marker_start(marker_of(entries, i))
    } else {
        None
    }
}

/// An output block is the given piece.
pub open spec fn pptx_block_matches<N>(
    entries: Seq<PptxParagraphEntry<N>>,
    out: GroupedBlock<N, Paragraph<N>>,
    seg: PptxSegment,
) -> bool {
    match seg {
        PptxSegment::Paragraph(i) => out == GroupedBlock::<N, Paragraph<N>>::Block(entries[i].paragraph),
        PptxSegment::List(idxs) => match out {
            GroupedBlock::List(list) => {
                &&& list.kind == list_kind_of(entries, idxs)
                &&& list.items@.len() == idxs.len()
                &&& forall|j: int| 0 <= j < idxs.len() ==> pptx_item_matches(entries, #[trigger] list.items@[j], idxs[j], j == 0)
                &&& level_styles_view(list.level_styles@) == pending_styles(entries, idxs, list.kind)
            },
            GroupedBlock::Block(_) => false,
        },
    }
}

/// The plan of a prefix depends only on the decisions made in it.
proof fn lemma_plan_prefix<N>(entries: Seq<PptxParagraphEntry<N>>, d1: Seq<bool>, d2: Seq<bool>, n: nat)
    requires
        n <= d1.len(),
        n <= d2.len(),
        forall|k: int| 0 <= k < n ==> d1[k] == d2[k],
    ensures
        pptx_plan(entries, d1, n) == pptx_plan(entries, d2, n),
    decreases n,
{
    if n > 0 {
        lemma_plan_prefix(entries, d1, d2, (n - 1) as nat);
    }
}

/// The list being built is the plan's pending list.
pub open spec fn pending_ok<N>(
    pending: Option<PendingPptxList<N>>,
    entries: Seq<PptxParagraphEntry<N>>,
    idxs: Seq<int>,
) -> bool {
    match pending {
        None => idxs.len() == 0,
        Some(l) => {
            &&& idxs.len() > 0
            &&& l.kind == list_kind_of(entries, idxs)
            &&& l.items@.len() == idxs.len()
            &&& forall|j: int| 0 <= j < idxs.len() ==> pptx_item_matches(entries, #[trigger] l.items@[j], idxs[j], j == 0)
            &&& level_styles_view(l.level_styles@) == pending_styles(entries, idxs, l.kind)
            &&& l.last_level == marker_level(marker_of(entries, idxs.last()))
        },
    }
}

/// The grouping loop's state.
struct PptxGroupState<N> {
    blocks: Vec<GroupedBlock<N, Paragraph<N>>>,
    pending: Option<PendingPptxList<N>>,
}

/// The loop state is plan `p` of the first `n` entries.
spec fn pptx_state_ok<N>(st: PptxGroupState<N>, entries: Seq<PptxParagraphEntry<N>>, p: PptxPlan, n: int) -> bool {
    &&& 0 <= n <= entries.len()
    &&& st.blocks@.len() == p.segments.len()
    &&& forall|k: int| 0 <= k < p.segments.len() ==> pptx_block_matches(entries, #[trigger] st.blocks@[k], p.segments[k])
    &&& pending_ok(st.pending, entries, p.pending)
    &&& forall|j: int| 0 <= j < p.pending.len() ==> 0 <= #[trigger] p.pending[j] < n && entries[p.pending[j]].list_marker is Some
}

impl<N: Copy + PartialEq> PptxGroupState<N> {
    /// Close the list being built, if any.
    fn close(&mut self, Ghost(entries): Ghost<Seq<PptxParagraphEntry<N>>>, Ghost(p): Ghost<PptxPlan>, Ghost(n): Ghost<int>)
        requires
            pptx_state_ok(*old(self), entries, p, n),
        ensures
            pptx_state_ok(
                *final(self),
                entries,
                PptxPlan { segments: p.segments + pptx_closing(p.pending), pending: Seq::empty() },
                n,
            ),
    {
        match self.pending.take() {
            Some(list) => {
                let ghost segs = p.segments + pptx_closing(p.pending);
                let ghost before = self.blocks@;
                self.blocks.push(list.into_block());
                assert(segs =~= p.segments.push(PptxSegment::List(p.pending)));
                assert forall|k: int| 0 <= k < segs.len() implies pptx_block_matches(entries, #[trigger] self.blocks@[k], segs[k]) by {
                    if k < p.segments.len() {
                        assert(self.blocks@[k] == before[k]);
                    }
                }
            },
            None => {
                assert(p.segments + pptx_closing(p.pending) =~= p.segments);
            },
        }
    }

    /// An unmarked entry: close the list being built and keep the paragraph.
    fn step_paragraph(
        &mut self,
        paragraph: Paragraph<N>,
        Ghost(entries): Ghost<Seq<PptxParagraphEntry<N>>>,
        Ghost(p): Ghost<PptxPlan>,
        Ghost(n): Ghost<int>,
    )
        requires
            0 <= n < entries.len(),
            pptx_state_ok(*old(self), entries, p, n),
            entries[n].list_marker is None,
            entries[n].paragraph == paragraph,
        ensures
            pptx_state_ok(*final(self), entries, pptx_step(entries, p, n, true), n + 1),
    {
        self.close(Ghost(entries), Ghost(p), Ghost(n));
        let ghost before = self.blocks@;
        self.blocks.push(GroupedBlock::Block(paragraph));
        let ghost p2 = pptx_step(entries, p, n, true);
        assert(p2.segments =~= (p.segments + pptx_closing(p.pending)).push(PptxSegment::Paragraph(n)));
        assert forall|k: int| 0 <= k < p2.segments.len() implies pptx_block_matches(entries, #[trigger] self.blocks@[k], p2.segments[k]) by {
            if k < before.len() {
                assert(self.blocks@[k] == before[k]);
            }
        }
    }

    /// A marked entry: join the list being built, or start a new one.
    /// Returns whether it could join.
    #[verifier::rlimit(40)]
    fn step_marked(
        &mut self,
        paragraph: Paragraph<N>,
        marker: PptxListMarker<N>,
        Ghost(entries): Ghost<Seq<PptxParagraphEntry<N>>>,
        Ghost(p): Ghost<PptxPlan>,
        Ghost(n): Ghost<int>,
    ) -> (extend: bool)
        requires
            0 <= n < entries.len(),
            pptx_state_ok(*old(self), entries, p, n),
            entries[n].list_marker == Some(marker),
            entries[n].paragraph == paragraph,
        ensures
            pptx_state_ok(*final(self), entries, pptx_step(entries, p, n, extend), n + 1),
            N::obeys_eq_spec() && p.pending.len() > 0 ==> extend == plan_extends(entries, p.pending, marker),
    {
        let extend = match &self.pending {
            Some(list) => list.can_extend(&marker),
            None => true,
        };
        let ghost p2 = pptx_step(entries, p, n, extend);
        if !extend {
            self.close(Ghost(entries), Ghost(p), Ghost(n));
            assert(p.segments + pptx_closing(p.pending) =~= p.segments.push(PptxSegment::List(p.pending)));
        }
        let ghost mid = self.pending;
        let ghost base = if !extend {
            Seq::<int>::empty()
        } else {
            p.pending
        };
        if self.pending.is_none() {
            self.pending = Some(PendingPptxList::new(&marker));
        }
        let ghost fresh = self.pending->Some_0;
        match &mut self.pending {
            Some(list) => {
                list.push(paragraph, marker);
            },
            None => {},
        }
        assert(p2.pending == base.push(n));
        let ghost l = self.pending->Some_0;
        proof {
            if base.len() == 0 {
                assert(base.push(n) =~= seq![n]);
                assert(seq![n].drop_last() =~= Seq::<int>::empty());
                assert(level_styles_view(fresh.level_styles@) =~= Map::empty());
            } else {
                assert(base.push(n).drop_last() =~= base);
                assert(base.push(n)[0] == base[0]);
                assert forall|j: int| 0 <= j < base.push(n).len() implies pptx_item_matches(
                    entries,
                    #[trigger] l.items@[j],
                    base.push(n)[j],
                    j == 0,
                ) by {
                    if j < base.len() {
                        assert(l.items@[j] == fresh.items@[j]);
                    }
                }
            }
        }
        assert(level_styles_view(fresh.level_styles@).dom() =~= fresh.level_styles@.dom());
        assert(base.push(n).drop_last() =~= base);
        assert(base.push(n).last() == n);
        assert(marker_of(entries, n) == marker);
        assert(pending_styles(entries, base.push(n), fresh.kind) == {
            let prev = pending_styles(entries, base, fresh.kind);
            if prev.contains_key(marker_level(marker)) {
                prev
            } else {
                prev.insert(marker_level(marker), style_for_marker(marker, fresh.kind))
            }
        });
        assert(level_styles_view(l.level_styles@) == pending_styles(entries, p2.pending, l.kind));
        extend
    }
}

/// The blocks are the grouping of the kept entries with decisions `d`,
/// which are `pending_can_extend`'s where the measure type's `==` is the
/// spec's equality.
pub open spec fn grouped_as<N: PartialEq>(
    kept: Seq<PptxParagraphEntry<N>>,
    d: Seq<bool>,
    blocks: Seq<GroupedBlock<N, Paragraph<N>>>,
) -> bool {
    &&& d.len() == kept.len()
    &&& N::obeys_eq_spec() ==> decisions_agree(kept, d)
    &&& blocks.len() == pptx_segments(kept, d).len()
    &&& forall|k: int| 0 <= k < blocks.len() ==> pptx_block_matches(kept, #[trigger] blocks[k], pptx_segments(kept, d)[k])
}

/// Group a text body's paragraphs into blocks: trailing list paragraphs
/// that show nothing are dropped, consecutive marked paragraphs form a
/// list while each may join it, and each unmarked paragraph stands alone.
/// Where the measure type's `==` is the spec's equality, each joining
/// decision is exactly `pending_can_extend`.
pub fn group_pptx_text_blocks<N: Copy + PartialEq>(entries: Vec<PptxParagraphEntry<N>>) -> (blocks: Vec<
    GroupedBlock<N, Paragraph<N>>,
>)
    ensures
        exists|d: Seq<bool>| #[trigger] grouped_as(entries@.take(trimmed_len(entries@) as int), d, blocks@),
{
    let mut entries = entries;
    trim_trailing_empty_pptx_list_entries(&mut entries);
    let ghost kept = entries@;
    let total: usize = entries.len();
    let mut stack = crate::parser::docx_lists::reversed(entries);
    let mut st: PptxGroupState<N> = PptxGroupState { blocks: Vec::new(), pending: None };
    let ghost mut d: Seq<bool> = Seq::empty();
    let mut i: usize = 0;
    while stack.len() > 0
        invariant
            i + stack@.len() == kept.len(),
            kept.len() == total,
            forall|j: int| 0 <= j < stack@.len() ==> #[trigger] stack@[j] == kept[kept.len() - 1 - j],
            d.len() == i,
            pptx_state_ok(st, kept, pptx_plan(kept, d, i as nat), i as int),
            N::obeys_eq_spec() ==> forall|k: nat|
                k < i && kept[k as int].list_marker is Some && pptx_plan(kept, d, k).pending.len() > 0
                    ==> d[k as int] == plan_extends(kept, #[trigger] pptx_plan(kept, d, k).pending, marker_of(kept, k as int)),
        decreases stack@.len(),
    {
        let e = stack.pop().unwrap();
        assert(e == kept[i as int]);
        let ghost p = pptx_plan(kept, d, i as nat);
        let ghost old_d = d;
        let PptxParagraphEntry { paragraph, list_marker } = e;
        let extend = match list_marker {
            Some(marker) => st.step_marked(paragraph, marker, Ghost(kept), Ghost(p), Ghost(i as int)),
            None => {
                st.step_paragraph(paragraph, Ghost(kept), Ghost(p), Ghost(i as int));
                true
            },
        };
        proof {
            d = d.push(extend);
            lemma_plan_prefix(kept, old_d, d, i as nat);
            assert forall|k: nat| k <= i implies #[trigger] pptx_plan(kept, d, k) == pptx_plan(kept, old_d, k) by {
                if k <= i {
                    lemma_plan_prefix(kept, old_d, d, k);
                }
            }
        }
        i = i + 1;
    }
    let ghost p = pptx_plan(kept, d, i as nat);
    st.close(Ghost(kept), Ghost(p), Ghost(i as int));
    assert(N::obeys_eq_spec() ==> decisions_agree(kept, d));
    assert(grouped_as(kept, d, st.blocks@));
    st.blocks
}

// ── Laws of grouping ────────────────────────────────────────────────

/// The entries a piece stands for, in order.
pub open spec fn pptx_segment_entries(seg: PptxSegment) -> Seq<int> {
    match seg {
        PptxSegment::Paragraph(i) => seq![i],
        PptxSegment::List(idxs) => idxs,
    }
}

/// The entries of a sequence of pieces, in order.
pub open spec fn pptx_flatten(segs: Seq<PptxSegment>) -> Seq<int>
    decreases segs.len(),
{
    if segs.len() == 0 {
        Seq::empty()
    } else {
        pptx_flatten(segs.drop_last()) + pptx_segment_entries(segs.last())
    }
}

/// A list of positions is a non-empty run of adjacent marked entries.
pub open spec fn is_marked_run<N>(entries: Seq<PptxParagraphEntry<N>>, idxs: Seq<int>) -> bool {
    &&& forall|j: int| 0 <= j < idxs.len() ==> 0 <= #[trigger] idxs[j] < entries.len() && entries[idxs[j]].list_marker is Some
    &&& forall|j: int| 0 < j < idxs.len() ==> #[trigger] idxs[j] == idxs[j - 1] + 1
}

/// Every list piece is a non-empty run of adjacent marked entries.
pub open spec fn pptx_lists_are_runs<N>(entries: Seq<PptxParagraphEntry<N>>, segs: Seq<PptxSegment>) -> bool {
    forall|k: int| 0 <= k < segs.len() ==> match #[trigger] segs[k] {
        PptxSegment::List(idxs) => idxs.len() > 0 && is_marked_run(entries, idxs),
        PptxSegment::Paragraph(i) => 0 <= i < entries.len() && entries[i].list_marker is None,
    }
}

proof fn lemma_pptx_flatten_append(a: Seq<PptxSegment>, b: Seq<PptxSegment>)
    ensures
        pptx_flatten(a + b) == pptx_flatten(a) + pptx_flatten(b),
    decreases b.len(),
{
    if b.len() == 0 {
        assert(a + b =~= a);
        assert(pptx_flatten(a) + pptx_flatten(b) =~= pptx_flatten(a));
    } else {
        lemma_pptx_flatten_append(a, b.drop_last());
        assert((a + b).drop_last() =~= a + b.drop_last());
        assert(pptx_flatten(a) + pptx_flatten(b) =~= pptx_flatten(a) + pptx_flatten(b.drop_last())
            + pptx_segment_entries(b.last()));
    }
}

proof fn lemma_pptx_flatten_single(seg: PptxSegment)
    ensures
        pptx_flatten(seq![seg]) == pptx_segment_entries(seg),
{
    assert(seq![seg].drop_last() =~= Seq::<PptxSegment>::empty());
    assert(pptx_flatten(Seq::<PptxSegment>::empty()) == Seq::<int>::empty());
    assert(seq![seg].last() == seg);
    assert(Seq::<int>::empty() + pptx_segment_entries(seg) =~= pptx_segment_entries(seg));
}

proof fn lemma_pptx_plan_invariants<N>(entries: Seq<PptxParagraphEntry<N>>, d: Seq<bool>, n: nat)
    requires
        n <= entries.len(),
        n <= d.len(),
    ensures
        pptx_flatten(pptx_plan(entries, d, n).segments) + pptx_plan(entries, d, n).pending == Seq::new(n, |i: int| i),
        pptx_lists_are_runs(entries, pptx_plan(entries, d, n).segments),
        pptx_plan(entries, d, n).pending.len() > 0 ==> is_marked_run(entries, pptx_plan(entries, d, n).pending)
            && pptx_plan(entries, d, n).pending.last() == n - 1,
    decreases n,
{
    let p = pptx_plan(entries, d, n);
    if n == 0 {
        assert(pptx_flatten(p.segments) + p.pending =~= Seq::new(0, |i: int| i));
    } else {
        let i = n - 1;
        let q = pptx_plan(entries, d, (n - 1) as nat);
        lemma_pptx_plan_invariants(entries, d, (n - 1) as nat);
        assert(Seq::new(n, |t: int| t) =~= Seq::new((n - 1) as nat, |t: int| t).push(i));
        match entries[i].list_marker {
            Some(_) => {
                if q.pending.len() > 0 && !d[i] {
                    lemma_pptx_flatten_append(q.segments, seq![PptxSegment::List(q.pending)]);
                    lemma_pptx_flatten_single(PptxSegment::List(q.pending));
                    assert(q.segments.push(PptxSegment::List(q.pending)) =~= q.segments + seq![PptxSegment::List(q.pending)]);
                    assert(pptx_flatten(p.segments) + p.pending =~= Seq::new(n, |t: int| t));
                    assert forall|k: int| 0 <= k < p.segments.len() implies match #[trigger] p.segments[k] {
                        PptxSegment::List(idxs) => idxs.len() > 0 && is_marked_run(entries, idxs),
                        PptxSegment::Paragraph(j) => 0 <= j < entries.len() && entries[j].list_marker is None,
                    } by {
                        if k < q.segments.len() {
                            assert(p.segments[k] == q.segments[k]);
                        }
                    }
                } else {
                    assert(pptx_flatten(p.segments) + p.pending =~= Seq::new(n, |t: int| t));
                    assert forall|j: int| 0 < j < p.pending.len() implies #[trigger] p.pending[j] == p.pending[j - 1] + 1 by {
                        if j < q.pending.len() {
                            assert(p.pending[j] == q.pending[j]);
                        }
                    }
                }
            },
            None => {
                let c = pptx_closing(q.pending);
                lemma_pptx_flatten_append(q.segments + c, seq![PptxSegment::Paragraph(i)]);
                lemma_pptx_flatten_append(q.segments, c);
                lemma_pptx_flatten_single(PptxSegment::Paragraph(i));
                if q.pending.len() > 0 {
                    lemma_pptx_flatten_single(PptxSegment::List(q.pending));
                } else {
                    assert(pptx_flatten(c) =~= q.pending);
                }
                assert(pptx_flatten(p.segments) + p.pending =~= Seq::new(n, |t: int| t));
                assert forall|k: int| 0 <= k < p.segments.len() implies match #[trigger] p.segments[k] {
                    PptxSegment::List(idxs) => idxs.len() > 0 && is_marked_run(entries, idxs),
                    PptxSegment::Paragraph(j) => 0 <= j < entries.len() && entries[j].list_marker is None,
                } by {
                    if k < q.segments.len() {
                        assert(p.segments[k] == q.segments[k]);
                    } else if k < q.segments.len() + c.len() {
                        assert(p.segments[k] == PptxSegment::List(q.pending));
                    } else {
                        assert(p.segments[k] == PptxSegment::Paragraph(i));
                    }
                }
            },
        }
    }
}

/// Grouping a text body keeps every kept paragraph exactly once and in
/// order, whatever the joining decisions: read in order, the pieces name
/// the entries 0, 1, 2, ...
pub proof fn lemma_pptx_grouping_keeps_order<N>(entries: Seq<PptxParagraphEntry<N>>, d: Seq<bool>)
    requires
        d.len() == entries.len(),
    ensures
        pptx_flatten(pptx_segments(entries, d)) == Seq::new(entries.len(), |i: int| i),
{
    let p = pptx_plan(entries, d, entries.len());
    lemma_pptx_plan_invariants(entries, d, entries.len());
    lemma_pptx_flatten_append(p.segments, pptx_closing(p.pending));
    if p.pending.len() > 0 {
        lemma_pptx_flatten_single(PptxSegment::List(p.pending));
    } else {
        assert(pptx_flatten(pptx_closing(p.pending)) =~= p.pending);
    }
}

/// Every list of a grouped text body is a non-empty run of adjacent marked
/// paragraphs, and every paragraph standing alone is unmarked.
pub proof fn lemma_pptx_lists_are_marked_runs<N>(entries: Seq<PptxParagraphEntry<N>>, d: Seq<bool>)
    requires
        d.len() == entries.len(),
    ensures
        pptx_lists_are_runs(entries, pptx_segments(entries, d)),
{
    let p = pptx_plan(entries, d, entries.len());
    lemma_pptx_plan_invariants(entries, d, entries.len());
    let f = pptx_segments(entries, d);
    assert forall|k: int| 0 <= k < f.len() implies match #[trigger] f[k] {
        PptxSegment::List(idxs) => idxs.len() > 0 && is_marked_run(entries, idxs),
        PptxSegment::Paragraph(j) => 0 <= j < entries.len() && entries[j].list_marker is None,
    } by {
        if k < p.segments.len() {
            assert(f[k] == p.segments[k]);
        } else {
            assert(f[k] == PptxSegment::List(p.pending));
        }
    }
}
} // verus!
