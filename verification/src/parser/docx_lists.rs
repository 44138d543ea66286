//! Grouping numbered Word paragraphs into list blocks.

use vstd::prelude::*;

use std::collections::BTreeMap;

use crate::ir::elements::{List, ListItem, ListKind, ListLevelStyle, Paragraph, Run};
use crate::ir::style::{clone_opt_string, clone_tab_stops, overlay, ParagraphStyleView};
use crate::parser::docx_numbering::{NumberingMap, ResolvedListLevel, ResolvedNumbering};

verus! {

broadcast use {vstd::std_specs::btree::group_btree_axioms, vstd::laws_cmp::group_laws_cmp};

/// Numbering info extracted from a paragraph's numPr.
#[derive(Debug, Clone, Copy, PartialEq, Eq, Structural)]
pub struct NumInfo {
    pub num_id: usize,
    pub level: u32,
}

/// A numbering property (`w:numPr`) as read from a paragraph or a style.
#[derive(Debug, Clone, Copy, PartialEq, Eq, Structural)]
pub struct NumberingProperty {
    /// The numbering id (`w:numId`), where present.
    pub id: Option<usize>,
    /// The list level (`w:ilvl`), where present.
    pub level: Option<usize>,
}

/// What a paragraph says about its numbering.
#[derive(Debug, Clone)]
pub struct ParagraphNumbering {
    /// The paragraph carries its own `w:numPr`.
    pub has_numbering: bool,
    pub numbering_property: Option<NumberingProperty>,
    /// The paragraph's style id (`w:pStyle`).
    pub style: Option<String>,
}

/// What a paragraph style says about numbering.
#[derive(Debug, Clone)]
pub struct StyleNumbering {
    pub style_id: String,
    pub numbering_property: Option<NumberingProperty>,
}

/// The numbering info of a numbering property: none without a numbering
/// id or with id 0 (which removes numbering); the level defaults to 0.
pub open spec fn property_info(property: Option<NumberingProperty>) -> Option<NumInfo> {
    match property {
        Some(NumberingProperty { id: Some(num_id), level }) => if num_id == 0 {
            None
        } else {
            Some(NumInfo {
                num_id,
                level: match level {
                    Some(l) => l as u32,
                    None => 0,
                },
            })
        },
        _ => None,
    }
}

/// The first style with the given id.
pub open spec fn find_style(styles: Seq<StyleNumbering>, id: Seq<char>) -> Option<StyleNumbering>
    decreases styles.len(),
{
    if styles.len() == 0 {
        None
    } else if styles[0].style_id@ == id {
        Some(styles[0])
    } else {
        find_style(styles.drop_first(), id)
    }
}

/// A paragraph's numbering info: its own numbering property when it has
/// one, else that of its style.
pub open spec fn spec_num_info(para: ParagraphNumbering, styles: Seq<StyleNumbering>) -> Option<NumInfo> {
    if para.has_numbering {
        property_info(para.numbering_property)
    } else {
        match para.style {
            None => None,
            Some(id) => match find_style(styles, id@) {
                None => None,
                Some(style) => property_info(style.numbering_property),
            },
        }
    }
}

fn numbering_info(property: &Option<NumberingProperty>) -> (info: Option<NumInfo>)
    ensures
        info == property_info(*property),
{
    match property {
        Some(NumberingProperty { id: Some(num_id), level }) => {
            if *num_id == 0 {
                None
            } else {
                let level: u32 = match level {
                    Some(l) => *l as u32,
                    None => 0,
                };
                Some(NumInfo { num_id: *num_id, level })
            }
        },
        _ => None,
    }
}

/// Extract numbering info from a paragraph. Falls back to the paragraph's
/// style when the paragraph carries no numbering of its own, which handles
/// built-in list styles such as "List Bullet" whose numbering is defined on
/// the style.
pub fn extract_num_info(para: &ParagraphNumbering, styles: &Vec<StyleNumbering>) -> (info: Option<NumInfo>)
    ensures
        info == spec_num_info(*para, styles@),
{
    if para.has_numbering {
        return numbering_info(&para.numbering_property);
    }
    let style_id: &String = match &para.style {
        Some(id) => id,
        None => {
            return None;
        },
    };
    let mut i: usize = 0;
    assert(styles@.skip(0) =~= styles@);
    while i < styles.len()
        invariant
            0 <= i <= styles@.len(),
            find_style(styles@, style_id@) == find_style(styles@.skip(i as int), style_id@),
            !para.has_numbering,
            para.style == Some(*style_id),
        decreases styles@.len() - i,
    {
        assert(styles@.skip(i as int).drop_first() =~= styles@.skip(i as int + 1));
        if crate::text_util::str_eq(styles[i].style_id.as_str(), style_id.as_str()) {
            assert(styles@.skip(i as int)[0] == styles@[i as int]);
            return numbering_info(&styles[i].numbering_property);
        }
        i = i + 1;
    }
    None
}

/// An element of the body with optional numbering info: plain blocks, or a
/// list paragraph with its numbering.
pub enum TaggedElement<N, B> {
    /// A regular block (non-list paragraph, table, image, page break, etc.)
    Plain(Vec<B>),
    /// A list paragraph with its numbering info and the paragraph.
    ListParagraph { info: NumInfo, paragraph: Paragraph<N> },
}

/// A block of the grouped body: a plain block, or a list.
#[derive(Debug, Clone)]
pub enum GroupedBlock<N, B> {
    Block(B),
    List(List<N>),
}

/// The counter that a numbering id advances: that of its abstract
/// numbering when it resolves, else its own.
#[derive(Debug, Clone, Copy, PartialEq, Eq, Structural)]
pub enum NumberingSeries {
    Abstract(usize),
    Numbering(usize),
}

/// The series of a numbering id.
pub open spec fn spec_series<N>(m: Map<usize, ResolvedNumbering<N>>, num_id: usize) -> NumberingSeries {
    if m.contains_key(num_id) {
        NumberingSeries::Abstract(m[num_id].abstract_num_id)
    } else {
        NumberingSeries::Numbering(num_id)
    }
}

/// The resolved level of a paragraph's numbering, where there is one.
pub open spec fn spec_level<N>(m: Map<usize, ResolvedNumbering<N>>, info: NumInfo) -> Option<ResolvedListLevel<N>> {
    if m.contains_key(info.num_id) && m[info.num_id].levels@.contains_key(info.level) {
        Some(m[info.num_id].levels@[info.level])
    } else {
        None
    }
}

/// The numbering info of a list paragraph element.
pub open spec fn info_of<N, B>(e: TaggedElement<N, B>) -> NumInfo {
    match e {
        TaggedElement::ListParagraph { info, .. } => info,
        TaggedElement::Plain(_) => NumInfo { num_id: 0, level: 0 },
    }
}

/// The shallowest resolved level among the open items (the first one among
/// equals), with its kind.
pub open spec fn spec_root<N, B>(
    m: Map<usize, ResolvedNumbering<N>>,
    elems: Seq<TaggedElement<N, B>>,
    open: Seq<int>,
) -> Option<(u32, ListKind)>
    decreases open.len(),
{
    if open.len() == 0 {
        None
    } else {
        let info = info_of(elems[open[0]]);
        let rest = spec_root(m, elems, open.drop_first());
        match spec_level(m, info) {
            None => rest,
            Some(l) => match rest {
                Some((rl, rk)) => if rl < info.level {
                    Some((rl, rk))
                } else {
                    Some((info.level, l.style.kind))
                },
                None => Some((info.level, l.style.kind)),
            },
        }
    }
}

/// A piece of the grouped output: a block of a plain element, or a list of
/// list paragraphs, each named by its position in the input.
pub ghost enum Segment {
    Block(int, int),
    List(Seq<int>),
}

/// The grouping state after a prefix of the input.
pub ghost struct GroupPlan {
    /// Per series, the last number given at each level still open.
    pub counters: Map<NumberingSeries, Map<u32, u32>>,
    /// Per series, the numbering id of its last list paragraph.
    pub last_num_id: Map<NumberingSeries, usize>,
    /// The list paragraphs of the list being built.
    pub open: Seq<int>,
    /// The output finished so far.
    pub segments: Seq<Segment>,
    /// The start number of each list paragraph.
    pub start_at: Map<int, Option<u32>>,
}

pub open spec fn initial_plan() -> GroupPlan {
    GroupPlan {
        counters: Map::empty(),
        last_num_id: Map::empty(),
        open: Seq::empty(),
        segments: Seq::empty(),
        start_at: Map::empty(),
    }
}

/// The open list's segment, if a list is open.
pub open spec fn closing_segments(open: Seq<int>) -> Seq<Segment> {
    if open.len() > 0 {
        seq![Segment::List(open)]
    } else {
        Seq::empty()
    }
}

/// `counters` with `level` set to `number` and every deeper level dropped.
pub open spec fn set_counter(counters: Map<u32, u32>, level: u32, number: u32) -> Map<u32, u32> {
    Map::new(
        |k: u32| (counters.contains_key(k) || k == level) && k <= level,
        |k: u32| if k == level { number } else { counters[k] },
    )
}

/// The counters of a series (empty if the series has none yet).
pub open spec fn series_counters_of(p: GroupPlan, series: NumberingSeries) -> Map<u32, u32> {
    if p.counters.contains_key(series) {
        p.counters[series]
    } else {
        Map::empty()
    }
}

/// A paragraph changes the series of the open list.
pub open spec fn spec_changes_series<N, B>(
    m: Map<usize, ResolvedNumbering<N>>,
    elems: Seq<TaggedElement<N, B>>,
    p: GroupPlan,
    info: NumInfo,
) -> bool {
    p.open.len() > 0 && spec_series(m, info_of(elems[p.open.last()]).num_id) != spec_series(
        m,
        info.num_id,
    )
}

/// A paragraph starts a new list: it changes series, is at or above the
/// open list's root level, and its kind differs from the root's.
pub open spec fn spec_starts_new<N, B>(
    m: Map<usize, ResolvedNumbering<N>>,
    elems: Seq<TaggedElement<N, B>>,
    p: GroupPlan,
    info: NumInfo,
) -> bool {
    let root = spec_root(m, elems, p.open);
    let rl = spec_level(m, info);
    spec_changes_series(m, elems, p, info) && root is Some && info.level <= root.unwrap().0
        && rl is Some && rl.unwrap().style.kind != root.unwrap().1
}

/// A paragraph restarts numbering explicitly: its level overrides the start
/// and its numbering id differs from the series' previous one.
pub open spec fn spec_explicit_restart<N>(
    m: Map<usize, ResolvedNumbering<N>>,
    p: GroupPlan,
    info: NumInfo,
) -> bool {
    let series = spec_series(m, info.num_id);
    let rl = spec_level(m, info);
    rl is Some && rl.unwrap().has_start_override && p.last_num_id.contains_key(series)
        && p.last_num_id[series] != info.num_id
}

/// Numbering restarts at the level's start: explicitly, or because the
/// level has no counter in its series yet.
pub open spec fn spec_restart<N>(m: Map<usize, ResolvedNumbering<N>>, p: GroupPlan, info: NumInfo) -> bool {
    spec_explicit_restart(m, p, info) || !series_counters_of(p, spec_series(m, info.num_id)).contains_key(
        info.level,
    )
}

/// The number of an ordered paragraph: the level's start on a restart,
/// else one more than the level's counter (saturating).
pub open spec fn spec_number<N>(m: Map<usize, ResolvedNumbering<N>>, p: GroupPlan, info: NumInfo) -> u32 {
    let c = series_counters_of(p, spec_series(m, info.num_id));
    if spec_restart(m, p, info) {
        spec_level(m, info).unwrap().start
    } else if c[info.level] == u32::MAX {
        u32::MAX
    } else {
        (c[info.level] + 1) as u32
    }
}

/// The paragraph's level is ordered.
pub open spec fn spec_is_ordered<N>(m: Map<usize, ResolvedNumbering<N>>, info: NumInfo) -> bool {
    spec_level(m, info) is Some && spec_level(m, info).unwrap().style.kind == ListKind::Ordered
}

/// The grouping state after element `i`.
pub open spec fn plan_step<N, B>(
    m: Map<usize, ResolvedNumbering<N>>,
    elems: Seq<TaggedElement<N, B>>,
    p: GroupPlan,
    i: int,
) -> GroupPlan {
    match elems[i] {
        TaggedElement::Plain(blocks) => GroupPlan {
            counters: p.counters,
            last_num_id: p.last_num_id,
            open: Seq::empty(),
            segments: p.segments + closing_segments(p.open) + Seq::new(
                blocks@.len(),
                |t: int| Segment::Block(i, t),
            ),
            start_at: p.start_at,
        },
        TaggedElement::ListParagraph { info, .. } => {
            let series = spec_series(m, info.num_id);
            let starts_new = spec_starts_new(m, elems, p, info);
            let open = if starts_new {
                Seq::empty()
            } else {
                p.open
            };
            let number = spec_number(m, p, info);
            let start = if spec_is_ordered(m, info) && (spec_restart(m, p, info) || open.len() == 0
                || spec_changes_series(m, elems, p, info)) {
                Some(number)
            } else {
                None
            };
            GroupPlan {
                counters: if spec_is_ordered(m, info) {
                    p.counters.insert(
                        series,
                        set_counter(series_counters_of(p, series), info.level, number),
                    )
                } else {
                    p.counters
                },
                last_num_id: p.last_num_id.insert(series, info.num_id),
                open: open.push(i),
                segments: if starts_new {
                    p.segments.push(Segment::List(p.open))
                } else {
                    p.segments
                },
                start_at: p.start_at.insert(i, start),
            }
        },
    }
}

/// The grouping state after the first `n` elements.
pub open spec fn plan_after<N, B>(
    m: Map<usize, ResolvedNumbering<N>>,
    elems: Seq<TaggedElement<N, B>>,
    n: nat,
) -> GroupPlan
    decreases n,
{
    if n == 0 {
        initial_plan()
    } else {
        plan_step(m, elems, plan_after(m, elems, (n - 1) as nat), n - 1)
    }
}

/// A paragraph's style after the numbering level's indentation: indents and
/// tab stops it does not set come from the level.
pub open spec fn indented<N>(style: ParagraphStyleView<N>, level: Option<ResolvedListLevel<N>>) -> ParagraphStyleView<N> {
    match level {
        None => style,
        Some(l) => {
            let ls = l.paragraph_style@;
            ParagraphStyleView {
                indent_left: overlay(ls.indent_left, style.indent_left),
                indent_right: overlay(ls.indent_right, style.indent_right),
                indent_first_line: overlay(ls.indent_first_line, style.indent_first_line),
                tab_stops: overlay(ls.tab_stops, style.tab_stops),
                ..style
            }
        },
    }
}

/// The level styles of a list of paragraphs: at each level, that of the
/// first paragraph whose level resolves.
pub open spec fn spec_level_styles<N, B>(
    m: Map<usize, ResolvedNumbering<N>>,
    elems: Seq<TaggedElement<N, B>>,
    idxs: Seq<int>,
) -> Map<u32, ListLevelStyle<N>>
    decreases idxs.len(),
{
    if idxs.len() == 0 {
        Map::empty()
    } else {
        let prev = spec_level_styles(m, elems, idxs.drop_last());
        let info = info_of(elems[idxs.last()]);
        match spec_level(m, info) {
            Some(l) => if prev.contains_key(info.level) {
                prev
            } else {
                prev.insert(info.level, l.style)
            },
            None => prev,
        }
    }
}

/// A list's kind: that of level 0, else of its shallowest level, else
/// unordered.
pub open spec fn spec_list_kind<N>(styles: Map<u32, ListLevelStyle<N>>) -> ListKind {
    if styles.contains_key(0) {
        styles[0].kind
    } else if exists|k: u32| styles.contains_key(k) {
        let k = choose|k: u32| styles.contains_key(k) && forall|j: u32| styles.contains_key(j) ==> k <= j;
        styles[k].kind
    } else {
        ListKind::Unordered
    }
}

/// A list item is list paragraph `i`, with its level, its start number and
/// its paragraph indented by its numbering level.
pub open spec fn item_matches<N, B>(
    m: Map<usize, ResolvedNumbering<N>>,
    elems: Seq<TaggedElement<N, B>>,
    start_at: Map<int, Option<u32>>,
    item: ListItem<N>,
    i: int,
) -> bool {
    match elems[i] {
        TaggedElement::ListParagraph { info, paragraph } => {
            &&& item.level == info.level
            &&& item.start_at == start_at[i]
            &&& item.content@.len() == 1
            &&& item.content@[0].runs == paragraph.runs
            &&& item.content@[0].style@ == indented(paragraph.style@, spec_level(m, info))
        },
        TaggedElement::Plain(_) => false,
    }
}

/// An output block is the given segment.
pub open spec fn block_matches<N, B>(
    m: Map<usize, ResolvedNumbering<N>>,
    elems: Seq<TaggedElement<N, B>>,
    start_at: Map<int, Option<u32>>,
    out: GroupedBlock<N, B>,
    seg: Segment,
) -> bool {
    match seg {
        Segment::Block(i, t) => match (out, elems[i]) {
            (GroupedBlock::Block(b), TaggedElement::Plain(blocks)) => 0 <= t < blocks@.len() && b == blocks@[t],
            _ => false,
        },
        Segment::List(idxs) => match out {
            GroupedBlock::List(list) => {
                &&& list.items@.len() == idxs.len()
                &&& forall|j: int| 0 <= j < idxs.len() ==> item_matches(m, elems, start_at, #[trigger] list.items@[j], idxs[j])
                &&& list.level_styles@ == spec_level_styles(m, elems, idxs)
                &&& list.kind == spec_list_kind(spec_level_styles(m, elems, idxs))
            },
            GroupedBlock::Block(_) => false,
        },
    }
}

/// The output of grouping: the finished segments and the list still open.
pub open spec fn final_segments<N, B>(
    m: Map<usize, ResolvedNumbering<N>>,
    elems: Seq<TaggedElement<N, B>>,
) -> Seq<Segment> {
    let p = plan_after(m, elems, elems.len());
    p.segments + closing_segments(p.open)
}

// ── Counters ────────────────────────────────────────────────────────

/// The map an association list stands for: a later pair replaces an
/// earlier one with the same key.
pub open spec fn assoc_map<K, V>(pairs: Seq<(K, V)>) -> Map<K, V>
    decreases pairs.len(),
{
    if pairs.len() == 0 {
        Map::empty()
    } else {
        assoc_map(pairs.drop_last()).insert(pairs.last().0, pairs.last().1)
    }
}

/// The number recorded for a level, if any.
fn level_counter(pairs: &Vec<(u32, u32)>, level: u32) -> (r: Option<u32>)
    ensures
        match r {
            Some(v) => assoc_map(pairs@).contains_key(level) && assoc_map(pairs@)[level] == v,
            None => !assoc_map(pairs@).contains_key(level),
        },
{
    let mut i: usize = pairs.len();
    assert(pairs@.take(i as int) =~= pairs@);
    while i > 0
        invariant
            0 <= i <= pairs@.len(),
            assoc_map(pairs@).contains_key(level) == assoc_map(pairs@.take(i as int)).contains_key(level),
            assoc_map(pairs@).contains_key(level) ==> assoc_map(pairs@)[level] == assoc_map(pairs@.take(i as int))[level],
        decreases i,
    {
        assert(pairs@.take(i as int).drop_last() =~= pairs@.take(i - 1));
        if pairs[i - 1].0 == level {
            return Some(pairs[i - 1].1);
        }
        i = i - 1;
    }
    None
}

proof fn lemma_assoc_map_push<K, V>(pairs: Seq<(K, V)>, pair: (K, V))
    ensures
        assoc_map(pairs.push(pair)) == assoc_map(pairs).insert(pair.0, pair.1),
{
    assert(pairs.push(pair).drop_last() =~= pairs);
}

/// The counters of one series with `level` set to `number` and deeper
/// levels dropped.
fn set_level_counter(pairs: &Vec<(u32, u32)>, level: u32, number: u32) -> (r: Vec<(u32, u32)>)
    ensures
        assoc_map(r@) == set_counter(assoc_map(pairs@), level, number),
{
    let mut kept: Vec<(u32, u32)> = Vec::new();
    let mut i: usize = 0;
    while i < pairs.len()
        invariant
            0 <= i <= pairs@.len(),
            assoc_map(kept@) =~= Map::new(
                |k: u32| assoc_map(pairs@.take(i as int)).contains_key(k) && k < level,
                |k: u32| assoc_map(pairs@.take(i as int))[k],
            ),
        decreases pairs@.len() - i,
    {
        let (k, v) = pairs[i];
        assert(pairs@.take(i + 1).drop_last() =~= pairs@.take(i as int));
        if k < level {
            proof {
                lemma_assoc_map_push(kept@, (k, v));
            }
            kept.push((k, v));
        }
        i = i + 1;
    }
    assert(pairs@.take(pairs@.len() as int) =~= pairs@);
    proof {
        lemma_assoc_map_push(kept@, (level, number));
    }
    kept.push((level, number));
    assert(assoc_map(kept@) =~= set_counter(assoc_map(pairs@), level, number));
    kept
}

/// The position of the last entry for a series, if any.
fn series_entry<V>(table: &Vec<(NumberingSeries, V)>, series: NumberingSeries) -> (r: Option<usize>)
    ensures
        match r {
            Some(i) => i < table@.len() && assoc_map(table@).contains_key(series) && assoc_map(table@)[series] == table@[i as int].1,
            None => !assoc_map(table@).contains_key(series),
        },
{
    let mut i: usize = table.len();
    assert(table@.take(i as int) =~= table@);
    while i > 0
        invariant
            0 <= i <= table@.len(),
            assoc_map(table@).contains_key(series) == assoc_map(table@.take(i as int)).contains_key(series),
            assoc_map(table@).contains_key(series) ==> assoc_map(table@)[series] == assoc_map(table@.take(i as int))[series],
        decreases i,
    {
        assert(table@.take(i as int).drop_last() =~= table@.take(i - 1));
        if table[i - 1].0 == series {
            return Some(i - 1);
        }
        i = i - 1;
    }
    None
}

// ── Lookups ─────────────────────────────────────────────────────────

/// The series of a numbering id.
fn numbering_series<N>(num_id: usize, numberings: &NumberingMap<N>) -> (s: NumberingSeries)
    ensures
        s == spec_series(numberings@, num_id),
{
    match numberings.get(&num_id) {
        Some(numbering) => NumberingSeries::Abstract(numbering.abstract_num_id),
        None => NumberingSeries::Numbering(num_id),
    }
}

/// The resolved level of a paragraph's numbering.
fn resolved_level<'a, N>(info: NumInfo, numberings: &'a NumberingMap<N>) -> (r: Option<&'a ResolvedListLevel<N>>)
    ensures
        match r {
            Some(l) => spec_level(numberings@, info) == Some(*l),
            None => spec_level(numberings@, info) is None,
        },
{
    match numberings.get(&info.num_id) {
        Some(numbering) => numbering.levels.get(&info.level),
        None => None,
    }
}

/// A copy of a list level style.
fn copy_level_style<N: Copy>(style: &ListLevelStyle<N>) -> (c: ListLevelStyle<N>)
    ensures
        c == *style,
{
    ListLevelStyle {
        kind: style.kind,
        numbering_pattern: clone_opt_string(&style.numbering_pattern),
        full_numbering: style.full_numbering,
        marker_text: clone_opt_string(&style.marker_text),
        marker_style: match &style.marker_style {
            Some(s) => Some(s.copy()),
            None => None,
        },
    }
}

/// Indents and tab stops that a paragraph does not set come from its
/// numbering level.
fn apply_numbering_level_indentation<N: Copy>(
    paragraph: &mut Paragraph<N>,
    level: Option<&ResolvedListLevel<N>>,
)
    ensures
        final(paragraph).runs == old(paragraph).runs,
        final(paragraph).style@ == indented(
            old(paragraph).style@,
            match level {
                Some(l) => Some(*l),
                None => None,
            },
        ),
{
    let level_style = match level {
        Some(l) => &l.paragraph_style,
        None => {
            return;
        },
    };
    if paragraph.style.indent_left.is_none() {
        paragraph.style.indent_left = level_style.indent_left;
    }
    if paragraph.style.indent_right.is_none() {
        paragraph.style.indent_right = level_style.indent_right;
    }
    if paragraph.style.indent_first_line.is_none() {
        paragraph.style.indent_first_line = level_style.indent_first_line;
    }
    if paragraph.style.tab_stops.is_none() {
        paragraph.style.tab_stops = match &level_style.tab_stops {
            Some(stops) => Some(clone_tab_stops(stops)),
            None => None,
        };
    }
}

// ── Grouping ────────────────────────────────────────────────────────

/// The elements of a vector in reverse order, moved.
pub fn reversed<T>(v: Vec<T>) -> (r: Vec<T>)
    ensures
        r@ == v@.reverse(),
{
    let ghost orig = v@;
    let mut v = v;
    let mut r: Vec<T> = Vec::new();
    while v.len() > 0
        invariant
            v@ == orig.take(v@.len() as int),
            r@ =~= orig.skip(v@.len() as int).reverse(),
            v@.len() <= orig.len(),
        decreases v@.len(),
    {
        let ghost before = v@.len();
        let x = v.pop().unwrap();
        r.push(x);
        assert(v@ =~= orig.take(v@.len() as int));
        assert(orig.skip(v@.len() as int).reverse() =~= orig.skip(before as int).reverse().push(x));
    }
    assert(orig.skip(0) =~= orig);
    r
}

/// A list item with the numbering id and series of its paragraph.
struct NumberedItem<N> {
    num_id: usize,
    series: NumberingSeries,
    item: ListItem<N>,
}

/// A numbered item is list paragraph `i`.
spec fn numbered_matches<N, B>(
    m: Map<usize, ResolvedNumbering<N>>,
    elems: Seq<TaggedElement<N, B>>,
    start_at: Map<int, Option<u32>>,
    x: NumberedItem<N>,
    i: int,
) -> bool {
    &&& elems[i] is ListParagraph
    &&& x.num_id == info_of(elems[i]).num_id
    &&& x.series == spec_series(m, x.num_id)
    &&& item_matches(m, elems, start_at, x.item, i)
}

/// The shallowest resolved level of the open list, computed from its items.
fn current_root<N, B>(
    current: &Vec<NumberedItem<N>>,
    numberings: &NumberingMap<N>,
    Ghost(elems): Ghost<Seq<TaggedElement<N, B>>>,
    Ghost(open): Ghost<Seq<int>>,
    Ghost(start_at): Ghost<Map<int, Option<u32>>>,
) -> (root: Option<(u32, ListKind)>)
    requires
        current@.len() == open.len(),
        forall|j: int| 0 <= j < open.len() ==> numbered_matches(numberings@, elems, start_at, #[trigger] current@[j], open[j]),
    ensures
        root == spec_root(numberings@, elems, open),
{
    let mut best: Option<(u32, ListKind)> = None;
    let mut j: usize = current.len();
    assert(open.subrange(j as int, open.len() as int) =~= Seq::<int>::empty());
    while j > 0
        invariant
            0 <= j <= current@.len(),
            current@.len() == open.len(),
            forall|t: int| 0 <= t < open.len() ==> numbered_matches(numberings@, elems, start_at, #[trigger] current@[t], open[t]),
            best == spec_root(numberings@, elems, open.subrange(j as int, open.len() as int)),
        decreases j,
    {
        let x = &current[j - 1];
        assert(numbered_matches(numberings@, elems, start_at, current@[j - 1], open[j - 1]));
        let info = NumInfo { num_id: x.num_id, level: x.item.level };
        assert(info == info_of(elems[open[j - 1]]));
        assert(open.subrange(j - 1, open.len() as int).drop_first() =~= open.subrange(j as int, open.len() as int));
        match resolved_level(info, numberings) {
            None => {},
            Some(l) => {
                best = match best {
                    Some((rl, rk)) => if rl < info.level {
                        Some((rl, rk))
                    } else {
                        Some((info.level, l.style.kind))
                    },
                    None => Some((info.level, l.style.kind)),
                };
            },
        }
        j = j - 1;
    }
    assert(open.subrange(0, open.len() as int) =~= open);
    best
}

/// The list items of numbered items, in order.
fn into_items<N>(numbered: Vec<NumberedItem<N>>) -> (items: Vec<ListItem<N>>)
    ensures
        items@.len() == numbered@.len(),
        forall|j: int| 0 <= j < items@.len() ==> #[trigger] items@[j] == numbered@[j].item,
{
    let ghost orig = numbered@;
    let mut stack = reversed(numbered);
    let mut items: Vec<ListItem<N>> = Vec::new();
    while stack.len() > 0
        invariant
            items@.len() + stack@.len() == orig.len(),
            forall|j: int| 0 <= j < items@.len() ==> #[trigger] items@[j] == orig[j].item,
            forall|j: int| 0 <= j < stack@.len() ==> #[trigger] stack@[j] == orig[orig.len() - 1 - j],
        decreases stack@.len(),
    {
        let x = stack.pop().unwrap();
        items.push(x.item);
    }
    items
}

/// The style of each level of the open items: the first item whose level
/// resolves sets it. Also the levels present.
fn collect_level_styles<N: Copy, B>(
    numbered: &Vec<NumberedItem<N>>,
    numberings: &NumberingMap<N>,
    Ghost(elems): Ghost<Seq<TaggedElement<N, B>>>,
    Ghost(idxs): Ghost<Seq<int>>,
    Ghost(start_at): Ghost<Map<int, Option<u32>>>,
) -> (r: (BTreeMap<u32, ListLevelStyle<N>>, Vec<u32>))
    requires
        numbered@.len() == idxs.len(),
        forall|j: int| 0 <= j < idxs.len() ==> numbered_matches(numberings@, elems, start_at, #[trigger] numbered@[j], idxs[j]),
    ensures
        r.0@ == spec_level_styles(numberings@, elems, idxs),
        forall|k: u32| r.0@.contains_key(k) <==> r.1@.contains(k),
{
    let mut level_styles: BTreeMap<u32, ListLevelStyle<N>> = BTreeMap::new();
    let mut keys: Vec<u32> = Vec::new();
    let mut j: usize = 0;
    assert(idxs.take(0) =~= Seq::<int>::empty());
    while j < numbered.len()
        invariant
            0 <= j <= numbered@.len(),
            numbered@.len() == idxs.len(),
            forall|t: int| 0 <= t < idxs.len() ==> numbered_matches(numberings@, elems, start_at, #[trigger] numbered@[t], idxs[t]),
            level_styles@ == spec_level_styles(numberings@, elems, idxs.take(j as int)),
            forall|k: u32| level_styles@.contains_key(k) <==> keys@.contains(k),
        decreases numbered@.len() - j,
    {
        let x = &numbered[j];
        assert(numbered_matches(numberings@, elems, start_at, numbered@[j as int], idxs[j as int]));
        let info = NumInfo { num_id: x.num_id, level: x.item.level };
        assert(idxs.take(j + 1).drop_last() =~= idxs.take(j as int));
        assert(idxs.take(j + 1).last() == idxs[j as int]);
        match resolved_level(info, numberings) {
            Some(l) => {
                if !level_styles.contains_key(&info.level) {
                    let ghost old_keys = keys@;
                    keys.push(info.level);
                    level_styles.insert(info.level, copy_level_style(&l.style));
                    assert forall|k: u32| level_styles@.contains_key(k) <==> keys@.contains(k) by {
                        if keys@.contains(k) && k != info.level {
                            let t = choose|t: int| 0 <= t < keys@.len() && keys@[t] == k;
                            assert(old_keys[t] == k);
                        }
                        if old_keys.contains(k) {
                            let t = choose|t: int| 0 <= t < old_keys.len() && old_keys[t] == k;
                            assert(keys@[t] == k);
                        }
                        if k == info.level {
                            assert(keys@[keys@.len() - 1] == k);
                        }
                    }
                }
            },
            None => {},
        }
        j = j + 1;
    }
    assert(idxs.take(idxs.len() as int) =~= idxs);
    (level_styles, keys)
}

/// The kind of a list with the given level styles.
fn list_kind_of<N>(level_styles: &BTreeMap<u32, ListLevelStyle<N>>, keys: &Vec<u32>) -> (kind: ListKind)
    requires
        forall|k: u32| level_styles@.contains_key(k) <==> keys@.contains(k),
    ensures
        kind == spec_list_kind(level_styles@),
{
    match level_styles.get(&0) {
        Some(style) => style.kind,
        None => {
            if keys.len() == 0 {
                assert forall|k: u32| !level_styles@.contains_key(k) by {
                    assert(!keys@.contains(k));
                }
                ListKind::Unordered
            } else {
                let mut min: u32 = keys[0];
                let mut t: usize = 1;
                while t < keys.len()
                    invariant
                        1 <= t <= keys@.len(),
                        keys@.contains(min),
                        forall|u: int| 0 <= u < t ==> min <= #[trigger] keys@[u],
                    decreases keys@.len() - t,
                {
                    if keys[t] < min {
                        min = keys[t];
                    }
                    t = t + 1;
                }
                let style = level_styles.get(&min).unwrap();
                let ghost styles = level_styles@;
                assert forall|k2: u32| styles.contains_key(k2) implies min <= k2 by {
                    assert(keys@.contains(k2));
                    let u = choose|u: int| 0 <= u < keys@.len() && keys@[u] == k2;
                    assert(min <= keys@[u]);
                }
                assert(styles.contains_key(min));
                let ghost chosen = choose|k: u32| styles.contains_key(k) && forall|k2: u32| styles.contains_key(k2) ==> k <= k2;
                assert(styles.contains_key(chosen) && forall|k2: u32| styles.contains_key(k2) ==> chosen <= k2);
                assert(chosen <= min && min <= chosen);
                style.kind
            }
        },
    }
}

/// Build the list of the open items: its items, the style of each level
/// (the first item whose level resolves sets it) and its kind.
fn finalize_list<N: Copy, B>(
    numbered: Vec<NumberedItem<N>>,
    numberings: &NumberingMap<N>,
    Ghost(elems): Ghost<Seq<TaggedElement<N, B>>>,
    Ghost(idxs): Ghost<Seq<int>>,
    Ghost(start_at): Ghost<Map<int, Option<u32>>>,
) -> (list: List<N>)
    requires
        numbered@.len() == idxs.len(),
        forall|j: int| 0 <= j < idxs.len() ==> numbered_matches(numberings@, elems, start_at, #[trigger] numbered@[j], idxs[j]),
    ensures
        list.items@.len() == idxs.len(),
        forall|j: int| 0 <= j < idxs.len() ==> item_matches(numberings@, elems, start_at, #[trigger] list.items@[j], idxs[j]),
        list.level_styles@ == spec_level_styles(numberings@, elems, idxs),
        list.kind == spec_list_kind(spec_level_styles(numberings@, elems, idxs)),
{
    let (level_styles, keys) = collect_level_styles::<N, B>(&numbered, numberings, Ghost(elems), Ghost(idxs), Ghost(start_at));
    let kind = list_kind_of(&level_styles, &keys);
    let ghost before = numbered@;
    let items = into_items(numbered);
    assert forall|j: int| 0 <= j < idxs.len() implies item_matches(numberings@, elems, start_at, #[trigger] items@[j], idxs[j]) by {
        assert(numbered_matches(numberings@, elems, start_at, before[j], idxs[j]));
    }
    List { kind, items, level_styles }
}

/// Every element a segment names comes before position `n`.
pub open spec fn segment_below(seg: Segment, n: int) -> bool {
    match seg {
        Segment::Block(i, t) => 0 <= i < n,
        Segment::List(idxs) => forall|j: int| 0 <= j < idxs.len() ==> 0 <= #[trigger] idxs[j] < n,
    }
}

/// The counters a table of per-series association lists stands for.
pub open spec fn counters_view(table: Seq<(NumberingSeries, Vec<(u32, u32)>)>) -> Map<NumberingSeries, Map<u32, u32>> {
    assoc_map(table).map_values(|v: Vec<(u32, u32)>| assoc_map(v@))
}

/// The state of the grouping loop.
struct GroupState<N, B> {
    result: Vec<GroupedBlock<N, B>>,
    current: Vec<NumberedItem<N>>,
    counters: Vec<(NumberingSeries, Vec<(u32, u32)>)>,
    last_ids: Vec<(NumberingSeries, usize)>,
}

/// The loop state is the plan `p` of the first `n` elements.
spec fn state_ok<N, B>(
    st: GroupState<N, B>,
    m: Map<usize, ResolvedNumbering<N>>,
    elems: Seq<TaggedElement<N, B>>,
    p: GroupPlan,
    n: int,
) -> bool {
    &&& 0 <= n <= elems.len()
    &&& st.result@.len() == p.segments.len()
    &&& forall|k: int| 0 <= k < p.segments.len() ==> block_matches(m, elems, p.start_at, #[trigger] st.result@[k], p.segments[k])
    &&& forall|k: int| 0 <= k < p.segments.len() ==> segment_below(#[trigger] p.segments[k], n)
    &&& st.current@.len() == p.open.len()
    &&& forall|j: int| 0 <= j < p.open.len() ==> numbered_matches(m, elems, p.start_at, #[trigger] st.current@[j], p.open[j])
    &&& forall|j: int| 0 <= j < p.open.len() ==> 0 <= #[trigger] p.open[j] < n
    &&& counters_view(st.counters@) == p.counters
    &&& assoc_map(st.last_ids@) == p.last_num_id
}

proof fn lemma_item_extend<N, B>(
    m: Map<usize, ResolvedNumbering<N>>,
    elems: Seq<TaggedElement<N, B>>,
    sa: Map<int, Option<u32>>,
    n: int,
    v: Option<u32>,
    item: ListItem<N>,
    i: int,
)
    requires
        i < n,
        item_matches(m, elems, sa, item, i),
    ensures
        item_matches(m, elems, sa.insert(n, v), item, i),
{
}

proof fn lemma_block_extend<N, B>(
    m: Map<usize, ResolvedNumbering<N>>,
    elems: Seq<TaggedElement<N, B>>,
    sa: Map<int, Option<u32>>,
    n: int,
    v: Option<u32>,
    out: GroupedBlock<N, B>,
    seg: Segment,
)
    requires
        segment_below(seg, n),
        block_matches(m, elems, sa, out, seg),
    ensures
        block_matches(m, elems, sa.insert(n, v), out, seg),
{
    match seg {
        Segment::Block(i, t) => {},
        Segment::List(idxs) => match out {
            GroupedBlock::List(list) => {
                assert forall|j: int| 0 <= j < idxs.len() implies item_matches(m, elems, sa.insert(n, v), #[trigger] list.items@[j], idxs[j]) by {
                    lemma_item_extend(m, elems, sa, n, v, list.items@[j], idxs[j]);
                }
            },
            GroupedBlock::Block(_) => {},
        },
    }
}

/// Close the open list, if any, appending it to the output.
fn close_list<N: Copy, B>(
    st: &mut GroupState<N, B>,
    numberings: &NumberingMap<N>,
    Ghost(elems): Ghost<Seq<TaggedElement<N, B>>>,
    Ghost(p): Ghost<GroupPlan>,
    Ghost(n): Ghost<int>,
)
    requires
        state_ok(*old(st), numberings@, elems, p, n),
    ensures
        state_ok(
            *final(st),
            numberings@,
            elems,
            GroupPlan { open: Seq::empty(), segments: p.segments + closing_segments(p.open), ..p },
            n,
        ),
{
    if st.current.len() > 0 {
        let mut current: Vec<NumberedItem<N>> = Vec::new();
        std::mem::swap(&mut current, &mut st.current);
        let list = finalize_list::<N, B>(current, numberings, Ghost(elems), Ghost(p.open), Ghost(p.start_at));
        st.result.push(GroupedBlock::List(list));
        let ghost segs = p.segments + closing_segments(p.open);
        assert(segs =~= p.segments.push(Segment::List(p.open)));
        assert forall|k: int| 0 <= k < segs.len() implies block_matches(numberings@, elems, p.start_at, #[trigger] st.result@[k], segs[k]) by {
            if k < p.segments.len() {
                assert(block_matches(numberings@, elems, p.start_at, old(st).result@[k], p.segments[k]));
            }
        }
        assert forall|k: int| 0 <= k < segs.len() implies segment_below(#[trigger] segs[k], n) by {
            if k < p.segments.len() {
                assert(segment_below(p.segments[k], n));
            }
        }
    } else {
        assert(p.segments + closing_segments(p.open) =~= p.segments);
    }
}

proof fn lemma_below_grows(seg: Segment, n: int)
    requires
        segment_below(seg, n),
    ensures
        segment_below(seg, n + 1),
{
}

/// Append blocks to the output, each as a plain block, in order.
fn push_blocks<N, B>(result: &mut Vec<GroupedBlock<N, B>>, blocks: Vec<B>)
    ensures
        final(result)@.len() == old(result)@.len() + blocks@.len(),
        forall|k: int| 0 <= k < old(result)@.len() ==> #[trigger] final(result)@[k] == old(result)@[k],
        forall|t: int| 0 <= t < blocks@.len() ==> #[trigger] final(result)@[old(result)@.len() + t] == GroupedBlock::<N, B>::Block(blocks@[t]),
{
    let ghost base = result@;
    let ghost orig = blocks@;
    assert(orig.len() == blocks.len());
    let mut stack = reversed(blocks);
    let mut t: usize = 0;
    while stack.len() > 0
        invariant
            result@.len() == base.len() + t,
            forall|k: int| 0 <= k < base.len() ==> #[trigger] result@[k] == base[k],
            forall|k: int| 0 <= k < t ==> #[trigger] result@[base.len() + k] == GroupedBlock::<N, B>::Block(orig[k]),
            t + stack@.len() == orig.len(),
            orig.len() <= usize::MAX,
            forall|j: int| 0 <= j < stack@.len() ==> #[trigger] stack@[j] == orig[orig.len() - 1 - j],
        decreases stack@.len(),
    {
        let b = stack.pop().unwrap();
        result.push(GroupedBlock::Block(b));
        t = t + 1;
    }
}

/// A plain element: close the open list and append its blocks.
#[verifier::rlimit(40)]
fn step_plain<N: Copy, B>(
    st: &mut GroupState<N, B>,
    blocks: Vec<B>,
    numberings: &NumberingMap<N>,
    Ghost(elems): Ghost<Seq<TaggedElement<N, B>>>,
    Ghost(p): Ghost<GroupPlan>,
    Ghost(n): Ghost<int>,
)
    requires
        0 <= n < elems.len(),
        state_ok(*old(st), numberings@, elems, p, n),
        elems[n] == TaggedElement::<N, B>::Plain(blocks),
    ensures
        state_ok(*final(st), numberings@, elems, plan_step(numberings@, elems, p, n), n + 1),
{
    close_list(st, numberings, Ghost(elems), Ghost(p), Ghost(n));
    let ghost p1 = GroupPlan { open: Seq::empty(), segments: p.segments + closing_segments(p.open), ..p };
    let ghost base = st.result@;
    let ghost orig = blocks@;
    push_blocks(&mut st.result, blocks);
    let ghost p2 = plan_step(numberings@, elems, p, n);
    assert(p2.segments =~= p1.segments + Seq::new(orig.len(), |t: int| Segment::Block(n, t)));
    assert(p2.start_at == p1.start_at);
    assert forall|k: int| 0 <= k < p2.segments.len() implies block_matches(numberings@, elems, p2.start_at, #[trigger] st.result@[k], p2.segments[k]) by {
        if k < base.len() {
            assert(block_matches(numberings@, elems, p1.start_at, base[k], p1.segments[k]));
        } else {
            let t = k - base.len();
            assert(st.result@[base.len() + t] == GroupedBlock::<N, B>::Block(orig[t]));
        }
    }
    assert forall|k: int| 0 <= k < p2.segments.len() implies segment_below(#[trigger] p2.segments[k], n + 1) by {
        if k < p1.segments.len() {
            lemma_below_grows(p1.segments[k], n);
        }
    }
}

/// The numbering id recorded last for a series.
fn last_num_id_of(table: &Vec<(NumberingSeries, usize)>, series: NumberingSeries) -> (r: Option<usize>)
    ensures
        match r {
            Some(v) => assoc_map(table@).contains_key(series) && assoc_map(table@)[series] == v,
            None => !assoc_map(table@).contains_key(series),
        },
{
    match series_entry(table, series) {
        Some(i) => Some(table[i].1),
        None => None,
    }
}

/// Advance the counters of an ordered paragraph's series: returns whether
/// numbering restarts and the paragraph's number.
fn advance_counter<N>(
    counters: &mut Vec<(NumberingSeries, Vec<(u32, u32)>)>,
    series: NumberingSeries,
    info: NumInfo,
    start: u32,
    explicit_restart: bool,
    Ghost(m): Ghost<Map<usize, ResolvedNumbering<N>>>,
    Ghost(p): Ghost<GroupPlan>,
)
    -> (r: (bool, u32))
    requires
        counters_view(old(counters)@) == p.counters,
        series == spec_series(m, info.num_id),
        spec_level(m, info) is Some,
        start == spec_level(m, info).unwrap().start,
        explicit_restart == spec_explicit_restart(m, p, info),
    ensures
        r.0 == spec_restart(m, p, info),
        r.1 == spec_number(m, p, info),
        counters_view(final(counters)@) == p.counters.insert(
            series,
            set_counter(series_counters_of(p, series), info.level, r.1),
        ),
{
    let empty: Vec<(u32, u32)> = Vec::new();
    let entry = series_entry(counters, series);
    let ghost sc = series_counters_of(p, series);
    let level_pairs: &Vec<(u32, u32)> = match entry {
        Some(i) => &counters[i].1,
        None => &empty,
    };
    proof {
        assert(assoc_map(level_pairs@) == sc);
    }
    let current = level_counter(level_pairs, info.level);
    let restart = explicit_restart || current.is_none();
    let number: u32 = if restart {
        start
    } else {
        let c = current.unwrap();
        if c == u32::MAX {
            u32::MAX
        } else {
            c + 1
        }
    };
    let updated = set_level_counter(level_pairs, info.level, number);
    proof {
        lemma_assoc_map_push(counters@, (series, updated));
    }
    let ghost before = counters@;
    counters.push((series, updated));
    assert(counters_view(counters@) =~= counters_view(before).insert(series, assoc_map(updated@)));
    (restart, number)
}

/// The new state of a list paragraph's step is the plan of one more element.
proof fn lemma_list_step<N, B>(
    old_st: GroupState<N, B>,
    st: GroupState<N, B>,
    m: Map<usize, ResolvedNumbering<N>>,
    elems: Seq<TaggedElement<N, B>>,
    p: GroupPlan,
    p1: GroupPlan,
    n: int,
)
    requires
        0 <= n < elems.len(),
        elems[n] is ListParagraph,
        state_ok(old_st, m, elems, p1, n),
        p1.start_at == p.start_at,
        p1.counters == p.counters,
        p1.last_num_id == p.last_num_id,
        plan_step(m, elems, p, n).segments == p1.segments,
        plan_step(m, elems, p, n).open == p1.open.push(n),
        st.result@ == old_st.result@,
        st.current@.len() == old_st.current@.len() + 1,
        forall|j: int| 0 <= j < old_st.current@.len() ==> #[trigger] st.current@[j] == old_st.current@[j],
        numbered_matches(m, elems, plan_step(m, elems, p, n).start_at, st.current@[old_st.current@.len() as int], n),
        counters_view(st.counters@) == plan_step(m, elems, p, n).counters,
        assoc_map(st.last_ids@) == plan_step(m, elems, p, n).last_num_id,
        plan_step(m, elems, p, n).start_at == p.start_at.insert(n, plan_step(m, elems, p, n).start_at[n]),
    ensures
        state_ok(st, m, elems, plan_step(m, elems, p, n), n + 1),
{
    let p2 = plan_step(m, elems, p, n);
    let v = p2.start_at[n];
    assert forall|k: int| 0 <= k < p2.segments.len() implies block_matches(m, elems, p2.start_at, #[trigger] st.result@[k], p2.segments[k]) by {
        assert(block_matches(m, elems, p1.start_at, old_st.result@[k], p1.segments[k]));
        assert(segment_below(p1.segments[k], n));
        lemma_block_extend(m, elems, p.start_at, n, v, st.result@[k], p1.segments[k]);
    }
    assert forall|k: int| 0 <= k < p2.segments.len() implies segment_below(#[trigger] p2.segments[k], n + 1) by {
        assert(segment_below(p1.segments[k], n));
        lemma_below_grows(p1.segments[k], n);
    }
    assert forall|j: int| 0 <= j < p2.open.len() implies numbered_matches(m, elems, p2.start_at, #[trigger] st.current@[j], p2.open[j]) by {
        if j < p1.open.len() {
            assert(numbered_matches(m, elems, p1.start_at, old_st.current@[j], p1.open[j]));
            assert(0 <= p1.open[j] < n);
            lemma_item_extend(m, elems, p.start_at, n, v, old_st.current@[j].item, p1.open[j]);
        }
    }
    assert forall|j: int| 0 <= j < p2.open.len() implies 0 <= #[trigger] p2.open[j] < n + 1 by {
        if j < p1.open.len() {
            assert(0 <= p1.open[j] < n);
        }
    }
}

/// A list paragraph: start a new list where it must, indent the paragraph
/// by its numbering level, number it if its level is ordered, and add it to
/// the open list.
#[verifier::rlimit(60)]
fn step_list<N: Copy, B>(
    st: &mut GroupState<N, B>,
    info: NumInfo,
    paragraph: Paragraph<N>,
    numberings: &NumberingMap<N>,
    Ghost(elems): Ghost<Seq<TaggedElement<N, B>>>,
    Ghost(p): Ghost<GroupPlan>,
    Ghost(n): Ghost<int>,
)
    requires
        0 <= n < elems.len(),
        state_ok(*old(st), numberings@, elems, p, n),
        elems[n] == (TaggedElement::<N, B>::ListParagraph { info, paragraph }),
    ensures
        state_ok(*final(st), numberings@, elems, plan_step(numberings@, elems, p, n), n + 1),
{
    let ghost m = numberings@;
    let series = numbering_series(info.num_id, numberings);
    let rl = resolved_level(info, numberings);
    let is_ordered = match rl {
        Some(l) => l.style.kind == ListKind::Ordered,
        None => false,
    };
    let is_num_id_change = match last_num_id_of(&st.last_ids, series) {
        Some(previous) => previous != info.num_id,
        None => false,
    };
    let explicit_restart = match rl {
        Some(l) => l.has_start_override && is_num_id_change,
        None => false,
    };
    let changes_series = if st.current.len() > 0 {
        let last = st.current.len() - 1;
        assert(numbered_matches(m, elems, p.start_at, st.current@[last as int], p.open[last as int]));
        st.current[last].series != series
    } else {
        false
    };
    assert(changes_series == spec_changes_series(m, elems, p, info));
    let root = current_root::<N, B>(&st.current, numberings, Ghost(elems), Ghost(p.open), Ghost(p.start_at));
    let starts_new = changes_series && match root {
        Some((root_level, root_kind)) => info.level <= root_level && match rl {
            Some(l) => l.style.kind != root_kind,
            None => false,
        },
        None => false,
    };
    assert(starts_new == spec_starts_new(m, elems, p, info));
    let ghost p1 = if starts_new {
        GroupPlan { open: Seq::empty(), segments: p.segments + closing_segments(p.open), ..p }
    } else {
        p
    };
    if starts_new {
        close_list(st, numberings, Ghost(elems), Ghost(p), Ghost(n));
        assert(p.segments + closing_segments(p.open) =~= p.segments.push(Segment::List(p.open)));
    }
    let ghost old_st = *st;
    let is_first_in_block = st.current.len() == 0;
    let mut paragraph = paragraph;
    let ghost orig_par = paragraph;
    apply_numbering_level_indentation(&mut paragraph, rl);
    let mut start_at: Option<u32> = None;
    if is_ordered {
        let l = rl.unwrap();
        let (restart, number) = advance_counter::<N>(
            &mut st.counters,
            series,
            info,
            l.start,
            explicit_restart,
            Ghost(m),
            Ghost(p),
        );
        if restart || is_first_in_block || changes_series {
            start_at = Some(number);
        }
    }
    proof {
        lemma_assoc_map_push(st.last_ids@, (series, info.num_id));
    }
    st.last_ids.push((series, info.num_id));
    let mut content: Vec<Paragraph<N>> = Vec::new();
    content.push(paragraph);
    let item = ListItem { content, level: info.level, start_at };
    st.current.push(NumberedItem { num_id: info.num_id, series, item });
    let ghost p2 = plan_step(m, elems, p, n);
    assert(p2.start_at[n] == start_at);
    assert(p2.start_at == p.start_at.insert(n, start_at));
    assert(numbered_matches(m, elems, p2.start_at, st.current@[old_st.current@.len() as int], n));
    proof {
        lemma_list_step(old_st, *st, m, elems, p, p1, n);
    }
}

/// Group consecutive list paragraphs into lists. Compatible adjacent list
/// paragraphs are merged even when their numbering ids differ, so ordered
/// numbering continues and level nesting is kept. A top-level change
/// between ordered and unordered numbering starts a new list, as does any
/// plain element, whose blocks pass through in order.
pub fn group_into_lists<N: Copy, B>(
    elements: Vec<TaggedElement<N, B>>,
    numberings: &NumberingMap<N>,
) -> (out: Vec<GroupedBlock<N, B>>)
    ensures
        out@.len() == final_segments(numberings@, elements@).len(),
        forall|k: int| 0 <= k < out@.len() ==> block_matches(
            numberings@,
            elements@,
            plan_after(numberings@, elements@, elements@.len()).start_at,
            #[trigger] out@[k],
            final_segments(numberings@, elements@)[k],
        ),
{
    let ghost elems = elements@;
    let ghost m = numberings@;
    let mut stack = reversed(elements);
    let total: usize = stack.len();
    assert(total == elems.len());
    let mut st: GroupState<N, B> = GroupState {
        result: Vec::new(),
        current: Vec::new(),
        counters: Vec::new(),
        last_ids: Vec::new(),
    };
    assert(counters_view(st.counters@) =~= Map::empty());
    assert(assoc_map(st.last_ids@) =~= Map::empty());
    let mut i: usize = 0;
    while stack.len() > 0
        invariant
            i + stack@.len() == elems.len(),
            elems.len() == total,
            forall|j: int| 0 <= j < stack@.len() ==> #[trigger] stack@[j] == elems[elems.len() - 1 - j],
            state_ok(st, m, elems, plan_after(m, elems, i as nat), i as int),
            numberings@ == m,
        decreases stack@.len(),
    {
        let e = stack.pop().unwrap();
        assert(e == elems[i as int]);
        let ghost p = plan_after(m, elems, i as nat);
        match e {
            TaggedElement::Plain(blocks) => {
                step_plain(&mut st, blocks, numberings, Ghost(elems), Ghost(p), Ghost(i as int));
            },
            TaggedElement::ListParagraph { info, paragraph } => {
                step_list(&mut st, info, paragraph, numberings, Ghost(elems), Ghost(p), Ghost(i as int));
            },
        }
        i = i + 1;
    }
    let ghost p = plan_after(m, elems, i as nat);
    close_list(&mut st, numberings, Ghost(elems), Ghost(p), Ghost(i as int));
    st.result
}

// ── Laws of grouping ────────────────────────────────────────────────

/// The input positions a segment stands for: a plain block by its element
/// and index, a list paragraph by its element.
pub open spec fn segment_positions(seg: Segment) -> Seq<(int, int)> {
    match seg {
        Segment::Block(i, t) => seq![(i, t)],
        Segment::List(idxs) => idxs.map_values(|i: int| (i, 0int)),
    }
}

/// The input positions of a sequence of segments, in order.
pub open spec fn flatten_segments(segs: Seq<Segment>) -> Seq<(int, int)>
    decreases segs.len(),
{
    if segs.len() == 0 {
        Seq::empty()
    } else {
        flatten_segments(segs.drop_last()) + segment_positions(segs.last())
    }
}

/// The positions of an element: each block of a plain element, or the
/// list paragraph itself.
pub open spec fn element_positions<N, B>(e: TaggedElement<N, B>, i: int) -> Seq<(int, int)> {
    match e {
        TaggedElement::Plain(blocks) => Seq::new(blocks@.len(), |t: int| (i, t)),
        TaggedElement::ListParagraph { .. } => seq![(i, 0int)],
    }
}

/// The positions of the first `n` elements, in order.
pub open spec fn input_positions<N, B>(elems: Seq<TaggedElement<N, B>>, n: nat) -> Seq<(int, int)>
    decreases n,
{
    if n == 0 {
        Seq::empty()
    } else {
        input_positions(elems, (n - 1) as nat) + element_positions(elems[n - 1], n - 1)
    }
}

proof fn lemma_flatten_append(a: Seq<Segment>, b: Seq<Segment>)
    ensures
        flatten_segments(a + b) == flatten_segments(a) + flatten_segments(b),
    decreases b.len(),
{
    if b.len() == 0 {
        assert(a + b =~= a);
        assert(flatten_segments(a) + flatten_segments(b) =~= flatten_segments(a));
    } else {
        lemma_flatten_append(a, b.drop_last());
        assert((a + b).drop_last() =~= a + b.drop_last());
        assert((a + b).last() == b.last());
        assert(flatten_segments(a) + flatten_segments(b) =~= flatten_segments(a) + flatten_segments(b.drop_last()) + segment_positions(b.last()));
    }
}

proof fn lemma_flatten_single(seg: Segment)
    ensures
        flatten_segments(seq![seg]) == segment_positions(seg),
{
    assert(seq![seg].drop_last() =~= Seq::<Segment>::empty());
    assert(flatten_segments(Seq::<Segment>::empty()) == Seq::<(int, int)>::empty());
    assert(Seq::<(int, int)>::empty() + segment_positions(seg) =~= segment_positions(seg));
}

proof fn lemma_flatten_blocks(i: int, len: nat)
    ensures
        flatten_segments(Seq::new(len, |t: int| Segment::Block(i, t))) == Seq::new(len, |t: int| (i, t)),
    decreases len,
{
    if len > 0 {
        lemma_flatten_blocks(i, (len - 1) as nat);
        assert(Seq::new(len, |t: int| Segment::Block(i, t)).drop_last() =~= Seq::new((len - 1) as nat, |t: int| Segment::Block(i, t)));
        assert(Seq::new(len, |t: int| (i, t)) =~= Seq::new((len - 1) as nat, |t: int| (i, t)) + seq![(i, len - 1)]);
    } else {
        assert(Seq::new(len, |t: int| (i, t)) =~= Seq::<(int, int)>::empty());
    }
}

/// A list of paragraph positions is a run of adjacent list paragraphs.
pub open spec fn is_paragraph_run<N, B>(elems: Seq<TaggedElement<N, B>>, idxs: Seq<int>) -> bool {
    &&& forall|j: int| 0 <= j < idxs.len() ==> 0 <= #[trigger] idxs[j] < elems.len() && elems[idxs[j]] is ListParagraph
    &&& forall|j: int| 0 < j < idxs.len() ==> #[trigger] idxs[j] == idxs[j - 1] + 1
}

/// Every list segment is a non-empty run of adjacent list paragraphs.
pub open spec fn lists_are_runs<N, B>(elems: Seq<TaggedElement<N, B>>, segs: Seq<Segment>) -> bool {
    forall|k: int| 0 <= k < segs.len() ==> match #[trigger] segs[k] {
        Segment::List(idxs) => idxs.len() > 0 && is_paragraph_run(elems, idxs),
        Segment::Block(_, _) => true,
    }
}

proof fn lemma_plan_invariants<N, B>(
    m: Map<usize, ResolvedNumbering<N>>,
    elems: Seq<TaggedElement<N, B>>,
    n: nat,
)
    requires
        n <= elems.len(),
    ensures
        flatten_segments(plan_after(m, elems, n).segments) + segment_positions(Segment::List(plan_after(m, elems, n).open))
            == input_positions(elems, n),
        lists_are_runs(elems, plan_after(m, elems, n).segments),
        is_paragraph_run(elems, plan_after(m, elems, n).open),
        plan_after(m, elems, n).open.len() > 0 ==> plan_after(m, elems, n).open.last() == n - 1,
    decreases n,
{
    let p = plan_after(m, elems, n);
    if n == 0 {
        assert(segment_positions(Segment::List(p.open)) =~= Seq::<(int, int)>::empty());
        assert(flatten_segments(p.segments) + segment_positions(Segment::List(p.open)) =~= Seq::<(int, int)>::empty());
    } else {
        let i = n - 1;
        let q = plan_after(m, elems, (n - 1) as nat);
        lemma_plan_invariants(m, elems, (n - 1) as nat);
        let qpos = segment_positions(Segment::List(q.open));
        match elems[i] {
            TaggedElement::Plain(blocks) => {
                let newb = Seq::new(blocks@.len(), |t: int| Segment::Block(i, t));
                lemma_flatten_append(q.segments + closing_segments(q.open), newb);
                lemma_flatten_append(q.segments, closing_segments(q.open));
                lemma_flatten_blocks(i, blocks@.len());
                if q.open.len() > 0 {
                    lemma_flatten_single(Segment::List(q.open));
                } else {
                    assert(flatten_segments(closing_segments(q.open)) =~= qpos);
                }
                assert(segment_positions(Segment::List(p.open)) =~= Seq::<(int, int)>::empty());
                assert(flatten_segments(p.segments) + segment_positions(Segment::List(p.open)) =~= input_positions(elems, n));
                assert forall|k: int| 0 <= k < p.segments.len() implies match #[trigger] p.segments[k] {
                    Segment::List(idxs) => idxs.len() > 0 && is_paragraph_run(elems, idxs),
                    Segment::Block(_, _) => true,
                } by {
                    if k < q.segments.len() {
                        assert(p.segments[k] == q.segments[k]);
                    } else if k < q.segments.len() + closing_segments(q.open).len() {
                        assert(p.segments[k] == Segment::List(q.open));
                    } else {
                        assert(p.segments[k] == newb[k - q.segments.len() - closing_segments(q.open).len()]);
                    }
                }
            },
            TaggedElement::ListParagraph { info, .. } => {
                if spec_starts_new(m, elems, q, info) {
                    assert(q.segments.push(Segment::List(q.open)) =~= q.segments + seq![Segment::List(q.open)]);
                    lemma_flatten_append(q.segments, seq![Segment::List(q.open)]);
                    lemma_flatten_single(Segment::List(q.open));
                    assert(p.open =~= seq![i]);
                    assert(segment_positions(Segment::List(p.open)) =~= seq![(i, 0int)]);
                    assert(flatten_segments(p.segments) + segment_positions(Segment::List(p.open)) =~= input_positions(elems, n));
                    assert forall|k: int| 0 <= k < p.segments.len() implies match #[trigger] p.segments[k] {
                        Segment::List(idxs) => idxs.len() > 0 && is_paragraph_run(elems, idxs),
                        Segment::Block(_, _) => true,
                    } by {
                        if k < q.segments.len() {
                            assert(p.segments[k] == q.segments[k]);
                        }
                    }
                } else {
                    assert(p.open =~= q.open.push(i));
                    assert(p.segments == q.segments);
                    assert(input_positions(elems, n) == input_positions(elems, (n - 1) as nat) + seq![(i, 0int)]);
                    assert(segment_positions(Segment::List(p.open)) =~= qpos.push((i, 0int)));
                    assert(flatten_segments(p.segments) + segment_positions(Segment::List(p.open)) =~= input_positions(elems, n));
                    assert forall|j: int| 0 < j < p.open.len() implies #[trigger] p.open[j] == p.open[j - 1] + 1 by {
                        if j < q.open.len() {
                            assert(p.open[j] == q.open[j]);
                        }
                    }
                }
            },
        }
    }
}

/// Grouping loses, duplicates and reorders nothing: read in order, the
/// output's blocks and list items are the input's blocks and list
/// paragraphs, in order.
pub proof fn lemma_grouping_keeps_order<N, B>(m: Map<usize, ResolvedNumbering<N>>, elems: Seq<TaggedElement<N, B>>)
    ensures
        flatten_segments(final_segments(m, elems)) == input_positions(elems, elems.len()),
{
    let p = plan_after(m, elems, elems.len());
    lemma_plan_invariants(m, elems, elems.len());
    lemma_flatten_append(p.segments, closing_segments(p.open));
    if p.open.len() > 0 {
        lemma_flatten_single(Segment::List(p.open));
    } else {
        assert(flatten_segments(closing_segments(p.open)) =~= segment_positions(Segment::List(p.open)));
    }
}

/// Every list of the output is a non-empty run of adjacent list paragraphs:
/// no plain element ever stands inside a list.
pub proof fn lemma_lists_are_paragraph_runs<N, B>(m: Map<usize, ResolvedNumbering<N>>, elems: Seq<TaggedElement<N, B>>)
    ensures
        lists_are_runs(elems, final_segments(m, elems)),
{
    let p = plan_after(m, elems, elems.len());
    lemma_plan_invariants(m, elems, elems.len());
    let f = final_segments(m, elems);
    assert forall|k: int| 0 <= k < f.len() implies match #[trigger] f[k] {
        Segment::List(idxs) => idxs.len() > 0 && is_paragraph_run(elems, idxs),
        Segment::Block(_, _) => true,
    } by {
        if k < p.segments.len() {
            assert(f[k] == p.segments[k]);
        } else {
            assert(f[k] == Segment::List(p.open));
        }
    }
}

/// Ordered numbering continues across numbering ids: an ordered list
/// paragraph right after another at the same level of the same series
/// (abstract numbering) gets no start number of its own, so it counts on,
/// unless its level restarts explicitly (its level overrides the start and
/// its numbering id differs from the previous one's).
pub proof fn lemma_numbering_continues<N, B>(m: Map<usize, ResolvedNumbering<N>>, elems: Seq<TaggedElement<N, B>>, i: int)
    requires
        0 <= i,
        i + 1 < elems.len(),
        elems[i] is ListParagraph,
        elems[i + 1] is ListParagraph,
        spec_series(m, info_of(elems[i]).num_id) == spec_series(m, info_of(elems[i + 1]).num_id),
        info_of(elems[i]).level == info_of(elems[i + 1]).level,
        spec_is_ordered(m, info_of(elems[i])),
        spec_is_ordered(m, info_of(elems[i + 1])),
        !(spec_level(m, info_of(elems[i + 1])).unwrap().has_start_override && info_of(elems[i]).num_id != info_of(
            elems[i + 1],
        ).num_id),
    ensures
        plan_after(m, elems, (i + 2) as nat).start_at[i + 1] is None,
{
    let a = info_of(elems[i]);
    let b = info_of(elems[i + 1]);
    let q = plan_after(m, elems, i as nat);
    let p = plan_after(m, elems, (i + 1) as nat);
    assert(p == plan_step(m, elems, q, i));
    let series = spec_series(m, a.num_id);
    assert(p.open.last() == i);
    assert(p.last_num_id[series] == a.num_id);
    assert(p.counters.contains_key(series));
    assert(set_counter(series_counters_of(q, series), a.level, spec_number(m, q, a)).contains_key(a.level));
    assert(series_counters_of(p, series).contains_key(b.level));
    assert(!spec_explicit_restart(m, p, b));
    assert(!spec_restart(m, p, b));
    assert(!spec_changes_series(m, elems, p, b));
    assert(!spec_starts_new(m, elems, p, b));
}

/// Numbering a paragraph at a level sets that level's counter, keeps the
/// counters of the shallower levels and forgets those of every deeper level.
pub proof fn lemma_set_counter_forgets_deeper(counters: Map<u32, u32>, level: u32, number: u32)
    ensures
        set_counter(counters, level, number).contains_key(level),
        set_counter(counters, level, number)[level] == number,
        forall|k: u32| k > level ==> !#[trigger] set_counter(counters, level, number).contains_key(k),
        forall|k: u32|
            k < level ==> (#[trigger] set_counter(counters, level, number).contains_key(k) == counters.contains_key(k)),
        forall|k: u32|
            k < level && counters.contains_key(k) ==> #[trigger] set_counter(counters, level, number)[k] == counters[k],
{
}

/// After an ordered list paragraph at a level, its series holds a counter
/// for that level and none for any deeper level.
pub proof fn lemma_no_deeper_counters_after<N, B>(m: Map<usize, ResolvedNumbering<N>>, elems: Seq<TaggedElement<N, B>>, i: int)
    requires
        0 <= i < elems.len(),
        elems[i] is ListParagraph,
        spec_is_ordered(m, info_of(elems[i])),
    ensures
        series_counters_of(plan_after(m, elems, (i + 1) as nat), spec_series(m, info_of(elems[i]).num_id)).contains_key(
            info_of(elems[i]).level,
        ),
        forall|k: u32|
            k > info_of(elems[i]).level ==> !#[trigger] series_counters_of(
                plan_after(m, elems, (i + 1) as nat),
                spec_series(m, info_of(elems[i]).num_id),
            ).contains_key(k),
{
    let a = info_of(elems[i]);
    let q = plan_after(m, elems, i as nat);
    let p = plan_after(m, elems, (i + 1) as nat);
    assert(p == plan_step(m, elems, q, i));
    let series = spec_series(m, a.num_id);
    lemma_set_counter_forgets_deeper(series_counters_of(q, series), a.level, spec_number(m, q, a));
    assert(series_counters_of(p, series) == set_counter(series_counters_of(q, series), a.level, spec_number(m, q, a)));
}

/// A deeper level starts again under each new item above it: an ordered
/// list paragraph right after an ordered one of the same series at a
/// shallower level is numbered from its level's start, and states it.
pub proof fn lemma_deeper_level_restarts<N, B>(m: Map<usize, ResolvedNumbering<N>>, elems: Seq<TaggedElement<N, B>>, i: int)
    requires
        0 <= i,
        i + 1 < elems.len(),
        elems[i] is ListParagraph,
        elems[i + 1] is ListParagraph,
        spec_series(m, info_of(elems[i]).num_id) == spec_series(m, info_of(elems[i + 1]).num_id),
        info_of(elems[i]).level < info_of(elems[i + 1]).level,
        spec_is_ordered(m, info_of(elems[i])),
        spec_is_ordered(m, info_of(elems[i + 1])),
    ensures
        plan_after(m, elems, (i + 2) as nat).start_at[i + 1] == Some(spec_level(m, info_of(elems[i + 1])).unwrap().start),
{
    let b = info_of(elems[i + 1]);
    lemma_no_deeper_counters_after(m, elems, i);
    let p = plan_after(m, elems, (i + 1) as nat);
    assert(plan_after(m, elems, (i + 2) as nat) == plan_step(m, elems, p, i + 1));
    assert(!series_counters_of(p, spec_series(m, b.num_id)).contains_key(b.level));
    assert(spec_restart(m, p, b));
}

/// Numbering is stated again after any plain element: an ordered list
/// paragraph right after one starts a list and carries its number.
pub proof fn lemma_number_stated_after_plain<N, B>(m: Map<usize, ResolvedNumbering<N>>, elems: Seq<TaggedElement<N, B>>, i: int)
    requires
        0 <= i,
        i + 1 < elems.len(),
        elems[i] is Plain,
        elems[i + 1] is ListParagraph,
        spec_is_ordered(m, info_of(elems[i + 1])),
    ensures
        plan_after(m, elems, (i + 1) as nat).open.len() == 0,
        plan_after(m, elems, (i + 2) as nat).start_at[i + 1] is Some,
{
    let p = plan_after(m, elems, (i + 1) as nat);
    assert(p == plan_step(m, elems, plan_after(m, elems, i as nat), i));
    assert(!spec_changes_series(m, elems, p, info_of(elems[i + 1])));
}
/// Where a run of list paragraphs is split: a list paragraph right after
/// another joins that one's list, unless it starts a new list (it changes
/// the series, stands at or above the open list's root level, and its kind
/// differs from the root's); then the list so far is closed and a new one
/// begins with it.
pub proof fn lemma_list_split_rule<N, B>(m: Map<usize, ResolvedNumbering<N>>, elems: Seq<TaggedElement<N, B>>, i: int)
    requires
        0 < i < elems.len(),
        elems[i - 1] is ListParagraph,
        elems[i] is ListParagraph,
    ensures
        plan_after(m, elems, i as nat).open.len() > 0,
        plan_after(m, elems, i as nat).open.last() == i - 1,
        spec_starts_new(m, elems, plan_after(m, elems, i as nat), info_of(elems[i])) ==> plan_after(
            m,
            elems,
            (i + 1) as nat,
        ).open == seq![i] && plan_after(m, elems, (i + 1) as nat).segments == plan_after(
            m,
            elems,
            i as nat,
        ).segments.push(Segment::List(plan_after(m, elems, i as nat).open)),
        !spec_starts_new(m, elems, plan_after(m, elems, i as nat), info_of(elems[i])) ==> plan_after(
            m,
            elems,
            (i + 1) as nat,
        ).open == plan_after(m, elems, i as nat).open.push(i) && plan_after(m, elems, (i + 1) as nat).segments
            == plan_after(m, elems, i as nat).segments,
{
    let p = plan_after(m, elems, i as nat);
    assert(plan_after(m, elems, i as nat) == plan_step(m, elems, plan_after(m, elems, (i - 1) as nat), i - 1));
    assert(plan_after(m, elems, (i + 1) as nat) == plan_step(m, elems, p, i));
    if spec_starts_new(m, elems, p, info_of(elems[i])) {
        assert(plan_after(m, elems, (i + 1) as nat).open =~= seq![i]);
    }
}


/// What a reader sees, in order, of the body or of the grouped output: a
/// plain block, or a list paragraph by its level and runs.
pub ghost enum BodyPiece<N, B> {
    Block(B),
    Item(u32, Vec<Run<N>>),
}

/// The piece at an input position.
pub open spec fn piece_at<N, B>(elems: Seq<TaggedElement<N, B>>, pos: (int, int)) -> BodyPiece<N, B> {
    match elems[pos.0] {
        TaggedElement::Plain(blocks) => BodyPiece::Block(blocks@[pos.1]),
        TaggedElement::ListParagraph { info, paragraph } => BodyPiece::Item(info.level, paragraph.runs),
    }
}

/// The pieces of the body, in order: each block of a plain element, and
/// each list paragraph.
pub open spec fn input_pieces<N, B>(elems: Seq<TaggedElement<N, B>>) -> Seq<BodyPiece<N, B>> {
    input_positions(elems, elems.len()).map_values(|pos: (int, int)| piece_at(elems, pos))
}

/// The pieces of an output block: the block itself, or each item of the
/// list by its level and the runs of its paragraph.
pub open spec fn block_pieces<N, B>(b: GroupedBlock<N, B>) -> Seq<BodyPiece<N, B>> {
    match b {
        GroupedBlock::Block(x) => seq![BodyPiece::Block(x)],
        GroupedBlock::List(l) => l.items@.map_values(|it: ListItem<N>| BodyPiece::Item(it.level, it.content@[0].runs)),
    }
}

/// The pieces of the output, in order, each list read item by item.
pub open spec fn output_pieces<N, B>(out: Seq<GroupedBlock<N, B>>) -> Seq<BodyPiece<N, B>>
    decreases out.len(),
{
    if out.len() == 0 {
        Seq::empty()
    } else {
        output_pieces(out.drop_last()) + block_pieces(out.last())
    }
}

/// `out` is what `group_into_lists` gives for the body.
pub open spec fn grouped_output<N, B>(
    m: Map<usize, ResolvedNumbering<N>>,
    elems: Seq<TaggedElement<N, B>>,
    out: Seq<GroupedBlock<N, B>>,
) -> bool {
    &&& out.len() == final_segments(m, elems).len()
    &&& forall|k: int| 0 <= k < out.len() ==> block_matches(
        m,
        elems,
        plan_after(m, elems, elems.len()).start_at,
        #[trigger] out[k],
        final_segments(m, elems)[k],
    )
}

proof fn lemma_block_pieces<N, B>(
    m: Map<usize, ResolvedNumbering<N>>,
    elems: Seq<TaggedElement<N, B>>,
    start_at: Map<int, Option<u32>>,
    b: GroupedBlock<N, B>,
    seg: Segment,
)
    requires
        block_matches(m, elems, start_at, b, seg),
    ensures
        block_pieces(b) == segment_positions(seg).map_values(|pos: (int, int)| piece_at(elems, pos)),
{
    let f = |pos: (int, int)| piece_at(elems, pos);
    match seg {
        Segment::Block(i, t) => {
            assert(block_pieces(b) =~= segment_positions(seg).map_values(f));
        },
        Segment::List(idxs) => {
            let l = b->List_0;
            assert forall|j: int| 0 <= j < idxs.len() implies block_pieces(b)[j] == segment_positions(seg).map_values(f)[j] by {
                assert(item_matches(m, elems, start_at, l.items@[j], idxs[j]));
            }
            assert(block_pieces(b) =~= segment_positions(seg).map_values(f));
        },
    }
}

/// Each output block is its segment.
#[verifier::opaque]
spec fn blocks_match_segments<N, B>(
    m: Map<usize, ResolvedNumbering<N>>,
    elems: Seq<TaggedElement<N, B>>,
    start_at: Map<int, Option<u32>>,
    out: Seq<GroupedBlock<N, B>>,
    segs: Seq<Segment>,
) -> bool {
    &&& out.len() == segs.len()
    &&& forall|j: int| 0 <= j < out.len() ==> block_matches(m, elems, start_at, #[trigger] out[j], segs[j])
}

#[verifier::rlimit(60)]
proof fn lemma_output_pieces_prefix<N, B>(
    m: Map<usize, ResolvedNumbering<N>>,
    elems: Seq<TaggedElement<N, B>>,
    start_at: Map<int, Option<u32>>,
    out: Seq<GroupedBlock<N, B>>,
    segs: Seq<Segment>,
    k: int,
)
    requires
        blocks_match_segments(m, elems, start_at, out, segs),
        0 <= k <= out.len(),
        out.len() == segs.len(),
    ensures
        output_pieces(out.take(k)) == flatten_segments(segs.take(k)).map_values(|pos: (int, int)| piece_at(elems, pos)),
    decreases k,
{
    let f = |pos: (int, int)| piece_at(elems, pos);
    if k == 0 {
        assert(out.take(0) =~= Seq::<GroupedBlock<N, B>>::empty());
        assert(segs.take(0) =~= Seq::<Segment>::empty());
        assert(flatten_segments(segs.take(0)).map_values(f) =~= Seq::<BodyPiece<N, B>>::empty());
    } else {
        lemma_output_pieces_prefix(m, elems, start_at, out, segs, k - 1);
        assert(out.take(k).drop_last() =~= out.take(k - 1));
        assert(segs.take(k).drop_last() =~= segs.take(k - 1));
        let b = out[k - 1];
        let seg = segs[k - 1];
        assert(block_matches(m, elems, start_at, b, seg)) by {
            reveal(blocks_match_segments);
        }
        lemma_block_pieces(m, elems, start_at, b, seg);
        let prev = flatten_segments(segs.take(k - 1));
        let last = segment_positions(seg);
        assert(flatten_segments(segs.take(k)) == prev + last);
        assert((prev + last).map_values(f) =~= prev.map_values(f) + last.map_values(f));
    }
}

/// Grouping reads as the body does: taken in order, with each list read
/// item by item (its level and the runs of its paragraph), the output is
/// exactly the body's plain blocks and list paragraphs in order; and every
/// list of the output has at least one item.
pub proof fn lemma_grouped_output_keeps_body<N, B>(
    m: Map<usize, ResolvedNumbering<N>>,
    elems: Seq<TaggedElement<N, B>>,
    out: Seq<GroupedBlock<N, B>>,
)
    requires
        grouped_output(m, elems, out),
    ensures
        output_pieces(out) == input_pieces(elems),
        forall|k: int| 0 <= k < out.len() && (#[trigger] out[k]) is List ==> out[k]->List_0.items@.len() > 0,
{
    let segs = final_segments(m, elems);
    lemma_grouping_keeps_order(m, elems);
    lemma_lists_are_paragraph_runs(m, elems);
    assert(blocks_match_segments(m, elems, plan_after(m, elems, elems.len()).start_at, out, segs)) by {
        reveal(blocks_match_segments);
    }
    lemma_output_pieces_prefix(m, elems, plan_after(m, elems, elems.len()).start_at, out, segs, out.len() as int);
    assert(out.take(out.len() as int) =~= out);
    assert(segs.take(segs.len() as int) =~= segs);
    assert forall|k: int| 0 <= k < out.len() && (#[trigger] out[k]) is List implies out[k]->List_0.items@.len() > 0 by {
        assert(block_matches(m, elems, plan_after(m, elems, elems.len()).start_at, out[k], segs[k]));
        assert(match segs[k] {
            Segment::List(idxs) => idxs.len() > 0 && is_paragraph_run(elems, idxs),
            Segment::Block(_, _) => true,
        });
    }
}

} // verus!
