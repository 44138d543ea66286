//! Placeholder inheritance for slides.
//!
//! A slide placeholder (`<p:sp>`/`<p:pic>` with `<p:ph>`) that omits
//! `<a:xfrm>` inherits its position and size from the matching placeholder
//! of the slide layout, which in turn may inherit from the slide master.
//! Placeholder text likewise stacks the master's text style bucket, the
//! master placeholder's `<a:lstStyle>` and the layout placeholder's.

use vstd::prelude::*;

use crate::parser::pptx_defaults::{defaults_overlay, lemma_defaults_overlay_idempotent, DefaultsView, PptxMasterTextStyles, PptxTextBodyStyleDefaults};
use crate::parser::pptx_text::{get_attr_i64, tag_i64};
use crate::text_util::{opt_chars, str_eq};
use crate::parser::pptx_list_style::{
    defaults_deep, lemma_list_style_end_unique, list_style_after, list_style_ends_at,
    list_style_length, parse_pptx_list_style, ListDefaultsView,
};
use crate::parser::pptx_theme::{ColorMapData, ThemeData};
use crate::xml::{attr_value, get_attr, open_xml, read_xml_event, xml_event_at, XmlEvent, XmlTag};

verus! {

/// Resolved placeholder position and size, in EMU.
#[derive(Debug, Clone, Copy, PartialEq, Eq, Structural)]
pub struct PlaceholderGeometry {
    pub x: i64,
    pub y: i64,
    pub cx: i64,
    pub cy: i64,
}

/// A placeholder declared by one inheritance layer (layout or master):
/// its type and index, its explicit geometry, and what its own list style
/// (`<a:lstStyle>`) gives, where it has one.
#[derive(Debug, Clone)]
pub struct LayerPlaceholder<D> {
    pub ph_type: Option<String>,
    pub ph_idx: Option<String>,
    pub geometry: Option<PlaceholderGeometry>,
    pub text_defaults: Option<D>,
}

/// The values a layer placeholder holds.
pub ghost struct PlaceholderView<D> {
    pub ph_type: Option<Seq<char>>,
    pub ph_idx: Option<Seq<char>>,
    pub geometry: Option<PlaceholderGeometry>,
    pub text_defaults: Option<D>,
}

impl<D> View for LayerPlaceholder<D> {
    type V = PlaceholderView<D>;

    open spec fn view(&self) -> PlaceholderView<D> {
        PlaceholderView {
            ph_type: opt_chars(self.ph_type),
            ph_idx: opt_chars(self.ph_idx),
            geometry: self.geometry,
            text_defaults: self.text_defaults,
        }
    }
}

/// The values of a layer's placeholders.
pub open spec fn layer_view<D>(entries: Seq<LayerPlaceholder<D>>) -> Seq<PlaceholderView<D>> {
    entries.map_values(|e: LayerPlaceholder<D>| e@)
}

/// The characters of an optional string slice.
pub open spec fn opt_str(value: Option<&str>) -> Option<Seq<char>> {
    match value {
        Some(v) => Some(v@),
        None => None,
    }
}

/// `title` and `ctrTitle` are interchangeable for matching.
pub open spec fn title_family(ph_type: Option<Seq<char>>) -> bool {
    ph_type == Some("title"@) || ph_type == Some("ctrTitle"@)
}

/// The placeholder type a master actually has for any type: `title`, `dt`,
/// `ftr`, `sldNum`, or `body` (all content types).
pub open spec fn master_type(ph_type: Option<Seq<char>>) -> Seq<char> {
    if title_family(ph_type) {
        "title"@
    } else if ph_type == Some("dt"@) {
        "dt"@
    } else if ph_type == Some("ftr"@) {
        "ftr"@
    } else if ph_type == Some("sldNum"@) {
        "sldNum"@
    } else {
        "body"@
    }
}

/// A placeholder index, `0` where absent.
pub open spec fn idx_or_zero(ph_idx: Option<Seq<char>>) -> Seq<char> {
    match ph_idx {
        Some(i) => i,
        None => "0"@,
    }
}

/// What a placeholder is matched by.
pub ghost enum PlaceholderCriterion {
    TitleFamily,
    Type(Option<Seq<char>>),
    Idx(Seq<char>),
    MasterType(Seq<char>),
}

pub open spec fn criterion_holds<D>(c: PlaceholderCriterion, e: PlaceholderView<D>) -> bool {
    match c {
        PlaceholderCriterion::TitleFamily => title_family(e.ph_type),
        PlaceholderCriterion::Type(t) => e.ph_type == t,
        PlaceholderCriterion::Idx(i) => idx_or_zero(e.ph_idx) == i,
        PlaceholderCriterion::MasterType(w) => master_type(e.ph_type) == w,
    }
}

/// The position of the first entry that meets the criterion.
pub open spec fn first_match<D>(entries: Seq<PlaceholderView<D>>, c: PlaceholderCriterion) -> Option<int>
    decreases entries.len(),
{
    if entries.len() == 0 {
        None
    } else if criterion_holds(c, entries[0]) {
        Some(0)
    } else {
        match first_match(entries.drop_first(), c) {
            Some(i) => Some(i + 1),
            None => None,
        }
    }
}

/// A first match is an entry that meets the criterion.
pub proof fn lemma_first_match_in_range<D>(entries: Seq<PlaceholderView<D>>, c: PlaceholderCriterion)
    ensures
        match first_match(entries, c) {
            Some(k) => 0 <= k < entries.len() && criterion_holds(c, entries[k]),
            None => true,
        },
    decreases entries.len(),
{
    if entries.len() > 0 && !criterion_holds(c, entries[0]) {
        lemma_first_match_in_range(entries.drop_first(), c);
    }
}

/// Match a slide placeholder against a layout's placeholders: the title
/// family by type, `dt`/`ftr`/`sldNum` by type, everything else by index
/// (`0` where absent), with a final fallback on the exact type.
pub open spec fn spec_find_in_layer<D>(
    entries: Seq<PlaceholderView<D>>,
    ph_type: Option<Seq<char>>,
    ph_idx: Option<Seq<char>>,
) -> Option<int> {
    let by_family = first_match(entries, PlaceholderCriterion::TitleFamily);
    let by_type = first_match(entries, PlaceholderCriterion::Type(ph_type));
    let by_idx = first_match(entries, PlaceholderCriterion::Idx(idx_or_zero(ph_idx)));
    if title_family(ph_type) && by_family is Some {
        by_family
    } else if (ph_type == Some("dt"@) || ph_type == Some("ftr"@) || ph_type == Some("sldNum"@))
        && by_type is Some {
        by_type
    } else if by_idx is Some {
        by_idx
    } else if ph_type is Some {
        by_type
    } else {
        None
    }
}

/// Match against a master's placeholders by normalized type only.
pub open spec fn spec_find_in_master<D>(entries: Seq<PlaceholderView<D>>, ph_type: Option<Seq<char>>) -> Option<int> {
    first_match(entries, PlaceholderCriterion::MasterType(master_type(ph_type)))
}

/// The geometry of the master placeholder matching a type, if it has one.
pub open spec fn master_geometry<D>(master: Seq<PlaceholderView<D>>, ph_type: Option<Seq<char>>) -> Option<PlaceholderGeometry> {
    match spec_find_in_master(master, ph_type) {
        Some(k) => master[k].geometry,
        None => None,
    }
}

/// The effective geometry of a slide placeholder: the matching layout
/// placeholder's; where that has none, the master placeholder matching the
/// layout placeholder's type; else the master placeholder matching the
/// slide placeholder's type.
pub open spec fn spec_lookup<D>(
    layout: Seq<PlaceholderView<D>>,
    master: Seq<PlaceholderView<D>>,
    ph_type: Option<Seq<char>>,
    ph_idx: Option<Seq<char>>,
) -> Option<PlaceholderGeometry> {
    match spec_find_in_layer(layout, ph_type, ph_idx) {
        Some(k) => if layout[k].geometry is Some {
            layout[k].geometry
        } else if master_geometry(master, layout[k].ph_type) is Some {
            master_geometry(master, layout[k].ph_type)
        } else {
            master_geometry(master, ph_type)
        },
        None => master_geometry(master, ph_type),
    }
}

/// Every match names an entry of the layer.
pub proof fn lemma_layer_matches_in_range<D>(
    entries: Seq<PlaceholderView<D>>,
    ph_type: Option<Seq<char>>,
    ph_idx: Option<Seq<char>>,
)
    ensures
        match spec_find_in_layer(entries, ph_type, ph_idx) {
            Some(k) => 0 <= k < entries.len(),
            None => true,
        },
        match spec_find_in_master(entries, ph_type) {
            Some(k) => 0 <= k < entries.len(),
            None => true,
        },
{
    lemma_first_match_in_range(entries, PlaceholderCriterion::TitleFamily);
    lemma_first_match_in_range(entries, PlaceholderCriterion::Type(ph_type));
    lemma_first_match_in_range(entries, PlaceholderCriterion::Idx(idx_or_zero(ph_idx)));
    lemma_first_match_in_range(entries, PlaceholderCriterion::MasterType(master_type(ph_type)));
}

/// Whether a placeholder type belongs to the title family.
pub fn is_title_family(ph_type: Option<&str>) -> (r: bool)
    ensures
        r == title_family(opt_str(ph_type)),
{
    match ph_type {
        Some(t) => str_eq(t, "title") || str_eq(t, "ctrTitle"),
        None => false,
    }
}

/// The placeholder type a master has for a slide or layout placeholder type.
pub fn normalized_master_type(ph_type: Option<&str>) -> (r: &'static str)
    ensures
        r@ == master_type(opt_str(ph_type)),
{
    if is_title_family(ph_type) {
        return "title";
    }
    match ph_type {
        Some(t) => if str_eq(t, "dt") {
            "dt"
        } else if str_eq(t, "ftr") {
            "ftr"
        } else if str_eq(t, "sldNum") {
            "sldNum"
        } else {
            "body"
        },
        None => "body",
    }
}

/// A criterion with the values it compares against.
enum Criterion<'a> {
    TitleFamily,
    Type(Option<&'a str>),
    Idx(&'a str),
    MasterType(&'a str),
}

spec fn criterion_view(c: Criterion) -> PlaceholderCriterion {
    match c {
        Criterion::TitleFamily => PlaceholderCriterion::TitleFamily,
        Criterion::Type(t) => PlaceholderCriterion::Type(opt_str(t)),
        Criterion::Idx(i) => PlaceholderCriterion::Idx(i@),
        Criterion::MasterType(w) => PlaceholderCriterion::MasterType(w@),
    }
}

/// The characters of an optional string, as a slice.
fn as_opt_str(value: &Option<String>) -> (r: Option<&str>)
    ensures
        opt_str(r) == opt_chars(*value),
{
    match value {
        Some(v) => Some(v.as_str()),
        None => None,
    }
}

fn holds<D>(c: &Criterion, e: &LayerPlaceholder<D>) -> (r: bool)
    ensures
        r == criterion_holds(criterion_view(*c), e@),
{
    match c {
        Criterion::TitleFamily => is_title_family(as_opt_str(&e.ph_type)),
        Criterion::Type(t) => match (as_opt_str(&e.ph_type), t) {
            (Some(a), Some(b)) => str_eq(a, b),
            (None, None) => true,
            _ => false,
        },
        Criterion::Idx(i) => match as_opt_str(&e.ph_idx) {
            Some(a) => str_eq(a, i),
            None => str_eq("0", i),
        },
        Criterion::MasterType(w) => str_eq(normalized_master_type(as_opt_str(&e.ph_type)), w),
    }
}

/// The position of the first entry meeting a criterion.
fn find_first<D>(entries: &Vec<LayerPlaceholder<D>>, c: &Criterion) -> (r: Option<usize>)
    ensures
        match r {
            Some(i) => i < entries@.len() && first_match(layer_view(entries@), criterion_view(*c)) == Some(i as int),
            None => first_match(layer_view(entries@), criterion_view(*c)) is None,
        },
{
    let ghost view = layer_view(entries@);
    let ghost cv = criterion_view(*c);
    let mut i: usize = 0;
    assert(view.skip(0) =~= view);
    while i < entries.len()
        invariant
            0 <= i <= entries@.len(),
            view == layer_view(entries@),
            cv == criterion_view(*c),
            forall|j: int| 0 <= j < i ==> !criterion_holds(cv, #[trigger] view[j]),
            first_match(view, cv) == match first_match(view.skip(i as int), cv) {
                Some(k) => Some(k + i),
                None => None,
            },
        decreases entries@.len() - i,
    {
        assert(view.skip(i as int).drop_first() =~= view.skip(i as int + 1));
        assert(view.skip(i as int)[0] == view[i as int]);
        if holds(c, &entries[i]) {
            return Some(i);
        }
        i = i + 1;
    }
    None
}

/// The layout placeholder matching a slide placeholder.
pub fn find_in_layer<'a, D>(
    entries: &'a Vec<LayerPlaceholder<D>>,
    ph_type: Option<&str>,
    ph_idx: Option<&str>,
) -> (r: Option<&'a LayerPlaceholder<D>>)
    ensures
        match spec_find_in_layer(layout_view_of(entries), opt_str(ph_type), opt_str(ph_idx)) {
            Some(k) => r == Some(&entries@[k]),
            None => r is None,
        },
{
    proof {
        lemma_layer_matches_in_range(layout_view_of(entries), opt_str(ph_type), opt_str(ph_idx));
    }
    let by_family = find_first(entries, &Criterion::TitleFamily);
    let by_type = find_first(entries, &Criterion::Type(ph_type));
    let idx: &str = match ph_idx {
        Some(i) => i,
        None => "0",
    };
    let by_idx = find_first(entries, &Criterion::Idx(idx));
    let special = match ph_type {
        Some(t) => str_eq(t, "dt") || str_eq(t, "ftr") || str_eq(t, "sldNum"),
        None => false,
    };
    let chosen: Option<usize> = if is_title_family(ph_type) && by_family.is_some() {
        by_family
    } else if special && by_type.is_some() {
        by_type
    } else if by_idx.is_some() {
        by_idx
    } else if ph_type.is_some() {
        by_type
    } else {
        None
    };
    match chosen {
        Some(k) => Some(&entries[k]),
        None => None,
    }
}

/// The values of a layer's placeholders, as a vector holds them.
pub open spec fn layout_view_of<D>(entries: &Vec<LayerPlaceholder<D>>) -> Seq<PlaceholderView<D>> {
    layer_view(entries@)
}

/// The master placeholder matching a placeholder type.
pub fn find_in_master<'a, D>(entries: &'a Vec<LayerPlaceholder<D>>, ph_type: Option<&str>) -> (r: Option<&'a LayerPlaceholder<D>>)
    ensures
        match spec_find_in_master(layout_view_of(entries), opt_str(ph_type)) {
            Some(k) => r == Some(&entries@[k]),
            None => r is None,
        },
{
    let wanted: &str = normalized_master_type(ph_type);
    proof {
        lemma_layer_matches_in_range(layout_view_of(entries), opt_str(ph_type), None);
    }
    match find_first(entries, &Criterion::MasterType(wanted)) {
        Some(k) => Some(&entries[k]),
        None => None,
    }
}

/// The master's text style bucket a placeholder type draws on.
#[derive(Debug, Clone, Copy, PartialEq, Eq, Structural)]
pub enum MasterTextBucket {
    Title,
    Body,
    Other,
}

/// The bucket of a placeholder type: title for the title family, body for
/// everything the master holds as body, other for `dt`, `ftr` and `sldNum`.
pub open spec fn spec_bucket(ph_type: Option<Seq<char>>) -> MasterTextBucket {
    let t = master_type(ph_type);
    if t == "title"@ {
        MasterTextBucket::Title
    } else if t == "body"@ {
        MasterTextBucket::Body
    } else {
        MasterTextBucket::Other
    }
}

/// Placeholder inheritance table for one slide, built from its layout and
/// master layers, with the master's text styles.
#[derive(Debug)]
pub struct PlaceholderGeometryMap<N> {
    pub layout: Vec<LayerPlaceholder<PptxTextBodyStyleDefaults<N>>>,
    pub master: Vec<LayerPlaceholder<PptxTextBodyStyleDefaults<N>>>,
    pub master_text_styles: PptxMasterTextStyles<N>,
}

impl<N> PlaceholderGeometryMap<N> {
    /// Resolve the effective geometry for a slide placeholder: layout match
    /// first, then the master.
    pub fn lookup(&self, ph_type: Option<&str>, ph_idx: Option<&str>) -> (r: Option<PlaceholderGeometry>)
        ensures
            r == spec_lookup(layout_view_of(&self.layout), layout_view_of(&self.master), opt_str(ph_type), opt_str(ph_idx)),
    {
        let ghost layout = layout_view_of(&self.layout);
        let ghost master = layout_view_of(&self.master);
        proof {
            lemma_layer_matches_in_range(layout, opt_str(ph_type), opt_str(ph_idx));
        }
        match find_in_layer(&self.layout, ph_type, ph_idx) {
            Some(entry) => {
                let ghost k = spec_find_in_layer(layout, opt_str(ph_type), opt_str(ph_idx))->Some_0;
                assert(layout[k] == entry@);
                if let Some(geometry) = entry.geometry {
                    return Some(geometry);
                }
                let entry_type = as_opt_str(&entry.ph_type);
                proof {
                    lemma_layer_matches_in_range(master, opt_str(entry_type), None);
                }
                if let Some(m) = find_in_master(&self.master, entry_type) {
                    if let Some(geometry) = m.geometry {
                        return Some(geometry);
                    }
                }
            },
            None => {},
        }
        proof {
            lemma_layer_matches_in_range(master, opt_str(ph_type), None);
        }
        match find_in_master(&self.master, ph_type) {
            Some(m) => m.geometry,
            None => None,
        }
    }

    /// Where a slide placeholder's inherited text defaults come from, bottom
    /// up: the master's text style bucket for its type, then the matching
    /// master placeholder's list style, then the matching layout
    /// placeholder's.
    pub fn text_default_sources(&self, ph_type: Option<&str>, ph_idx: Option<&str>) -> (r: (
        MasterTextBucket,
        Option<&PptxTextBodyStyleDefaults<N>>,
        Option<&PptxTextBodyStyleDefaults<N>>,
    ))
        ensures
            r.0 == spec_bucket(opt_str(ph_type)),
            r.1 == match spec_find_in_master(layout_view_of(&self.master), opt_str(ph_type)) {
                Some(k) => match self.master@[k].text_defaults {
                    Some(d) => Some(&d),
                    None => None,
                },
                None => None,
            },
            r.2 == match spec_find_in_layer(layout_view_of(&self.layout), opt_str(ph_type), opt_str(ph_idx)) {
                Some(k) => match self.layout@[k].text_defaults {
                    Some(d) => Some(&d),
                    None => None,
                },
                None => None,
            },
    {
        let t: &str = normalized_master_type(ph_type);
        let bucket = if str_eq(t, "title") {
            MasterTextBucket::Title
        } else if str_eq(t, "body") {
            MasterTextBucket::Body
        } else {
            MasterTextBucket::Other
        };
        let from_master: Option<&PptxTextBodyStyleDefaults<N>> = match find_in_master(&self.master, ph_type) {
            Some(entry) => match &entry.text_defaults {
                Some(d) => Some(d),
                None => None,
            },
            None => None,
        };
        let from_layout: Option<&PptxTextBodyStyleDefaults<N>> = match find_in_layer(&self.layout, ph_type, ph_idx) {
            Some(entry) => match &entry.text_defaults {
                Some(d) => Some(d),
                None => None,
            },
            None => None,
        };
        (bucket, from_master, from_layout)
    }
}

/// The master's text style bucket for a bucket kind.
pub open spec fn bucket_defaults<N>(styles: PptxMasterTextStyles<N>, bucket: MasterTextBucket) -> DefaultsView<N> {
    match bucket {
        MasterTextBucket::Title => styles.title@,
        MasterTextBucket::Body => styles.body@,
        MasterTextBucket::Other => styles.other@,
    }
}

/// Defaults laid over others where there are any.
pub open spec fn overlay_if<N>(base: DefaultsView<N>, top: Option<PptxTextBodyStyleDefaults<N>>) -> DefaultsView<N> {
    match top {
        Some(t) => defaults_overlay(base, t@),
        None => base,
    }
}

/// A slide placeholder's inherited text defaults: the master's bucket for
/// its type, then the matching master placeholder's list style, then the
/// matching layout placeholder's.
pub open spec fn spec_text_defaults<N>(
    layout: Seq<PlaceholderView<PptxTextBodyStyleDefaults<N>>>,
    master: Seq<PlaceholderView<PptxTextBodyStyleDefaults<N>>>,
    styles: PptxMasterTextStyles<N>,
    ph_type: Option<Seq<char>>,
    ph_idx: Option<Seq<char>>,
) -> DefaultsView<N> {
    let from_master = match spec_find_in_master(master, ph_type) {
        Some(k) => master[k].text_defaults,
        None => None,
    };
    let from_layout = match spec_find_in_layer(layout, ph_type, ph_idx) {
        Some(k) => layout[k].text_defaults,
        None => None,
    };
    overlay_if(overlay_if(bucket_defaults(styles, spec_bucket(ph_type)), from_master), from_layout)
}

impl<N: Copy> PlaceholderGeometryMap<N> {
    /// Resolve the inherited text style defaults of a slide placeholder: the
    /// master's text style bucket for its type, overlaid by the matching
    /// master placeholder's list style, then the matching layout
    /// placeholder's.
    pub fn text_defaults(&self, ph_type: Option<&str>, ph_idx: Option<&str>) -> (defaults: PptxTextBodyStyleDefaults<N>)
        ensures
            defaults@ == spec_text_defaults(
                layout_view_of(&self.layout),
                layout_view_of(&self.master),
                self.master_text_styles,
                opt_str(ph_type),
                opt_str(ph_idx),
            ),
    {
        proof {
            lemma_layer_matches_in_range(layout_view_of(&self.layout), opt_str(ph_type), opt_str(ph_idx));
            lemma_layer_matches_in_range(layout_view_of(&self.master), opt_str(ph_type), opt_str(ph_idx));
        }
        let (bucket, from_master, from_layout) = self.text_default_sources(ph_type, ph_idx);
        let mut defaults = match bucket {
            MasterTextBucket::Title => self.master_text_styles.title.copy(),
            MasterTextBucket::Body => self.master_text_styles.body.copy(),
            MasterTextBucket::Other => self.master_text_styles.other.copy(),
        };
        if let Some(overlay) = from_master {
            defaults.merge_from(overlay);
        }
        if let Some(overlay) = from_layout {
            defaults.merge_from(overlay);
        }
        defaults
    }
}

// ── Laws of inheritance ─────────────────────────────────────────────

/// The layout placeholder's list style is the top layer of a slide
/// placeholder's inherited text defaults: laying it over the result once
/// more changes nothing, so every field it sets is the result's, whatever
/// the master and its placeholder set.
pub proof fn lemma_layout_style_on_top<N>(
    layout: Seq<PlaceholderView<PptxTextBodyStyleDefaults<N>>>,
    master: Seq<PlaceholderView<PptxTextBodyStyleDefaults<N>>>,
    styles: PptxMasterTextStyles<N>,
    ph_type: Option<Seq<char>>,
    ph_idx: Option<Seq<char>>,
    k: int,
    top: PptxTextBodyStyleDefaults<N>,
)
    requires
        spec_find_in_layer(layout, ph_type, ph_idx) == Some(k),
        layout[k].text_defaults == Some(top),
    ensures
        defaults_overlay(spec_text_defaults(layout, master, styles, ph_type, ph_idx), top@) == spec_text_defaults(
            layout,
            master,
            styles,
            ph_type,
            ph_idx,
        ),
{
    let from_master = match spec_find_in_master(master, ph_type) {
        Some(j) => master[j].text_defaults,
        None => None,
    };
    let below = overlay_if(bucket_defaults(styles, spec_bucket(ph_type)), from_master);
    assert(spec_text_defaults(layout, master, styles, ph_type, ph_idx) == defaults_overlay(below, top@));
    lemma_defaults_overlay_idempotent(below, top@);
}

/// The matching master placeholder's list style lies over the master's text
/// style bucket: where no layout placeholder's list style applies, laying the
/// master placeholder's over the result once more changes nothing.
pub proof fn lemma_master_style_over_bucket<N>(
    layout: Seq<PlaceholderView<PptxTextBodyStyleDefaults<N>>>,
    master: Seq<PlaceholderView<PptxTextBodyStyleDefaults<N>>>,
    styles: PptxMasterTextStyles<N>,
    ph_type: Option<Seq<char>>,
    ph_idx: Option<Seq<char>>,
    j: int,
    mid: PptxTextBodyStyleDefaults<N>,
)
    requires
        spec_find_in_master(master, ph_type) == Some(j),
        master[j].text_defaults == Some(mid),
        match spec_find_in_layer(layout, ph_type, ph_idx) {
            Some(k) => layout[k].text_defaults is None,
            None => true,
        },
    ensures
        defaults_overlay(spec_text_defaults(layout, master, styles, ph_type, ph_idx), mid@) == spec_text_defaults(
            layout,
            master,
            styles,
            ph_type,
            ph_idx,
        ),
{
    let below = bucket_defaults(styles, spec_bucket(ph_type));
    assert(spec_text_defaults(layout, master, styles, ph_type, ph_idx) == defaults_overlay(below, mid@));
    lemma_defaults_overlay_idempotent(below, mid@);
}


/// Inherited geometry is never invented: whatever a lookup gives is the
/// declared geometry of a layout placeholder or of a master placeholder.
pub proof fn lemma_lookup_comes_from_layers<D>(
    layout: Seq<PlaceholderView<D>>,
    master: Seq<PlaceholderView<D>>,
    ph_type: Option<Seq<char>>,
    ph_idx: Option<Seq<char>>,
)
    ensures
        match spec_lookup(layout, master, ph_type, ph_idx) {
            Some(g) => (exists|k: int| 0 <= k < layout.len() && #[trigger] layout[k].geometry == Some(g)) || (exists|
                k: int,
            | 0 <= k < master.len() && #[trigger] master[k].geometry == Some(g)),
            None => true,
        },
{
    lemma_layer_matches_in_range(layout, ph_type, ph_idx);
    lemma_layer_matches_in_range(master, ph_type, None);
    match spec_find_in_layer(layout, ph_type, ph_idx) {
        Some(k) => {
            lemma_layer_matches_in_range(master, layout[k].ph_type, None);
        },
        None => {},
    }
}

proof fn lemma_no_family_no_title_type<D>(entries: Seq<PlaceholderView<D>>, t: Seq<char>)
    requires
        first_match(entries, PlaceholderCriterion::TitleFamily) is None,
        t == "title"@ || t == "ctrTitle"@,
    ensures
        first_match(entries, PlaceholderCriterion::Type(Some(t))) is None,
    decreases entries.len(),
{
    if entries.len() > 0 {
        lemma_no_family_no_title_type(entries.drop_first(), t);
    }
}

/// `title` and `ctrTitle` placeholders inherit alike: a slide placeholder
/// of either type gets the same geometry.
pub proof fn lemma_title_types_inherit_alike<D>(
    layout: Seq<PlaceholderView<D>>,
    master: Seq<PlaceholderView<D>>,
    ph_idx: Option<Seq<char>>,
)
    ensures
        spec_lookup(layout, master, Some("title"@), ph_idx) == spec_lookup(layout, master, Some("ctrTitle"@), ph_idx),
{
    if first_match(layout, PlaceholderCriterion::TitleFamily) is None {
        lemma_no_family_no_title_type(layout, "title"@);
        lemma_no_family_no_title_type(layout, "ctrTitle"@);
    }
    assert(master_type(Some("title"@)) == master_type(Some("ctrTitle"@)));
}

// ── Scanning a layer ────────────────────────────────────────────────

/// The placeholder shape being read.
pub ghost struct CurrentView {
    pub ph_type: Option<Seq<char>>,
    pub ph_idx: Option<Seq<char>>,
    pub has_ph: bool,
    pub x: Option<i64>,
    pub y: Option<i64>,
    pub cx: Option<i64>,
    pub cy: Option<i64>,
    pub in_sp_pr: bool,
    pub in_xfrm: bool,
    pub text_defaults: Option<ListDefaultsView>,
}

/// The state of a layer scan: the placeholders found, and the shape being
/// read.
pub ghost struct LayerScanView {
    pub entries: Seq<PlaceholderView<ListDefaultsView>>,
    pub current: Option<CurrentView>,
}

pub open spec fn fresh_current() -> CurrentView {
    CurrentView {
        ph_type: None,
        ph_idx: None,
        has_ph: false,
        x: None,
        y: None,
        cx: None,
        cy: None,
        in_sp_pr: false,
        in_xfrm: false,
        text_defaults: None,
    }
}

/// A start or self-closing tag other than a list style.
pub open spec fn layer_simple_start(s: LayerScanView, tag: XmlTag) -> LayerScanView {
    let name = tag.name@;
    if name == "sp"@ || name == "pic"@ {
        LayerScanView { current: Some(fresh_current()), ..s }
    } else {
        match s.current {
            None => s,
            Some(c) => {
                let c2 = if name == "ph"@ {
                    CurrentView {
                        has_ph: true,
                        ph_type: attr_value(tag.attrs@, "type"@),
                        ph_idx: attr_value(tag.attrs@, "idx"@),
                        ..c
                    }
                } else if name == "spPr"@ {
                    CurrentView { in_sp_pr: true, ..c }
                } else if name == "xfrm"@ {
                    if c.in_sp_pr {
                        CurrentView { in_xfrm: true, ..c }
                    } else {
                        c
                    }
                } else if name == "off"@ {
                    if c.in_xfrm {
                        CurrentView { x: tag_i64(tag, "x"@), y: tag_i64(tag, "y"@), ..c }
                    } else {
                        c
                    }
                } else if name == "ext"@ {
                    if c.in_xfrm {
                        CurrentView { cx: tag_i64(tag, "cx"@), cy: tag_i64(tag, "cy"@), ..c }
                    } else {
                        c
                    }
                } else {
                    c
                };
                LayerScanView { current: Some(c2), ..s }
            },
        }
    }
}

/// The geometry of a placeholder shape: all four values, or none.
pub open spec fn current_geometry(c: CurrentView) -> Option<PlaceholderGeometry> {
    match (c.x, c.y, c.cx, c.cy) {
        (Some(x), Some(y), Some(cx), Some(cy)) => Some(PlaceholderGeometry { x, y, cx, cy }),
        _ => None,
    }
}

/// The end of a shape: a placeholder is recorded with its geometry and
/// list style; any shape stops being read.
pub open spec fn close_shape(s: LayerScanView) -> LayerScanView {
    match s.current {
        Some(c) => if c.has_ph {
            LayerScanView {
                entries: s.entries.push(
                    PlaceholderView {
                        ph_type: c.ph_type,
                        ph_idx: c.ph_idx,
                        geometry: current_geometry(c),
                        text_defaults: c.text_defaults,
                    },
                ),
                current: None,
            }
        } else {
            LayerScanView { current: None, ..s }
        },
        None => s,
    }
}

/// One event of a layer scan other than the start of a list style inside
/// a shape.
pub open spec fn layer_scan_step(s: LayerScanView, event: XmlEvent) -> LayerScanView {
    match event {
        XmlEvent::Start(tag) => layer_simple_start(s, tag),
        XmlEvent::Empty(tag) => layer_simple_start(s, tag),
        XmlEvent::End(name) => if name@ == "sp"@ || name@ == "pic"@ {
            close_shape(s)
        } else if name@ == "spPr"@ {
            match s.current {
                Some(c) => LayerScanView { current: Some(CurrentView { in_sp_pr: false, ..c }), ..s },
                None => s,
            }
        } else if name@ == "xfrm"@ {
            match s.current {
                Some(c) => LayerScanView { current: Some(CurrentView { in_xfrm: false, ..c }), ..s },
                None => s,
            }
        } else {
            s
        },
        _ => s,
    }
}

/// A layer scan, and the index of the next event it reads.
pub ghost struct LayerScanAt {
    pub scan: LayerScanView,
    pub next: nat,
}

/// Whether an event starts a list style inside a shape.
pub open spec fn starts_shape_list_style(s: LayerScanView, event: XmlEvent) -> bool {
    event matches XmlEvent::Start(tag) && tag.name@ == "lstStyle"@ && s.current is Some
}

/// One turn of a layer scan: the next event is read; where it starts a
/// shape's list style, the list style is read to its end and recorded.
pub open spec fn layer_scan_turn(source: Seq<char>, theme: ThemeData, color_map: ColorMapData, s: LayerScanAt) -> LayerScanAt {
    let event = xml_event_at(source, s.next);
    if starts_shape_list_style(s.scan, event) {
        let start = s.next + 1;
        let m = list_style_length(source, start);
        LayerScanAt {
            scan: LayerScanView {
                current: Some(CurrentView {
                    text_defaults: Some(list_style_after(source, start, m, theme, color_map).defaults),
                    ..s.scan.current->Some_0
                }),
                ..s.scan
            },
            next: start + m + 1,
        }
    } else {
        LayerScanAt { scan: layer_scan_step(s.scan, event), next: s.next + 1 }
    }
}

/// The layer scan of `source` after `turns` turns.
pub open spec fn layer_scan_run(source: Seq<char>, theme: ThemeData, color_map: ColorMapData, turns: nat) -> LayerScanAt
    decreases turns,
{
    if turns == 0 {
        LayerScanAt { scan: LayerScanView { entries: Seq::empty(), current: None }, next: 0 }
    } else {
        layer_scan_turn(source, theme, color_map, layer_scan_run(source, theme, color_map, (turns - 1) as nat))
    }
}

/// The layer scan of `source` ends on its `turns`-th turn: the first whose
/// event is the end of input or an error.
pub open spec fn layer_scan_ends(source: Seq<char>, theme: ThemeData, color_map: ColorMapData, turns: nat) -> bool {
    &&& xml_event_at(source, layer_scan_run(source, theme, color_map, turns).next).is_terminal()
    &&& forall|k: nat| k < turns ==> !xml_event_at(source, #[trigger] layer_scan_run(source, theme, color_map, k).next).is_terminal()
}

/// The event of a turn closes a shape (`</p:sp>` or `</p:pic>`).
pub open spec fn closes_shape(event: XmlEvent) -> bool {
    event matches XmlEvent::End(name) && (name@ == "sp"@ || name@ == "pic"@)
}

/// What one turn of a layer scan does to what it has found: a placeholder
/// is recorded exactly when a shape (`sp` or `pic`) that holds a `ph` ends,
/// with that `ph`'s type and index, a frame only where the shape's `xfrm`
/// gave all four of `off x`, `off y`, `ext cx`, `ext cy`, and text defaults
/// only where a list style of the shape was read; nothing else is ever
/// recorded or dropped. A shape's text defaults come from a list style
/// read inside it and from nothing else.
pub proof fn lemma_layer_scan_turn(source: Seq<char>, theme: ThemeData, color_map: ColorMapData, t: nat)
    ensures
        ({
            let b = layer_scan_run(source, theme, color_map, t);
            let a = layer_scan_run(source, theme, color_map, t + 1);
            let e = xml_event_at(source, b.next);
            &&& (a.scan.entries.len() == b.scan.entries.len() + 1) <==> (closes_shape(e) && b.scan.current is Some && b.scan.current->0.has_ph)
            &&& a.scan.entries.len() == b.scan.entries.len() + 1 || a.scan.entries == b.scan.entries
            &&& a.scan.entries.len() == b.scan.entries.len() + 1 ==> a.scan.entries.drop_last() == b.scan.entries && (
            b.scan.current is Some && a.scan.entries.last() == (PlaceholderView {
                ph_type: b.scan.current->0.ph_type,
                ph_idx: b.scan.current->0.ph_idx,
                geometry: current_geometry(b.scan.current->0),
                text_defaults: b.scan.current->0.text_defaults,
            }))
            &&& (a.scan.current is Some && a.scan.current->0.text_defaults is Some) ==> (starts_shape_list_style(b.scan, e) || (
            b.scan.current is Some && b.scan.current->0.text_defaults == a.scan.current->0.text_defaults))
        }),
        forall|c: CurrentView| #[trigger] current_geometry(c) is Some <==> (c.x is Some && c.y is Some && c.cx is Some && c.cy is Some),
{
    let b = layer_scan_run(source, theme, color_map, t);
    let e = xml_event_at(source, b.next);
    assert(layer_scan_run(source, theme, color_map, t + 1) == layer_scan_turn(source, theme, color_map, b));
    if !starts_shape_list_style(b.scan, e) {
        match e {
            XmlEvent::End(name) => {
                if name@ == "sp"@ || name@ == "pic"@ {
                    match b.scan.current {
                        Some(c) => {
                            if c.has_ph {
                                assert(close_shape(b.scan).entries.drop_last() =~= b.scan.entries);
                            }
                        },
                        None => {},
                    }
                }
            },
            _ => {},
        }
    }
}

/// A layer's placeholders, their list styles as `ListDefaultsView`s.
pub open spec fn layer_deep(entries: Seq<LayerPlaceholder<PptxTextBodyStyleDefaults<i64>>>) -> Seq<PlaceholderView<ListDefaultsView>> {
    entries.map_values(|e: LayerPlaceholder<PptxTextBodyStyleDefaults<i64>>| PlaceholderView {
        ph_type: opt_chars(e.ph_type),
        ph_idx: opt_chars(e.ph_idx),
        geometry: e.geometry,
        text_defaults: match e.text_defaults {
            Some(d) => Some(defaults_deep(d@)),
            None => None,
        },
    })
}

/// The placeholder shape being read, in exec values.
struct Current {
    ph_type: Option<String>,
    ph_idx: Option<String>,
    has_ph: bool,
    x: Option<i64>,
    y: Option<i64>,
    cx: Option<i64>,
    cy: Option<i64>,
    in_sp_pr: bool,
    in_xfrm: bool,
    text_defaults: Option<PptxTextBodyStyleDefaults<i64>>,
}

impl View for Current {
    type V = CurrentView;

    closed spec fn view(&self) -> CurrentView {
        CurrentView {
            ph_type: opt_chars(self.ph_type),
            ph_idx: opt_chars(self.ph_idx),
            has_ph: self.has_ph,
            x: self.x,
            y: self.y,
            cx: self.cx,
            cy: self.cy,
            in_sp_pr: self.in_sp_pr,
            in_xfrm: self.in_xfrm,
            text_defaults: match self.text_defaults {
                Some(d) => Some(defaults_deep(d@)),
                None => None,
            },
        }
    }
}

pub struct LayerScan {
    entries: Vec<LayerPlaceholder<PptxTextBodyStyleDefaults<i64>>>,
    current: Option<Current>,
}

impl View for LayerScan {
    type V = LayerScanView;

    closed spec fn view(&self) -> LayerScanView {
        LayerScanView {
            entries: layer_deep(self.entries@),
            current: match self.current {
                Some(c) => Some(c@),
                None => None,
            },
        }
    }
}

impl LayerScan {
    /// A scan that has read nothing.
    pub fn new() -> (s: Self)
        ensures
            s@.entries == Seq::<PlaceholderView<ListDefaultsView>>::empty(),
            s@.current is None,
    {
        let s = LayerScan { entries: Vec::new(), current: None };
        assert(s@.entries =~= Seq::<PlaceholderView<ListDefaultsView>>::empty());
        s
    }

    /// The placeholders kept so far.
    pub fn entries(&self) -> (r: &Vec<LayerPlaceholder<PptxTextBodyStyleDefaults<i64>>>)
        ensures
            layer_deep(r@) == self@.entries,
    {
        &self.entries
    }

    fn simple_start(&mut self, tag: &XmlTag)
        ensures
            final(self)@ == layer_simple_start(old(self)@, *tag),
    {
        let name: &str = tag.name.as_str();
        if str_eq(name, "sp") || str_eq(name, "pic") {
            self.current = Some(
                Current {
                    ph_type: None,
                    ph_idx: None,
                    has_ph: false,
                    x: None,
                    y: None,
                    cx: None,
                    cy: None,
                    in_sp_pr: false,
                    in_xfrm: false,
                    text_defaults: None,
                },
            );
            return;
        }
        match &mut self.current {
            None => {},
            Some(c) => {
                if str_eq(name, "ph") {
                    c.has_ph = true;
                    c.ph_type = get_attr(tag, "type");
                    c.ph_idx = get_attr(tag, "idx");
                } else if str_eq(name, "spPr") {
                    c.in_sp_pr = true;
                } else if str_eq(name, "xfrm") {
                    if c.in_sp_pr {
                        c.in_xfrm = true;
                    }
                } else if str_eq(name, "off") {
                    if c.in_xfrm {
                        c.x = get_attr_i64(tag, "x");
                        c.y = get_attr_i64(tag, "y");
                    }
                } else if str_eq(name, "ext") {
                    if c.in_xfrm {
                        c.cx = get_attr_i64(tag, "cx");
                        c.cy = get_attr_i64(tag, "cy");
                    }
                }
            },
        }
    }

    fn end_shape(&mut self)
        ensures
            final(self)@ == close_shape(old(self)@),
    {
        match self.current.take() {
            Some(c) => {
                if c.has_ph {
                    let geometry = match (c.x, c.y, c.cx, c.cy) {
                        (Some(x), Some(y), Some(cx), Some(cy)) => Some(PlaceholderGeometry { x, y, cx, cy }),
                        _ => None,
                    };
                    let ghost cv = c@;
                    let entry = LayerPlaceholder {
                        ph_type: c.ph_type,
                        ph_idx: c.ph_idx,
                        geometry,
                        text_defaults: c.text_defaults,
                    };
                    let ghost before = self.entries@;
                    self.entries.push(entry);
                    assert(layer_deep(self.entries@) =~= layer_deep(before).push(
                        PlaceholderView {
                            ph_type: cv.ph_type,
                            ph_idx: cv.ph_idx,
                            geometry: current_geometry(cv),
                            text_defaults: cv.text_defaults,
                        },
                    ));
                }
            },
            None => {},
        }
    }

    /// Read one event other than the start of a shape's list style (see
    /// `layer_scan_step`).
    pub fn step(&mut self, event: &XmlEvent)
        ensures
            final(self)@ == layer_scan_step(old(self)@, *event),
    {
        match event {
            XmlEvent::Start(tag) => self.simple_start(tag),
            XmlEvent::Empty(tag) => self.simple_start(tag),
            XmlEvent::End(name) => {
                if str_eq(name.as_str(), "sp") || str_eq(name.as_str(), "pic") {
                    self.end_shape();
                } else if str_eq(name.as_str(), "spPr") {
                    match &mut self.current {
                        Some(c) => {
                            c.in_sp_pr = false;
                        },
                        None => {},
                    }
                } else if str_eq(name.as_str(), "xfrm") {
                    match &mut self.current {
                        Some(c) => {
                            c.in_xfrm = false;
                        },
                        None => {},
                    }
                }
            },
            _ => {},
        }
    }
}

/// Collect every placeholder `<p:sp>`/`<p:pic>` of a layout or master layer
/// with its explicit `<a:xfrm>` geometry and what its own `<a:lstStyle>`
/// gives, where it has one (read by `parse_pptx_list_style`).
pub fn scan_layer_placeholders(xml: &str, theme: &ThemeData, color_map: &ColorMapData) -> (entries: Vec<LayerPlaceholder<PptxTextBodyStyleDefaults<i64>>>)
    ensures
        exists|turns: nat| layer_scan_ends(xml@, *theme, *color_map, turns) && layer_deep(entries@) == #[trigger] layer_scan_run(xml@, *theme, *color_map, turns).scan.entries,
{
    let mut cursor = open_xml(xml);
    let mut scan = LayerScan { entries: Vec::new(), current: None };
    assert(scan@.entries =~= Seq::<PlaceholderView<ListDefaultsView>>::empty());
    let ghost mut turns: nat = 0;
    loop
        invariant_except_break
            cursor.source() == xml@,
            scan@ == layer_scan_run(xml@, *theme, *color_map, turns).scan,
            cursor.consumed() == layer_scan_run(xml@, *theme, *color_map, turns).next,
            forall|k: nat| k < turns ==> !xml_event_at(xml@, #[trigger] layer_scan_run(xml@, *theme, *color_map, k).next).is_terminal(),
        ensures
            layer_scan_ends(xml@, *theme, *color_map, turns),
            scan@ == layer_scan_run(xml@, *theme, *color_map, turns).scan,
        decreases cursor.remaining(),
    {
        let event = read_xml_event(&mut cursor);
        match event {
            XmlEvent::Eof | XmlEvent::Error => {
                break;
            },
            _ => {},
        }
        let opens_list_style = match &event {
            XmlEvent::Start(tag) => str_eq(tag.name.as_str(), "lstStyle") && scan.current.is_some(),
            _ => false,
        };
        if opens_list_style {
            let ghost start = cursor.consumed();
            let defaults = parse_pptx_list_style(&mut cursor, theme, color_map);
            proof {
                let m = choose|m: nat|
                    list_style_ends_at(xml@, start, m) && cursor.consumed() == start + m + 1
                        && defaults_deep(defaults@) == #[trigger] list_style_after(xml@, start, m, *theme, *color_map).defaults;
                lemma_list_style_end_unique(xml@, start, m, list_style_length(xml@, start));
            }
            match &mut scan.current {
                Some(c) => {
                    c.text_defaults = Some(defaults);
                },
                None => {},
            }
        } else {
            scan.step(&event);
        }
        proof {
            turns = turns + 1;
        }
    }
    assert(layer_deep(scan.entries@) == layer_scan_run(xml@, *theme, *color_map, turns).scan.entries);
    scan.entries
}

impl PlaceholderGeometryMap<i64> {
    /// Build the inheritance table of a slide from its layout's and
    /// master's XML, where they were found, each read with its own color
    /// map, and the master's text styles.
    pub fn build(
        layout_xml: Option<&str>,
        master_xml: Option<&str>,
        theme: &ThemeData,
        layout_color_map: &ColorMapData,
        master_color_map: &ColorMapData,
        master_text_styles: PptxMasterTextStyles<i64>,
    ) -> (map: Self)
        ensures
            match layout_xml {
                Some(xml) => exists|turns: nat|
                    layer_scan_ends(xml@, *theme, *layout_color_map, turns) && layer_deep(map.layout@)
                        == #[trigger] layer_scan_run(xml@, *theme, *layout_color_map, turns).scan.entries,
                None => map.layout@.len() == 0,
            },
            match master_xml {
                Some(xml) => exists|turns: nat|
                    layer_scan_ends(xml@, *theme, *master_color_map, turns) && layer_deep(map.master@)
                        == #[trigger] layer_scan_run(xml@, *theme, *master_color_map, turns).scan.entries,
                None => map.master@.len() == 0,
            },
            map.master_text_styles == master_text_styles,
    {
        let layout = match layout_xml {
            Some(xml) => scan_layer_placeholders(xml, theme, layout_color_map),
            None => Vec::new(),
        };
        let master = match master_xml {
            Some(xml) => scan_layer_placeholders(xml, theme, master_color_map),
            None => Vec::new(),
        };
        PlaceholderGeometryMap { layout, master, master_text_styles }
    }
}

} // verus!
