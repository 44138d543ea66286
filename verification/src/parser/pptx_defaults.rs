//! Text style defaults of presentation text bodies: per-level paragraph,
//! run and bullet styles, and how layers of them combine.

use vstd::prelude::*;

use std::collections::BTreeMap;
use vstd::std_specs::iter::IteratorSpec;

use crate::ir::style::{
    clone_opt_string, overlay, paragraph_style_overlay, text_style_overlay, Color, ParagraphStyle,
    ParagraphStyleView, TextStyle,
};
use crate::parser::pptx_text::{PptxAutoNumbering, PptxBulletKind};

verus! {

broadcast use {vstd::std_specs::btree::group_btree_axioms, vstd::laws_cmp::group_laws_cmp};

/// The levels of a map, in increasing order.
pub fn level_keys<V>(m: &BTreeMap<u32, V>) -> (keys: Vec<u32>)
    ensures
        forall|k: u32| m@.contains_key(k) <==> keys@.contains(k),
{
    let mut keys: Vec<u32> = Vec::new();
    let ghost all = m.keys().remaining().unref();
    assert(all.to_set() == m@.dom());
    for k in it: m.keys()
        invariant
            it.seq().unref() == all,
            keys@ == all.take(it.index()),
    {
        keys.push(*k);
        assert(keys@ =~= all.take(it.index() + 1));
    }
    assert(keys@ =~= all);
    assert forall|k: u32| m@.contains_key(k) <==> keys@.contains(k) by {
        if m@.contains_key(k) {
            assert(all.to_set().contains(k));
        }
        if keys@.contains(k) {
            assert(all.to_set().contains(k));
        }
    }
    keys
}

/// Where a bullet's font comes from.
#[derive(Debug, Clone, PartialEq, Eq)]
pub enum PptxBulletFontSource {
    FollowText,
    Explicit(String),
}

/// Where a bullet's color comes from.
#[derive(Debug, Clone, Copy, PartialEq, Eq, Structural)]
pub enum PptxBulletColorSource {
    FollowText,
    Explicit(Color),
}

/// Where a bullet's size comes from: the text, a fraction of the text
/// size, or a size in points.
#[derive(Debug, Clone, Copy, PartialEq)]
pub enum PptxBulletSizeSource<N> {
    FollowText,
    Percent(N),
    Points(N),
}

/// A bullet definition: each part where the layer sets it.
#[derive(Debug, Clone)]
pub struct PptxBulletDefinition<N> {
    pub kind: Option<PptxBulletKind>,
    pub font: Option<PptxBulletFontSource>,
    pub color: Option<PptxBulletColorSource>,
    pub size: Option<PptxBulletSizeSource<N>>,
}

/// The bullet definition of `base` with every part that `top` sets taken
/// from `top`.
pub open spec fn bullet_overlay<N>(base: PptxBulletDefinition<N>, top: PptxBulletDefinition<N>) -> PptxBulletDefinition<N> {
    PptxBulletDefinition {
        kind: overlay(base.kind, top.kind),
        font: overlay(base.font, top.font),
        color: overlay(base.color, top.color),
        size: overlay(base.size, top.size),
    }
}

pub open spec fn empty_bullet<N>() -> PptxBulletDefinition<N> {
    PptxBulletDefinition { kind: None, font: None, color: None, size: None }
}

fn copy_bullet_kind(kind: &PptxBulletKind) -> (c: PptxBulletKind)
    ensures
        c == *kind,
{
    match kind {
        PptxBulletKind::NoBullet => PptxBulletKind::NoBullet,
        PptxBulletKind::Character(s) => PptxBulletKind::Character(s.clone()),
        PptxBulletKind::AutoNumber(n) => PptxBulletKind::AutoNumber(
            PptxAutoNumbering {
                level: n.level,
                numbering_pattern: clone_opt_string(&n.numbering_pattern),
                start_at: n.start_at,
            },
        ),
    }
}

fn copy_font_source(font: &PptxBulletFontSource) -> (c: PptxBulletFontSource)
    ensures
        c == *font,
{
    match font {
        PptxBulletFontSource::FollowText => PptxBulletFontSource::FollowText,
        PptxBulletFontSource::Explicit(s) => PptxBulletFontSource::Explicit(s.clone()),
    }
}

impl<N: Copy> PptxBulletDefinition<N> {
    /// A definition that sets nothing.
    pub fn empty() -> (d: Self)
        ensures
            d == empty_bullet::<N>(),
    {
        PptxBulletDefinition { kind: None, font: None, color: None, size: None }
    }

    /// A copy of the definition.
    pub fn copy(&self) -> (d: Self)
        ensures
            d == *self,
    {
        PptxBulletDefinition {
            kind: match &self.kind {
                Some(k) => Some(copy_bullet_kind(k)),
                None => None,
            },
            font: match &self.font {
                Some(f) => Some(copy_font_source(f)),
                None => None,
            },
            color: self.color,
            size: self.size,
        }
    }
}

/// Take every part of `source` that it sets into `target`.
pub fn merge_pptx_bullet_definition<N: Copy>(target: &mut PptxBulletDefinition<N>, source: &PptxBulletDefinition<N>)
    ensures
        *final(target) == bullet_overlay(*old(target), *source),
{
    if let Some(k) = &source.kind {
        target.kind = Some(copy_bullet_kind(k));
    }
    if let Some(f) = &source.font {
        target.font = Some(copy_font_source(f));
    }
    if source.color.is_some() {
        target.color = source.color;
    }
    if source.size.is_some() {
        target.size = source.size;
    }
}

/// The paragraph, run and bullet style of one list level.
#[derive(Debug, Clone)]
pub struct PptxTextLevelStyle<N> {
    pub paragraph: ParagraphStyle<N>,
    pub run: TextStyle<N>,
    pub bullet: PptxBulletDefinition<N>,
}

/// The values a level style holds.
pub ghost struct LevelTextView<N> {
    pub paragraph: ParagraphStyleView<N>,
    pub run: TextStyle<N>,
    pub bullet: PptxBulletDefinition<N>,
}

impl<N> View for PptxTextLevelStyle<N> {
    type V = LevelTextView<N>;

    open spec fn view(&self) -> LevelTextView<N> {
        LevelTextView { paragraph: self.paragraph@, run: self.run, bullet: self.bullet }
    }
}

pub open spec fn empty_level<N>() -> LevelTextView<N> {
    LevelTextView {
        paragraph: crate::ir::style::empty_paragraph_style(),
        run: crate::ir::style::empty_text_style(),
        bullet: empty_bullet(),
    }
}

/// A level style laid over another, part by part.
pub open spec fn level_overlay<N>(base: LevelTextView<N>, top: LevelTextView<N>) -> LevelTextView<N> {
    LevelTextView {
        paragraph: paragraph_style_overlay(base.paragraph, top.paragraph),
        run: text_style_overlay(base.run, top.run),
        bullet: bullet_overlay(base.bullet, top.bullet),
    }
}

impl<N: Copy> PptxTextLevelStyle<N> {
    /// A level style that sets nothing.
    pub fn empty() -> (l: Self)
        ensures
            l@ == empty_level::<N>(),
    {
        PptxTextLevelStyle {
            paragraph: ParagraphStyle::empty(),
            run: TextStyle::empty(),
            bullet: PptxBulletDefinition::empty(),
        }
    }

    /// A copy of the level style.
    pub fn copy(&self) -> (l: Self)
        ensures
            l@ == self@,
    {
        PptxTextLevelStyle { paragraph: self.paragraph.copy(), run: self.run.copy(), bullet: self.bullet.copy() }
    }

    /// Lay another level style over this one.
    pub fn merge_from(&mut self, top: &PptxTextLevelStyle<N>)
        ensures
            final(self)@ == level_overlay(old(self)@, top@),
    {
        self.paragraph.merge_from(&top.paragraph);
        self.run.merge_from(&top.run);
        merge_pptx_bullet_definition(&mut self.bullet, &top.bullet);
    }
}

/// The text style defaults of a text body: defaults for every paragraph,
/// and per-level styles.
#[derive(Debug, Clone)]
pub struct PptxTextBodyStyleDefaults<N> {
    pub default_paragraph: ParagraphStyle<N>,
    pub default_run: TextStyle<N>,
    pub default_bullet: PptxBulletDefinition<N>,
    pub levels: BTreeMap<u32, PptxTextLevelStyle<N>>,
}

/// The values text body defaults hold.
pub ghost struct DefaultsView<N> {
    pub default_paragraph: ParagraphStyleView<N>,
    pub default_run: TextStyle<N>,
    pub default_bullet: PptxBulletDefinition<N>,
    pub levels: Map<u32, LevelTextView<N>>,
}

impl<N> View for PptxTextBodyStyleDefaults<N> {
    type V = DefaultsView<N>;

    open spec fn view(&self) -> DefaultsView<N> {
        DefaultsView {
            default_paragraph: self.default_paragraph@,
            default_run: self.default_run,
            default_bullet: self.default_bullet,
            levels: self.levels@.map_values(|l: PptxTextLevelStyle<N>| l@),
        }
    }
}

/// A level's style, or the empty one where the defaults have none.
pub open spec fn level_or_empty<N>(levels: Map<u32, LevelTextView<N>>, k: u32) -> LevelTextView<N> {
    if levels.contains_key(k) {
        levels[k]
    } else {
        empty_level()
    }
}

/// Defaults laid over others: the defaults part by part, and every level
/// either layer has, each level laid over the other's (or the empty one).
pub open spec fn defaults_overlay<N>(base: DefaultsView<N>, top: DefaultsView<N>) -> DefaultsView<N> {
    DefaultsView {
        default_paragraph: paragraph_style_overlay(base.default_paragraph, top.default_paragraph),
        default_run: text_style_overlay(base.default_run, top.default_run),
        default_bullet: bullet_overlay(base.default_bullet, top.default_bullet),
        levels: Map::new(
            |k: u32| base.levels.contains_key(k) || top.levels.contains_key(k),
            |k: u32| if top.levels.contains_key(k) {
                level_overlay(level_or_empty(base.levels, k), top.levels[k])
            } else {
                base.levels[k]
            },
        ),
    }
}

/// The levels with the run color set.
pub open spec fn levels_with_color<N>(levels: Map<u32, LevelTextView<N>>, color: Color) -> Map<u32, LevelTextView<N>> {
    levels.map_values(|l: LevelTextView<N>| LevelTextView { run: TextStyle { color: Some(color), ..l.run }, ..l })
}

impl<N: Copy> PptxTextBodyStyleDefaults<N> {
    /// Defaults that set nothing.
    pub fn empty() -> (d: Self)
        ensures
            d@.default_paragraph == crate::ir::style::empty_paragraph_style::<N>(),
            d@.default_run == crate::ir::style::empty_text_style::<N>(),
            d@.default_bullet == empty_bullet::<N>(),
            d@.levels == Map::<u32, LevelTextView<N>>::empty(),
    {
        let d = PptxTextBodyStyleDefaults {
            default_paragraph: ParagraphStyle::empty(),
            default_run: TextStyle::empty(),
            default_bullet: PptxBulletDefinition::empty(),
            levels: BTreeMap::new(),
        };
        assert(d@.levels =~= Map::<u32, LevelTextView<N>>::empty());
        d
    }

    /// The paragraph style of a level: the default one, with the level's
    /// laid over it where the level has a style.
    pub fn paragraph_style_for_level(&self, level: u32) -> (style: ParagraphStyle<N>)
        ensures
            style@ == if self@.levels.contains_key(level) {
                paragraph_style_overlay(self@.default_paragraph, self@.levels[level].paragraph)
            } else {
                self@.default_paragraph
            },
    {
        let mut style = self.default_paragraph.copy();
        if let Some(level_style) = self.levels.get(&level) {
            style.merge_from(&level_style.paragraph);
        }
        style
    }

    /// The run style of a level: the default one, with the level's laid
    /// over it where the level has a style.
    pub fn run_style_for_level(&self, level: u32) -> (style: TextStyle<N>)
        ensures
            style == if self@.levels.contains_key(level) {
                text_style_overlay(self@.default_run, self@.levels[level].run)
            } else {
                self@.default_run
            },
    {
        let mut style = self.default_run.copy();
        if let Some(level_style) = self.levels.get(&level) {
            style.merge_from(&level_style.run);
        }
        style
    }

    /// The bullet of a level: the default one, with the level's laid over
    /// it where the level has a style.
    pub fn bullet_for_level(&self, level: u32) -> (bullet: PptxBulletDefinition<N>)
        ensures
            bullet == if self@.levels.contains_key(level) {
                bullet_overlay(self@.default_bullet, self@.levels[level].bullet)
            } else {
                self@.default_bullet
            },
    {
        let mut bullet = self.default_bullet.copy();
        if let Some(level_style) = self.levels.get(&level) {
            merge_pptx_bullet_definition(&mut bullet, &level_style.bullet);
        }
        bullet
    }

    /// Apply a default text color (from a shape's `<p:style><a:fontRef>`)
    /// to the default run style and every level's run style: it takes
    /// precedence over inherited defaults.
    pub fn apply_default_color(&mut self, color: Color)
        ensures
            final(self)@ == (DefaultsView {
                default_run: TextStyle { color: Some(color), ..old(self)@.default_run },
                levels: levels_with_color(old(self)@.levels, color),
                ..old(self)@
            }),
    {
        let ghost before = self@;
        self.default_run.color = Some(color);
        let keys = level_keys(&self.levels);
        let mut i: usize = 0;
        while i < keys.len()
            invariant
                0 <= i <= keys@.len(),
                forall|k: u32| before.levels.contains_key(k) <==> keys@.contains(k),
                self@.levels.dom() == before.levels.dom(),
                self@.default_paragraph == before.default_paragraph,
                self@.default_run == (TextStyle { color: Some(color), ..before.default_run }),
                self@.default_bullet == before.default_bullet,
                forall|k: u32| #[trigger] self@.levels.contains_key(k) ==> self@.levels[k] == if keys@.take(i as int).contains(k) {
                    levels_with_color(before.levels, color)[k]
                } else {
                    before.levels[k]
                },
            decreases keys@.len() - i,
        {
            let k = keys[i];
            assert(keys@.contains(k));
            let ghost prev = self@.levels;
            let mut level = self.levels.get(&k).unwrap().copy();
            level.run.color = Some(color);
            let ghost new_level = level@;
            self.levels.insert(k, level);
            assert(self@.levels =~= prev.insert(k, new_level));
            assert(before.levels.contains_key(k));
            assert(new_level == levels_with_color(before.levels, color)[k]);
            assert(keys@.take(i + 1) =~= keys@.take(i as int).push(k));
            assert(keys@.take(i + 1)[i as int] == k);
            assert forall|j: u32| #[trigger] self@.levels.contains_key(j) implies self@.levels[j] == if keys@.take(i + 1).contains(j) {
                levels_with_color(before.levels, color)[j]
            } else {
                before.levels[j]
            } by {
                broadcast use vstd::seq_lib::group_seq_properties;
                if j != k {
                    assert(prev.contains_key(j));
                    assert(keys@.take(i + 1).contains(j) == keys@.take(i as int).contains(j));
                }
            }
            assert(self@.levels.dom() =~= before.levels.dom());
            i = i + 1;
        }
        assert(keys@.take(keys@.len() as int) =~= keys@);
        assert(self@.levels =~= levels_with_color(before.levels, color));
    }

    /// Lay other defaults over these.
    pub fn merge_from(&mut self, top: &PptxTextBodyStyleDefaults<N>)
        ensures
            final(self)@ == defaults_overlay(old(self)@, top@),
    {
        let ghost before = self@;
        self.default_paragraph.merge_from(&top.default_paragraph);
        self.default_run.merge_from(&top.default_run);
        merge_pptx_bullet_definition(&mut self.default_bullet, &top.default_bullet);
        let keys = level_keys(&top.levels);
        let ghost goal = defaults_overlay(before, top@);
        let mut i: usize = 0;
        while i < keys.len()
            invariant
                0 <= i <= keys@.len(),
                forall|k: u32| top@.levels.contains_key(k) <==> keys@.contains(k),
                self@.default_paragraph == goal.default_paragraph,
                self@.default_run == goal.default_run,
                self@.default_bullet == goal.default_bullet,
                goal == defaults_overlay(before, top@),
                forall|k: u32| self@.levels.contains_key(k) <==> (before.levels.contains_key(k) || keys@.take(i as int).contains(k)),
                forall|k: u32| #[trigger] self@.levels.contains_key(k) ==> self@.levels[k] == if keys@.take(i as int).contains(k) {
                    goal.levels[k]
                } else {
                    before.levels[k]
                },
            decreases keys@.len() - i,
        {
            let k = keys[i];
            assert(keys@.contains(k));
            let ghost prev = self@.levels;
            let top_level = top.levels.get(&k).unwrap();
            let mut level = match self.levels.get(&k) {
                Some(existing) => existing.copy(),
                None => PptxTextLevelStyle::empty(),
            };
            level.merge_from(top_level);
            let ghost new_level = level@;
            self.levels.insert(k, level);
            assert(self@.levels =~= prev.insert(k, new_level));
            assert(new_level == goal.levels[k]) by {
                if prev.contains_key(k) && keys@.take(i as int).contains(k) {
                    lemma_level_overlay_idempotent(level_or_empty(before.levels, k), top@.levels[k]);
                }
            }
            assert(keys@.take(i + 1) =~= keys@.take(i as int).push(k));
            assert(keys@.take(i + 1)[i as int] == k);
            assert forall|j: u32| #[trigger] self@.levels.contains_key(j) implies self@.levels[j] == if keys@.take(i + 1).contains(j) {
                goal.levels[j]
            } else {
                before.levels[j]
            } by {
                broadcast use vstd::seq_lib::group_seq_properties;
                if j != k {
                    assert(prev.contains_key(j));
                    assert(keys@.take(i + 1).contains(j) == keys@.take(i as int).contains(j));
                }
            }
            assert forall|j: u32| #[trigger] self@.levels.contains_key(j) <==> (before.levels.contains_key(j) || keys@.take(i + 1).contains(j)) by {
                broadcast use vstd::seq_lib::group_seq_properties;
                if j != k {
                    assert(keys@.take(i + 1).contains(j) == keys@.take(i as int).contains(j));
                    assert(self@.levels.contains_key(j) == prev.contains_key(j));
                }
            }
            let ghost next = keys@.take(i + 1);
            i = i + 1;
            assert(keys@.take(i as int) == next);
        }
        assert(keys@.take(keys@.len() as int) =~= keys@);
        assert(self@.levels =~= goal.levels);
    }
}

/// A master's text styles (`<p:txStyles>`): for titles, for body
/// placeholders, and for everything else.
#[derive(Debug, Clone)]
pub struct PptxMasterTextStyles<N> {
    pub title: PptxTextBodyStyleDefaults<N>,
    pub body: PptxTextBodyStyleDefaults<N>,
    pub other: PptxTextBodyStyleDefaults<N>,
}

impl<N: Copy> PptxMasterTextStyles<N> {
    /// Master text styles that set nothing.
    pub fn empty() -> (s: Self)
        ensures
            s.title@ == empty_defaults::<N>(),
            s.body@ == empty_defaults::<N>(),
            s.other@ == empty_defaults::<N>(),
    {
        PptxMasterTextStyles {
            title: PptxTextBodyStyleDefaults::empty(),
            body: PptxTextBodyStyleDefaults::empty(),
            other: PptxTextBodyStyleDefaults::empty(),
        }
    }
}

impl<N: Copy> PptxTextBodyStyleDefaults<N> {
    /// A copy of the defaults.
    pub fn copy(&self) -> (d: Self)
        ensures
            d@ == self@,
    {
        let mut d = PptxTextBodyStyleDefaults::empty();
        d.default_paragraph = self.default_paragraph.copy();
        d.default_run = self.default_run.copy();
        d.default_bullet = self.default_bullet.copy();
        let keys = level_keys(&self.levels);
        let mut i: usize = 0;
        while i < keys.len()
            invariant
                0 <= i <= keys@.len(),
                forall|k: u32| self@.levels.contains_key(k) <==> keys@.contains(k),
                d@.default_paragraph == self@.default_paragraph,
                d@.default_run == self@.default_run,
                d@.default_bullet == self@.default_bullet,
                forall|k: u32| d@.levels.contains_key(k) <==> keys@.take(i as int).contains(k),
                forall|k: u32| #[trigger] d@.levels.contains_key(k) ==> d@.levels[k] == self@.levels[k],
            decreases keys@.len() - i,
        {
            let k = keys[i];
            assert(keys@.contains(k));
            let ghost prev = d@.levels;
            let level = self.levels.get(&k).unwrap().copy();
            d.levels.insert(k, level);
            assert(d@.levels =~= prev.insert(k, self@.levels[k]));
            assert(keys@.take(i + 1) =~= keys@.take(i as int).push(k));
            assert(keys@.take(i + 1)[i as int] == k);
            assert forall|j: u32| #[trigger] d@.levels.contains_key(j) <==> keys@.take(i + 1).contains(j) by {
                broadcast use vstd::seq_lib::group_seq_properties;
                if j != k {
                    assert(keys@.take(i + 1).contains(j) == keys@.take(i as int).contains(j));
                }
            }
            let ghost next = keys@.take(i + 1);
            i = i + 1;
            assert(keys@.take(i as int) == next);
        }
        assert(keys@.take(keys@.len() as int) =~= keys@);
        assert forall|k: u32| #[trigger] d@.levels.contains_key(k) <==> self@.levels.contains_key(k) by {
            assert(d@.levels.contains_key(k) <==> keys@.take(i as int).contains(k));
        }
        assert(d@.levels =~= self@.levels);
        d
    }
}

/// Laying a level style over another twice is laying it once.
pub proof fn lemma_level_overlay_idempotent<N>(base: LevelTextView<N>, top: LevelTextView<N>)
    ensures
        level_overlay(level_overlay(base, top), top) == level_overlay(base, top),
{
    crate::ir::style::lemma_paragraph_style_overlay_associative(base.paragraph, top.paragraph, top.paragraph);
    crate::ir::style::lemma_paragraph_style_overlay_identity(top.paragraph);
    crate::ir::style::lemma_text_style_overlay_associative(base.run, top.run, top.run);
    crate::ir::style::lemma_text_style_overlay_identity(top.run);
}

/// Laying level styles over each other is associative.
pub proof fn lemma_level_overlay_associative<N>(a: LevelTextView<N>, b: LevelTextView<N>, c: LevelTextView<N>)
    ensures
        level_overlay(level_overlay(a, b), c) == level_overlay(a, level_overlay(b, c)),
{
    crate::ir::style::lemma_paragraph_style_overlay_associative(a.paragraph, b.paragraph, c.paragraph);
    crate::ir::style::lemma_text_style_overlay_associative(a.run, b.run, c.run);
}

/// The empty level style changes nothing laid under another.
pub proof fn lemma_level_overlay_empty<N>(a: LevelTextView<N>)
    ensures
        level_overlay(empty_level(), a) == a,
        level_overlay(a, empty_level()) == a,
{
    crate::ir::style::lemma_paragraph_style_overlay_identity(a.paragraph);
    crate::ir::style::lemma_text_style_overlay_identity(a.run);
}

/// Laying text body defaults over each other is associative: stacking the
/// master's bucket, the master placeholder's list style and the layout
/// placeholder's list style gives the same defaults however the layers are
/// grouped.
pub proof fn lemma_defaults_overlay_associative<N>(a: DefaultsView<N>, b: DefaultsView<N>, c: DefaultsView<N>)
    ensures
        defaults_overlay(defaults_overlay(a, b), c) == defaults_overlay(a, defaults_overlay(b, c)),
{
    let ab = defaults_overlay(a, b);
    let bc = defaults_overlay(b, c);
    let left = defaults_overlay(ab, c);
    let right = defaults_overlay(a, bc);
    crate::ir::style::lemma_paragraph_style_overlay_associative(a.default_paragraph, b.default_paragraph, c.default_paragraph);
    crate::ir::style::lemma_text_style_overlay_associative(a.default_run, b.default_run, c.default_run);
    assert forall|k: u32| #[trigger] left.levels.contains_key(k) implies left.levels[k] == right.levels[k] by {
        if c.levels.contains_key(k) {
            lemma_level_overlay_associative(level_or_empty(a.levels, k), level_or_empty(b.levels, k), c.levels[k]);
            lemma_level_overlay_empty(c.levels[k]);
            lemma_level_overlay_empty(level_or_empty(a.levels, k));
        }
    }
    assert(left.levels =~= right.levels);
}

/// Laying text body defaults over others twice is laying them once.
pub proof fn lemma_defaults_overlay_idempotent<N>(base: DefaultsView<N>, top: DefaultsView<N>)
    ensures
        defaults_overlay(defaults_overlay(base, top), top) == defaults_overlay(base, top),
{
    let once = defaults_overlay(base, top);
    let twice = defaults_overlay(once, top);
    crate::ir::style::lemma_paragraph_style_overlay_associative(base.default_paragraph, top.default_paragraph, top.default_paragraph);
    crate::ir::style::lemma_paragraph_style_overlay_identity(top.default_paragraph);
    crate::ir::style::lemma_text_style_overlay_associative(base.default_run, top.default_run, top.default_run);
    crate::ir::style::lemma_text_style_overlay_identity(top.default_run);
    assert forall|k: u32| #[trigger] twice.levels.contains_key(k) implies twice.levels[k] == once.levels[k] by {
        if top.levels.contains_key(k) {
            lemma_level_overlay_idempotent(level_or_empty(base.levels, k), top.levels[k]);
        }
    }
    assert(twice.levels =~= once.levels);
}

/// Defaults that set nothing.
pub open spec fn empty_defaults<N>() -> DefaultsView<N> {
    DefaultsView {
        default_paragraph: crate::ir::style::empty_paragraph_style(),
        default_run: crate::ir::style::empty_text_style(),
        default_bullet: empty_bullet(),
        levels: Map::empty(),
    }
}

/// Defaults that set nothing change nothing laid over others.
pub proof fn lemma_defaults_overlay_identity<N>(a: DefaultsView<N>)
    ensures
        defaults_overlay(a, empty_defaults()) == a,
{
    assert(defaults_overlay(a, empty_defaults()).levels =~= a.levels);
}
} // verus!
