//! Word list numbering: resolving numbering definitions into per-level list
//! styles.

use std::collections::BTreeMap;

use vstd::prelude::*;

use crate::ir::elements::{ListKind, ListLevelStyle};
use crate::text_util::opt_chars;
use crate::ir::style::{ParagraphStyle, ParagraphStyleView};
use crate::text_util::{chars_of, digits_value, has_prefix, has_suffix, is_ascii_lower, is_ascii_upper, str_eq, string_of};

verus! {

broadcast use {vstd::std_specs::btree::group_btree_axioms, vstd::laws_cmp::group_laws_cmp};

/// A numbering level as written in the document, before resolution.
#[derive(Debug, Clone)]
pub struct RawListLevel<N> {
    pub start: u32,
    /// Word's `numFmt` value (`decimal`, `bullet`, `lowerRoman`, ...).
    pub number_format: String,
    /// Word's `lvlText` value (`%1.`, `•`, ...).
    pub level_text: String,
    pub paragraph_style: ParagraphStyle<N>,
    pub has_start_override: bool,
}

/// The values a raw list level holds.
pub ghost struct RawListLevelView<N> {
    pub start: u32,
    pub number_format: Seq<char>,
    pub level_text: Seq<char>,
    pub paragraph_style: ParagraphStyleView<N>,
    pub has_start_override: bool,
}

impl<N> View for RawListLevel<N> {
    type V = RawListLevelView<N>;

    open spec fn view(&self) -> RawListLevelView<N> {
        RawListLevelView {
            start: self.start,
            number_format: self.number_format@,
            level_text: self.level_text@,
            paragraph_style: self.paragraph_style@,
            has_start_override: self.has_start_override,
        }
    }
}

/// The values of a map of raw levels.
pub open spec fn raw_levels_view<N>(levels: Map<u32, RawListLevel<N>>) -> Map<u32, RawListLevelView<N>> {
    levels.map_values(|level: RawListLevel<N>| level@)
}

/// `bullet` levels are unordered; every other number format is ordered.
pub open spec fn spec_level_kind(number_format: Seq<char>) -> ListKind {
    if number_format == "bullet"@ {
        ListKind::Unordered
    } else {
        ListKind::Ordered
    }
}

/// The Typst counter symbol of a Word number format, where there is one.
pub open spec fn spec_counter_symbol(number_format: Seq<char>) -> Option<Seq<char>> {
    if number_format == "decimal"@ || number_format == "decimalZero"@ {
        Some("1"@)
    } else if number_format == "lowerLetter"@ {
        Some("a"@)
    } else if number_format == "upperLetter"@ {
        Some("A"@)
    } else if number_format == "lowerRoman"@ {
        Some("i"@)
    } else if number_format == "upperRoman"@ {
        Some("I"@)
    } else {
        None
    }
}

pub fn level_kind(number_format: &str) -> (kind: ListKind)
    ensures
        kind == spec_level_kind(number_format@),
{
    if str_eq(number_format, "bullet") {
        ListKind::Unordered
    } else {
        ListKind::Ordered
    }
}

pub fn typst_counter_symbol(number_format: &str) -> (symbol: Option<&'static str>)
    ensures
        match symbol {
            Some(s) => spec_counter_symbol(number_format@) == Some(s@),
            None => spec_counter_symbol(number_format@) is None,
        },
{
    if str_eq(number_format, "decimal") || str_eq(number_format, "decimalZero") {
        Some("1")
    } else if str_eq(number_format, "lowerLetter") {
        Some("a")
    } else if str_eq(number_format, "upperLetter") {
        Some("A")
    } else if str_eq(number_format, "lowerRoman") {
        Some("i")
    } else if str_eq(number_format, "upperRoman") {
        Some("I")
    } else {
        None
    }
}

pub open spec fn is_digit(c: char) -> bool {
    '0' <= c <= '9'
}

/// The number of consecutive ASCII digits of `text` from `i` on.
pub open spec fn digit_run_len(text: Seq<char>, i: int) -> nat
    decreases text.len() - i,
{
    if 0 <= i < text.len() && is_digit(text[i]) {
        1 + digit_run_len(text, i + 1)
    } else {
        0
    }
}

/// The Typst numbering pattern for `text[i..]`: each `%n` placeholder is
/// replaced by the counter symbol of level `n - 1`, every other character is
/// kept. Also whether the current level and a parent level were referenced.
/// None when a placeholder names a level that is missing, is not a `u32`
/// greater than zero, or has no counter symbol.
pub open spec fn spec_pattern_from<N>(
    text: Seq<char>,
    i: int,
    current_level: u32,
    levels: Map<u32, RawListLevelView<N>>,
) -> Option<(Seq<char>, bool, bool)>
    decreases text.len() - i,
{
    if i < 0 || i >= text.len() {
        Some((Seq::empty(), false, false))
    } else if text[i] == '%' && digit_run_len(text, i + 1) > 0 {
        let n = digit_run_len(text, i + 1);
        let value = digits_value(text.subrange(i + 1, i + 1 + n));
        if i + 1 + n > text.len() || value == 0 || value > u32::MAX {
            None
        } else {
            let referenced = (value - 1) as u32;
            if !levels.contains_key(referenced) {
                None
            } else {
                match spec_counter_symbol(levels[referenced].number_format) {
                    None => None,
                    Some(symbol) => match spec_pattern_from(
                        text,
                        i + 1 + n,
                        current_level,
                        levels,
                    ) {
                        Some((rest, cur, parent)) => Some(
                            (
                                symbol + rest,
                                cur || referenced == current_level,
                                parent || (referenced != current_level && referenced
                                    < current_level),
                            ),
                        ),
                        None => None,
                    },
                }
            }
        }
    } else {
        match spec_pattern_from(text, i + 1, current_level, levels) {
            Some((rest, cur, parent)) => Some((seq![text[i]] + rest, cur, parent)),
            None => None,
        }
    }
}

/// The Typst numbering pattern of a Word level text, and whether it shows
/// parent numbers: when the text never references the current level, the
/// current level's counter symbol is put in front.
pub open spec fn spec_numbering_pattern<N>(
    level_text: Seq<char>,
    current_level: u32,
    levels: Map<u32, RawListLevelView<N>>,
) -> Option<(Seq<char>, bool)> {
    match spec_pattern_from(level_text, 0, current_level, levels) {
        None => None,
        Some((pattern, saw_current, saw_parent)) => if saw_current {
            Some((pattern, saw_parent))
        } else if !levels.contains_key(current_level) {
            None
        } else {
            match spec_counter_symbol(levels[current_level].number_format) {
                Some(symbol) => Some((symbol + pattern, saw_parent)),
                None => None,
            }
        },
    }
}

proof fn lemma_digit_run_len(text: Seq<char>, a: int, j: int)
    requires
        0 <= a <= j <= text.len(),
        forall|k: int| a <= k < j ==> is_digit(#[trigger] text[k]),
        j == text.len() || !is_digit(text[j]),
    ensures
        digit_run_len(text, a) == j - a,
    decreases j - a,
{
    if a < j {
        lemma_digit_run_len(text, a + 1, j);
    }
}

/// Reads the run of digits after a `%` at `i`: its length, its value if it
/// fits a `u32`, and whether it does not.
fn scan_digits(text: &Vec<char>, start: usize) -> (res: (usize, u64, bool))
    requires
        start <= text@.len(),
    ensures
        res.0 >= start,
        res.0 - start == digit_run_len(text@, start as int),
        res.0 <= text@.len(),
        !res.2 ==> res.1 == digits_value(text@.subrange(start as int, res.0 as int)),
        !res.2 ==> res.1 <= u32::MAX,
        res.2 ==> digits_value(text@.subrange(start as int, res.0 as int)) > u32::MAX,
{
    let mut j: usize = start;
    let mut value: u64 = 0;
    let mut overflow: bool = false;
    assert(text@.subrange(start as int, start as int) =~= Seq::<char>::empty());
    while j < text.len() && ('0' <= text[j] && text[j] <= '9')
        invariant
            start <= j <= text@.len(),
            forall|k: int| start <= k < j ==> is_digit(#[trigger] text@[k]),
            !overflow ==> value == digits_value(text@.subrange(start as int, j as int)),
            !overflow ==> value <= u32::MAX,
            overflow ==> digits_value(text@.subrange(start as int, j as int)) > u32::MAX,
        decreases text@.len() - j,
    {
        let d = text[j];
        let ghost prev = text@.subrange(start as int, j as int);
        assert(text@.subrange(start as int, j + 1).drop_last() =~= prev);
        assert(text@.subrange(start as int, j + 1).last() == d);
        if !overflow {
            let digit: u64 = ((d as u32) - ('0' as u32)) as u64;
            value = value * 10 + digit;
            if value > 4294967295u64 {
                overflow = true;
            }
        }
        j = j + 1;
    }
    proof {
        lemma_digit_run_len(text@, start as int, j as int);
    }
    (j, value, overflow)
}

/// Exec form of `spec_pattern_from`.
fn pattern_from<N>(
    text: &Vec<char>,
    i: usize,
    current_level: u32,
    levels: &BTreeMap<u32, RawListLevel<N>>,
) -> (res: Option<(Vec<char>, bool, bool)>)
    requires
        i <= text@.len(),
    ensures
        match res {
            Some((p, c, q)) => spec_pattern_from(text@, i as int, current_level, raw_levels_view(levels@)) == Some(
                (p@, c, q),
            ),
            None => spec_pattern_from(text@, i as int, current_level, raw_levels_view(levels@)) is None,
        },
    decreases text@.len() - i,
{
    if i >= text.len() {
        return Some((Vec::new(), false, false));
    }
    let ch = text[i];
    let mut head: Vec<char> = Vec::new();
    let next: usize;
    let mut saw_current: bool = false;
    let mut saw_parent: bool = false;
    if ch == '%' {
        let (end, value, overflow) = scan_digits(text, i + 1);
        if end == i + 1 {
            head.push('%');
            next = i + 1;
        } else {
            if overflow || value == 0 {
                return None;
            }
            let referenced: u32 = (value - 1) as u32;
            let level = match levels.get(&referenced) {
                Some(level) => level,
                None => {
                    return None;
                },
            };
            let symbol = match typst_counter_symbol(level.number_format.as_str()) {
                Some(symbol) => symbol,
                None => {
                    return None;
                },
            };
            head = chars_of(symbol);
            if referenced == current_level {
                saw_current = true;
            } else if referenced < current_level {
                saw_parent = true;
            }
            next = end;
        }
    } else {
        head.push(ch);
        next = i + 1;
    }
    match pattern_from(text, next, current_level, levels) {
        None => None,
        Some((mut rest, cur, parent)) => {
            let ghost rest_view = rest@;
            head.append(&mut rest);
            Some((head, saw_current || cur, saw_parent || parent))
        },
    }
}

/// Translate Word's level text (e.g. `%1.%2.`) into a Typst numbering
/// pattern, and report whether parent levels are shown.
pub fn build_typst_numbering_pattern<N>(
    level_text: &str,
    current_level: u32,
    levels: &BTreeMap<u32, RawListLevel<N>>,
) -> (res: Option<(String, bool)>)
    ensures
        match res {
            Some((p, full)) => spec_numbering_pattern(level_text@, current_level, raw_levels_view(levels@)) == Some(
                (p@, full),
            ),
            None => spec_numbering_pattern(level_text@, current_level, raw_levels_view(levels@)) is None,
        },
{
    let text: Vec<char> = chars_of(level_text);
    let (mut pattern, saw_current, saw_parent) = match pattern_from(&text, 0, current_level, levels) {
        Some(r) => r,
        None => {
            return None;
        },
    };
    if !saw_current {
        let current = match levels.get(&current_level) {
            Some(level) => level,
            None => {
                return None;
            },
        };
        let symbol = match typst_counter_symbol(current.number_format.as_str()) {
            Some(symbol) => symbol,
            None => {
                return None;
            },
        };
        let mut with_symbol: Vec<char> = chars_of(symbol);
        with_symbol.append(&mut pattern);
        pattern = with_symbol;
    }
    Some((string_of(pattern.as_slice()), saw_parent))
}

/// A numbering level definition (`w:lvl`) as read from the document.
#[derive(Debug, Clone)]
pub struct LevelDefinition<N> {
    /// The level index (`w:ilvl`).
    pub level: usize,
    pub start: u32,
    pub number_format: String,
    pub level_text: String,
    pub paragraph_style: ParagraphStyle<N>,
}

/// An abstract numbering definition (`w:abstractNum`).
#[derive(Debug, Clone)]
pub struct AbstractNumbering<N> {
    pub id: usize,
    pub levels: Vec<LevelDefinition<N>>,
}

/// A level override of a numbering instance (`w:lvlOverride`).
#[derive(Debug, Clone)]
pub struct LevelOverride<N> {
    pub level: usize,
    pub override_level: Option<LevelDefinition<N>>,
    pub override_start: Option<usize>,
}

/// A numbering instance (`w:num`) referring to an abstract definition.
#[derive(Debug, Clone)]
pub struct NumberingDefinition<N> {
    pub id: usize,
    pub abstract_num_id: usize,
    pub level_overrides: Vec<LevelOverride<N>>,
}

/// All numbering definitions of a document (`word/numbering.xml`).
#[derive(Debug, Clone)]
pub struct Numberings<N> {
    pub abstract_nums: Vec<AbstractNumbering<N>>,
    pub numberings: Vec<NumberingDefinition<N>>,
}

/// A list level after resolution.
#[derive(Debug, Clone)]
pub struct ResolvedListLevel<N> {
    pub style: ListLevelStyle<N>,
    pub paragraph_style: ParagraphStyle<N>,
    pub start: u32,
    pub has_start_override: bool,
}

/// A numbering instance after resolution: its abstract definition and its
/// levels.
#[derive(Debug, Clone)]
pub struct ResolvedNumbering<N> {
    pub abstract_num_id: usize,
    pub levels: BTreeMap<u32, ResolvedListLevel<N>>,
}

/// The resolved numbering of each numbering id.
pub type NumberingMap<N> = BTreeMap<usize, ResolvedNumbering<N>>;

/// The decimal digits of a number.
pub open spec fn decimal_chars(n: nat) -> Seq<char>
    decreases n,
{
    if n < 10 {
        seq![(n + '0' as nat) as char]
    } else {
        decimal_chars(n / 10).push(((n % 10) + '0' as nat) as char)
    }
}

/// The decimal digits of a number.
pub fn decimal_digits(n: u64) -> (digits: Vec<char>)
    ensures
        digits@ == decimal_chars(n as nat),
    decreases n,
{
    if n < 10 {
        let mut v: Vec<char> = Vec::new();
        v.push(((n as u32) + ('0' as u32)) as u8 as char);
        v
    } else {
        let mut v = decimal_digits(n / 10);
        v.push((((n % 10) as u32) + ('0' as u32)) as u8 as char);
        v
    }
}

/// The raw level of a level definition.
pub open spec fn definition_view<N>(d: LevelDefinition<N>, has_start_override: bool) -> RawListLevelView<N> {
    RawListLevelView {
        start: d.start,
        number_format: d.number_format@,
        level_text: d.level_text@,
        paragraph_style: d.paragraph_style@,
        has_start_override,
    }
}

/// The first abstract numbering with the given id.
pub open spec fn find_abstract<N>(abstract_nums: Seq<AbstractNumbering<N>>, id: usize) -> Option<AbstractNumbering<N>>
    decreases abstract_nums.len(),
{
    if abstract_nums.len() == 0 {
        None
    } else if abstract_nums[0].id == id {
        Some(abstract_nums[0])
    } else {
        find_abstract(abstract_nums.drop_first(), id)
    }
}

/// The levels of an abstract numbering by index; a later definition of the
/// same index replaces an earlier one.
pub open spec fn abstract_levels<N>(defs: Seq<LevelDefinition<N>>) -> Map<u32, RawListLevelView<N>>
    decreases defs.len(),
{
    if defs.len() == 0 {
        Map::empty()
    } else {
        abstract_levels(defs.drop_last()).insert(
            defs.last().level as u32,
            definition_view(defs.last(), false),
        )
    }
}

/// The level that a start override alone creates: decimal numbering
/// `%n.` from the given start.
pub open spec fn start_only_level<N>(index: u32, start: usize) -> RawListLevelView<N> {
    RawListLevelView {
        start: start as u32,
        number_format: "decimal"@,
        level_text: seq!['%'] + decimal_chars(index as nat + 1) + seq!['.'],
        paragraph_style: crate::ir::style::empty_paragraph_style(),
        has_start_override: true,
    }
}

/// The levels after one override: a replacement level, then a new start.
pub open spec fn apply_override<N>(levels: Map<u32, RawListLevelView<N>>, o: LevelOverride<N>) -> Map<u32, RawListLevelView<N>> {
    let index = o.level as u32;
    let replaced = match o.override_level {
        Some(d) => levels.insert(index, definition_view(d, true)),
        None => levels,
    };
    match o.override_start {
        Some(start) => if replaced.contains_key(index) {
            let l = replaced[index];
            replaced.insert(
                index,
                RawListLevelView {
                    start: start as u32,
                    number_format: l.number_format,
                    level_text: l.level_text,
                    paragraph_style: l.paragraph_style,
                    has_start_override: true,
                },
            )
        } else {
            replaced.insert(index, start_only_level(index, start))
        },
        None => replaced,
    }
}

/// The levels after all overrides, in order.
pub open spec fn apply_overrides<N>(levels: Map<u32, RawListLevelView<N>>, overrides: Seq<LevelOverride<N>>) -> Map<u32, RawListLevelView<N>>
    decreases overrides.len(),
{
    if overrides.len() == 0 {
        levels
    } else {
        apply_override(apply_overrides(levels, overrides.drop_last()), overrides.last())
    }
}

/// The raw levels of a numbering instance: those of its abstract numbering
/// (none if the abstract numbering is missing) with its overrides applied.
pub open spec fn spec_raw_levels<N>(num: NumberingDefinition<N>, abstract_nums: Seq<AbstractNumbering<N>>) -> Map<u32, RawListLevelView<N>> {
    apply_overrides(base_levels(num, abstract_nums), num.level_overrides@)
}

/// The levels of a numbering instance before its overrides: those of its
/// abstract numbering (none if the abstract numbering is missing).
pub open spec fn base_levels<N>(num: NumberingDefinition<N>, abstract_nums: Seq<AbstractNumbering<N>>) -> Map<u32, RawListLevelView<N>> {
    match find_abstract(abstract_nums, num.abstract_num_id) {
        Some(a) => abstract_levels(a.levels@),
        None => Map::empty(),
    }
}

/// The numbering pattern and whether parent numbers show, for a level.
pub open spec fn spec_level_pattern<N>(index: u32, raw: Map<u32, RawListLevelView<N>>) -> (Option<Seq<char>>, bool) {
    if spec_level_kind(raw[index].number_format) == ListKind::Ordered {
        match spec_numbering_pattern(raw[index].level_text, index, raw) {
            Some((p, full)) => (Some(p), full),
            None => (None, false),
        }
    } else {
        (None, false)
    }
}

/// `level` is the resolution of level `index` of the raw levels: its kind
/// from the number format, the Typst pattern of ordered levels, the bullet
/// text of unordered levels that have one, and the raw start, paragraph
/// style and start-override flag.
pub open spec fn resolved_level_ok<N>(level: ResolvedListLevel<N>, index: u32, raw: Map<u32, RawListLevelView<N>>) -> bool {
    let l = raw[index];
    let kind = spec_level_kind(l.number_format);
    &&& level.style.kind == kind
    &&& opt_chars(level.style.numbering_pattern) == spec_level_pattern(index, raw).0
    &&& level.style.full_numbering == spec_level_pattern(index, raw).1
    &&& opt_chars(level.style.marker_text) == (if kind == ListKind::Unordered && l.level_text.len() > 0 {
        Some(l.level_text)
    } else {
        None
    })
    &&& level.style.marker_style is None
    &&& level.paragraph_style@ == l.paragraph_style
    &&& level.start == l.start
    &&& level.has_start_override == l.has_start_override
}

/// `r` is the resolution of numbering instance `num`.
pub open spec fn resolved_numbering_ok<N>(r: ResolvedNumbering<N>, num: NumberingDefinition<N>, abstract_nums: Seq<AbstractNumbering<N>>) -> bool {
    let raw = spec_raw_levels(num, abstract_nums);
    &&& r.abstract_num_id == num.abstract_num_id
    &&& r.levels@.dom() == raw.dom()
    &&& forall|k: u32| #[trigger] r.levels@.contains_key(k) ==> resolved_level_ok(r.levels@[k], k, raw)
}

/// No override after position `k` names the same level as the one at `k`.
pub open spec fn last_override_of_its_level<N>(overrides: Seq<LevelOverride<N>>, k: int) -> bool {
    forall|j: int| k < j < overrides.len() ==> (#[trigger] overrides[j]).level as u32 != overrides[k].level as u32
}

proof fn lemma_last_start_override<N>(base: Map<u32, RawListLevelView<N>>, overrides: Seq<LevelOverride<N>>, k: int)
    requires
        0 <= k < overrides.len(),
        overrides[k].override_start is Some,
        last_override_of_its_level(overrides, k),
    ensures
        apply_overrides(base, overrides).contains_key(overrides[k].level as u32),
        apply_overrides(base, overrides)[overrides[k].level as u32].start == overrides[k].override_start->0 as u32,
        apply_overrides(base, overrides)[overrides[k].level as u32].has_start_override,
    decreases overrides.len(),
{
    let prev = overrides.drop_last();
    if k < overrides.len() - 1 {
        assert forall|j: int| k < j < prev.len() implies (#[trigger] prev[j]).level as u32 != prev[k].level as u32 by {
            assert(prev[j] == overrides[j]);
        }
        lemma_last_start_override(base, prev, k);
        assert(overrides.last().level as u32 != overrides[k].level as u32);
        assert(prev[k] == overrides[k]);
    }
}

/// A level whose last override sets a start number starts there, and is
/// marked as restarting, whether the abstract numbering defines the level
/// or the override creates it.
pub proof fn lemma_start_override_resolves<N>(
    r: ResolvedNumbering<N>,
    num: NumberingDefinition<N>,
    abstract_nums: Seq<AbstractNumbering<N>>,
    k: int,
)
    requires
        resolved_numbering_ok(r, num, abstract_nums),
        0 <= k < num.level_overrides@.len(),
        num.level_overrides@[k].override_start is Some,
        last_override_of_its_level(num.level_overrides@, k),
    ensures
        r.levels@.contains_key(num.level_overrides@[k].level as u32),
        r.levels@[num.level_overrides@[k].level as u32].start == num.level_overrides@[k].override_start->0 as u32,
        r.levels@[num.level_overrides@[k].level as u32].has_start_override,
{
    lemma_last_start_override(base_levels(num, abstract_nums), num.level_overrides@, k);
}

/// No start-only override has to create a level at the last level index,
/// where its level text `%n.` cannot be written (computing `n` overflows):
/// one there finds the level already present.
pub open spec fn overrides_well_indexed<N>(num: NumberingDefinition<N>, abstract_nums: Seq<AbstractNumbering<N>>) -> bool {
    forall|i: int|
        0 <= i < num.level_overrides@.len() && (#[trigger] num.level_overrides@[i]).override_start is Some
            && num.level_overrides@[i].override_level is None && num.level_overrides@[i].level as u32 == u32::MAX
            ==> apply_overrides(base_levels(num, abstract_nums), num.level_overrides@.take(i)).contains_key(u32::MAX)
}

/// The abstract numbering defines a level at this index.
pub open spec fn defines_level<N>(defs: Seq<LevelDefinition<N>>, k: u32) -> bool {
    exists|i: int| 0 <= i < defs.len() && (#[trigger] defs[i]).level as u32 == k
}

/// Some override replaces the level at this index or sets its start.
pub open spec fn overrides_level<N>(overrides: Seq<LevelOverride<N>>, k: u32) -> bool {
    exists|i: int|
        0 <= i < overrides.len() && (#[trigger] overrides[i]).level as u32 == k && (overrides[i].override_level is Some
            || overrides[i].override_start is Some)
}

proof fn lemma_abstract_levels_keys<N>(defs: Seq<LevelDefinition<N>>, k: u32)
    ensures
        abstract_levels(defs).contains_key(k) <==> defines_level(defs, k),
    decreases defs.len(),
{
    if defs.len() > 0 {
        let prev = defs.drop_last();
        lemma_abstract_levels_keys(prev, k);
        if defines_level(prev, k) {
            let i = choose|i: int| 0 <= i < prev.len() && (#[trigger] prev[i]).level as u32 == k;
            assert(defs[i] == prev[i]);
        }
        if defines_level(defs, k) {
            let i = choose|i: int| 0 <= i < defs.len() && (#[trigger] defs[i]).level as u32 == k;
            if i < defs.len() - 1 {
                assert(prev[i] == defs[i]);
            }
        }
    }
}

proof fn lemma_apply_overrides_keys<N>(base: Map<u32, RawListLevelView<N>>, overrides: Seq<LevelOverride<N>>, k: u32)
    ensures
        apply_overrides(base, overrides).contains_key(k) <==> base.contains_key(k) || overrides_level(overrides, k),
    decreases overrides.len(),
{
    if overrides.len() > 0 {
        let prev = overrides.drop_last();
        lemma_apply_overrides_keys(base, prev, k);
        if overrides_level(prev, k) {
            let i = choose|i: int|
                0 <= i < prev.len() && (#[trigger] prev[i]).level as u32 == k && (prev[i].override_level is Some
                    || prev[i].override_start is Some);
            assert(overrides[i] == prev[i]);
        }
        if overrides_level(overrides, k) {
            let i = choose|i: int|
                0 <= i < overrides.len() && (#[trigger] overrides[i]).level as u32 == k && (overrides[i].override_level is Some
                    || overrides[i].override_start is Some);
            if i < overrides.len() - 1 {
                assert(prev[i] == overrides[i]);
            }
        }
    }
}

/// What resolving a numbering instance gives: its abstract numbering's id;
/// a level at exactly the indices its abstract numbering defines (none if
/// that is missing) and those an override replaces or restarts; ordered
/// levels with no bullet text, unordered ones with no numbering pattern and
/// with their level text as bullet where it is not empty.
pub proof fn lemma_resolved_numbering_levels<N>(
    r: ResolvedNumbering<N>,
    num: NumberingDefinition<N>,
    abstract_nums: Seq<AbstractNumbering<N>>,
)
    requires
        resolved_numbering_ok(r, num, abstract_nums),
    ensures
        r.abstract_num_id == num.abstract_num_id,
        forall|k: u32|
            #[trigger] r.levels@.contains_key(k) <==> (match find_abstract(abstract_nums, num.abstract_num_id) {
                Some(a) => defines_level(a.levels@, k),
                None => false,
            } || overrides_level(num.level_overrides@, k)),
        forall|k: u32|
            #![trigger r.levels@[k]]
            r.levels@.contains_key(k) && r.levels@[k].style.kind == ListKind::Ordered ==> r.levels@[k].style.marker_text
                is None,
        forall|k: u32|
            #![trigger r.levels@[k]]
            r.levels@.contains_key(k) && r.levels@[k].style.kind == ListKind::Unordered ==> r.levels@[k].style.numbering_pattern
                is None && opt_chars(r.levels@[k].style.marker_text) == (if spec_raw_levels(num, abstract_nums)[k].level_text.len()
                > 0 {
                Some(spec_raw_levels(num, abstract_nums)[k].level_text)
            } else {
                None
            }),
{
    let raw = spec_raw_levels(num, abstract_nums);
    assert forall|k: u32|
        #[trigger] r.levels@.contains_key(k) <==> (match find_abstract(abstract_nums, num.abstract_num_id) {
            Some(a) => defines_level(a.levels@, k),
            None => false,
        } || overrides_level(num.level_overrides@, k)) by {
        lemma_apply_overrides_keys(base_levels(num, abstract_nums), num.level_overrides@, k);
        match find_abstract(abstract_nums, num.abstract_num_id) {
            Some(a) => lemma_abstract_levels_keys(a.levels@, k),
            None => {},
        }
        assert(r.levels@.contains_key(k) <==> raw.contains_key(k));
    }
    assert forall|k: u32|
        #![trigger r.levels@[k]]
        r.levels@.contains_key(k) && r.levels@[k].style.kind == ListKind::Ordered implies r.levels@[k].style.marker_text
            is None by {
        assert(resolved_level_ok(r.levels@[k], k, raw));
        if r.levels@[k].style.marker_text is Some {
            assert(opt_chars(r.levels@[k].style.marker_text) is Some);
        }
    }
    assert forall|k: u32|
        #![trigger r.levels@[k]]
        r.levels@.contains_key(k) && r.levels@[k].style.kind == ListKind::Unordered implies r.levels@[k].style.numbering_pattern
            is None && opt_chars(r.levels@[k].style.marker_text) == (if raw[k].level_text.len() > 0 {
            Some(raw[k].level_text)
        } else {
            None
        }) by {
        assert(resolved_level_ok(r.levels@[k], k, raw));
        if r.levels@[k].style.numbering_pattern is Some {
            assert(opt_chars(r.levels@[k].style.numbering_pattern) is Some);
        }
    }
}

proof fn lemma_decimal_chars(n: nat)
    ensures
        decimal_chars(n).len() > 0,
        forall|k: int| 0 <= k < decimal_chars(n).len() ==> is_digit(#[trigger] decimal_chars(n)[k]),
        digits_value(decimal_chars(n)) == n,
    decreases n,
{
    let d = decimal_chars(n);
    if n < 10 {
        assert(d.drop_last() =~= Seq::<char>::empty());
        assert(digits_value(d.drop_last()) == 0);
        assert(((n + '0' as nat) as char) as int == n + '0' as int);
        assert(d.last() == ((n + '0' as nat) as char));
    } else {
        lemma_decimal_chars(n / 10);
        assert(d.drop_last() =~= decimal_chars(n / 10));
        assert((((n % 10) + '0' as nat) as char) as int == (n % 10) + '0' as int);
        assert(d.last() == (((n % 10) + '0' as nat) as char));
        assert(digits_value(d) == (n / 10) * 10 + (n % 10));
        assert forall|k: int| 0 <= k < d.len() implies is_digit(#[trigger] d[k]) by {
            if k < d.len() - 1 {
                assert(d[k] == decimal_chars(n / 10)[k]);
            }
        }
    }
}

proof fn lemma_last_override_value<N>(base: Map<u32, RawListLevelView<N>>, overrides: Seq<LevelOverride<N>>, k: int)
    requires
        0 <= k < overrides.len(),
        last_override_of_its_level(overrides, k),
    ensures
        apply_overrides(base, overrides).contains_key(overrides[k].level as u32) == apply_overrides(base, overrides.take(k + 1)).contains_key(
            overrides[k].level as u32,
        ),
        apply_overrides(base, overrides)[overrides[k].level as u32] == apply_overrides(base, overrides.take(k + 1))[overrides[k].level as u32],
    decreases overrides.len(),
{
    if k < overrides.len() - 1 {
        let prev = overrides.drop_last();
        assert forall|j: int| k < j < prev.len() implies (#[trigger] prev[j]).level as u32 != prev[k].level as u32 by {
            assert(prev[j] == overrides[j]);
        }
        lemma_last_override_value(base, prev, k);
        assert(prev.take(k + 1) =~= overrides.take(k + 1));
        assert(overrides.last().level as u32 != overrides[k].level as u32);
    } else {
        assert(overrides.take(k + 1) =~= overrides);
    }
}

/// A level that only a start override creates (its level is defined
/// neither by the abstract numbering nor by an earlier override, and no
/// later override names it) is an ordered decimal level `%n.`: its Typst
/// pattern is `1.` without parent numbers, and it starts at the override's
/// start.
pub proof fn lemma_start_only_level_is_decimal<N>(
    r: ResolvedNumbering<N>,
    num: NumberingDefinition<N>,
    abstract_nums: Seq<AbstractNumbering<N>>,
    k: int,
)
    requires
        resolved_numbering_ok(r, num, abstract_nums),
        0 <= k < num.level_overrides@.len(),
        num.level_overrides@[k].override_start is Some,
        num.level_overrides@[k].override_level is None,
        last_override_of_its_level(num.level_overrides@, k),
        !apply_overrides(base_levels(num, abstract_nums), num.level_overrides@.take(k)).contains_key(
            num.level_overrides@[k].level as u32,
        ),
        (num.level_overrides@[k].level as u32) < u32::MAX,
    ensures
        r.levels@.contains_key(num.level_overrides@[k].level as u32),
        r.levels@[num.level_overrides@[k].level as u32].style.kind == ListKind::Ordered,
        opt_chars(r.levels@[num.level_overrides@[k].level as u32].style.numbering_pattern) == Some("1."@),
        !r.levels@[num.level_overrides@[k].level as u32].style.full_numbering,
        r.levels@[num.level_overrides@[k].level as u32].start == num.level_overrides@[k].override_start->0 as u32,
        r.levels@[num.level_overrides@[k].level as u32].has_start_override,
{
    let overrides = num.level_overrides@;
    let o = overrides[k];
    let l = o.level as u32;
    let base = base_levels(num, abstract_nums);
    let raw = spec_raw_levels(num, abstract_nums);
    lemma_last_override_value(base, overrides, k);
    assert(overrides.take(k + 1).drop_last() =~= overrides.take(k));
    assert(overrides.take(k + 1).last() == o);
    let start = o.override_start->0;
    assert(raw[l] == start_only_level::<N>(l, start));
    assert(resolved_level_ok(r.levels@[l], l, raw));
    reveal_strlit("decimal");
    reveal_strlit("bullet");
    reveal_strlit("decimalZero");
    reveal_strlit("1");
    reveal_strlit("1.");
    assert(raw[l].number_format == "decimal"@);
    assert("decimal"@ != "bullet"@) by {
        assert("decimal"@.len() != "bullet"@.len());
    }
    assert(spec_level_kind(raw[l].number_format) == ListKind::Ordered);
    let d = decimal_chars(l as nat + 1);
    lemma_decimal_chars(l as nat + 1);
    let text = seq!['%'] + d + seq!['.'];
    assert(raw[l].level_text == text);
    let m: int = d.len() as int;
    assert forall|j: int| 1 <= j < 1 + m implies is_digit(#[trigger] text[j]) by {
        assert(text[j] == d[j - 1]);
    }
    assert(text[1 + m] == '.');
    lemma_digit_run_len(text, 1, 1 + m);
    assert(text.subrange(1, 1 + m) =~= d);
    assert(spec_counter_symbol(raw[l].number_format) == Some("1"@));
    let tail = spec_pattern_from(text, 1 + m, l, raw);
    assert(spec_pattern_from(text, 2 + m, l, raw) == Some((Seq::<char>::empty(), false, false)));
    assert(tail == Some((seq!['.'] + Seq::<char>::empty(), false, false)));
    assert(spec_pattern_from(text, 0, l, raw) == Some(("1"@ + (seq!['.'] + Seq::<char>::empty()), true, false)));
    assert("1"@ + (seq!['.'] + Seq::<char>::empty()) =~= "1."@);
}

fn raw_from_definition<N: Copy>(d: &LevelDefinition<N>, has_start_override: bool) -> (raw: RawListLevel<N>)
    ensures
        raw@ == definition_view(*d, has_start_override),
{
    RawListLevel {
        start: d.start,
        number_format: d.number_format.clone(),
        level_text: d.level_text.clone(),
        paragraph_style: d.paragraph_style.copy(),
        has_start_override,
    }
}

/// The position of the first abstract numbering with the given id.
fn find_abstract_index<N>(abstract_nums: &Vec<AbstractNumbering<N>>, id: usize) -> (found: Option<usize>)
    ensures
        match found {
            Some(i) => i < abstract_nums@.len() && find_abstract(abstract_nums@, id) == Some(abstract_nums@[i as int]),
            None => find_abstract(abstract_nums@, id) is None,
        },
{
    let mut a: usize = 0;
    assert(abstract_nums@.skip(0) =~= abstract_nums@);
    while a < abstract_nums.len()
        invariant
            0 <= a <= abstract_nums@.len(),
            find_abstract(abstract_nums@, id) == find_abstract(abstract_nums@.skip(a as int), id),
        decreases abstract_nums@.len() - a,
    {
        assert(abstract_nums@.skip(a as int).drop_first() =~= abstract_nums@.skip(a + 1));
        if abstract_nums[a].id == id {
            return Some(a);
        }
        a = a + 1;
    }
    None
}

/// Insert into a map of raw levels, recording a key the first time it is seen.
fn insert_raw<N>(levels: &mut BTreeMap<u32, RawListLevel<N>>, keys: &mut Vec<u32>, index: u32, level: RawListLevel<N>)
    requires
        forall|k: u32| old(levels)@.contains_key(k) <==> old(keys)@.contains(k),
    ensures
        final(levels)@ == old(levels)@.insert(index, level),
        forall|k: u32| final(levels)@.contains_key(k) <==> final(keys)@.contains(k),
{
    let present = levels.contains_key(&index);
    assert(present == old(levels)@.contains_key(index));
    if !present {
        keys.push(index);
        assert forall|k: u32| old(levels)@.insert(index, level).contains_key(k) <==> keys@.contains(k) by {
            if k != index {
                assert(keys@.contains(k) ==> old(keys)@.contains(k)) by {
                    if keys@.contains(k) {
                        let t = choose|t: int| 0 <= t < keys@.len() && keys@[t] == k;
                        assert(old(keys)@[t] == k);
                    }
                }
                assert(old(keys)@.contains(k) ==> keys@.contains(k)) by {
                    if old(keys)@.contains(k) {
                        let t = choose|t: int| 0 <= t < old(keys)@.len() && old(keys)@[t] == k;
                        assert(keys@[t] == k);
                    }
                }
            } else {
                assert(keys@[keys@.len() - 1] == index);
            }
        }
    }
    levels.insert(index, level);
}

/// Resolve a numbering instance into per-level list styles.
pub fn resolve_numbering<N: Copy>(num: &NumberingDefinition<N>, numberings: &Numberings<N>) -> (r: ResolvedNumbering<N>)
    requires
        overrides_well_indexed(*num, numberings.abstract_nums@),
    ensures
        resolved_numbering_ok(r, *num, numberings.abstract_nums@),
{
    let abstract_nums = &numberings.abstract_nums;
    let found = find_abstract_index(abstract_nums, num.abstract_num_id);
    let ghost base = base_levels(*num, abstract_nums@);
    let mut raw: BTreeMap<u32, RawListLevel<N>> = BTreeMap::new();
    let mut keys: Vec<u32> = Vec::new();
    match found {
        Some(index) => {
            let defs = &abstract_nums[index].levels;
            assert(find_abstract(abstract_nums@, num.abstract_num_id) == Some(abstract_nums@[index as int]));
            let mut i: usize = 0;
            while i < defs.len()
                invariant
                    0 <= i <= defs@.len(),
                    raw_levels_view(raw@) =~= abstract_levels(defs@.take(i as int)),
                    forall|k: u32| raw@.contains_key(k) <==> keys@.contains(k),
                decreases defs@.len() - i,
            {
                let level = raw_from_definition(&defs[i], false);
                insert_raw(&mut raw, &mut keys, #[verifier::truncate] (defs[i].level as u32), level);
                assert(defs@.take(i + 1).drop_last() =~= defs@.take(i as int));
                i = i + 1;
            }
            assert(defs@.take(defs@.len() as int) =~= defs@);
        },
        None => {
            assert(raw_levels_view(raw@) =~= Map::<u32, RawListLevelView<N>>::empty());
        },
    }
    assert(raw_levels_view(raw@) =~= base);
    let overrides = &num.level_overrides;
    let mut j: usize = 0;
    assert(overrides@.take(0) =~= Seq::<LevelOverride<N>>::empty());
    while j < overrides.len()
        invariant
            0 <= j <= overrides@.len(),
            overrides@ == num.level_overrides@,
            raw_levels_view(raw@) =~= apply_overrides(base, overrides@.take(j as int)),
            forall|k: u32| raw@.contains_key(k) <==> keys@.contains(k),
        decreases overrides@.len() - j,
    {
        let o = &overrides[j];
        let index: u32 = #[verifier::truncate] (o.level as u32);
        match &o.override_level {
            Some(d) => {
                let level = raw_from_definition(d, true);
                insert_raw(&mut raw, &mut keys, index, level);
            },
            None => {},
        }
        match o.override_start {
            Some(start) => {
                let updated: RawListLevel<N> = match raw.get(&index) {
                    Some(existing) => RawListLevel {
                        start: #[verifier::truncate] (start as u32),
                        number_format: existing.number_format.clone(),
                        level_text: existing.level_text.clone(),
                        paragraph_style: existing.paragraph_style.copy(),
                        has_start_override: true,
                    },
                    None => {
                        let mut text: Vec<char> = Vec::new();
                        text.push('%');
                        let mut digits = decimal_digits(index as u64 + 1);
                        text.append(&mut digits);
                        text.push('.');
                        assert(text@ =~= seq!['%'] + decimal_chars(index as nat + 1) + seq!['.']);
                        RawListLevel {
                            start: #[verifier::truncate] (start as u32),
                            number_format: string_of(chars_of("decimal").as_slice()),
                            level_text: string_of(text.as_slice()),
                            paragraph_style: ParagraphStyle::empty(),
                            has_start_override: true,
                        }
                    },
                };
                insert_raw(&mut raw, &mut keys, index, updated);
            },
            None => {},
        }
        assert(overrides@.take(j + 1).drop_last() =~= overrides@.take(j as int));
        assert(raw_levels_view(raw@) =~= apply_override(apply_overrides(base, overrides@.take(j as int)), *o));
        j = j + 1;
    }
    assert(overrides@.take(overrides@.len() as int) =~= overrides@);
    let ghost rawv = raw_levels_view(raw@);
    assert(rawv == spec_raw_levels(*num, abstract_nums@));
    // Resolve each level present.
    let mut levels: BTreeMap<u32, ResolvedListLevel<N>> = BTreeMap::new();
    let mut k: usize = 0;
    while k < keys.len()
        invariant
            0 <= k <= keys@.len(),
            rawv == raw_levels_view(raw@),
            forall|x: u32| raw@.contains_key(x) <==> keys@.contains(x),
            forall|x: u32| #[trigger] levels@.contains_key(x) ==> raw@.contains_key(x) && resolved_level_ok(levels@[x], x, rawv),
            forall|t: int| 0 <= t < k ==> levels@.contains_key(#[trigger] keys@[t]),
        decreases keys@.len() - k,
    {
        let index: u32 = keys[k];
        assert(keys@.contains(index));
        let level = raw.get(&index).unwrap();
        assert(rawv[index] == level@);
        let kind = level_kind(level.number_format.as_str());
        let (numbering_pattern, full_numbering) = if kind == ListKind::Ordered {
            match build_typst_numbering_pattern(level.level_text.as_str(), index, &raw) {
                Some((pattern, full)) => (Some(pattern), full),
                None => (None, false),
            }
        } else {
            (None, false)
        };
        let marker_text: Option<String> = if kind == ListKind::Unordered && !level.level_text.as_str().is_empty() {
            Some(level.level_text.clone())
        } else {
            None
        };
        let resolved = ResolvedListLevel {
            style: ListLevelStyle {
                kind,
                numbering_pattern,
                full_numbering,
                marker_text,
                marker_style: None,
            },
            paragraph_style: level.paragraph_style.copy(),
            start: level.start,
            has_start_override: level.has_start_override,
        };
        assert(resolved_level_ok(resolved, index, rawv));
        levels.insert(index, resolved);
        k = k + 1;
    }
    assert forall|x: u32| rawv.contains_key(x) implies levels@.contains_key(x) by {
        assert(keys@.contains(x));
        let t = choose|t: int| 0 <= t < keys@.len() && keys@[t] == x;
        assert(levels@.contains_key(keys@[t]));
    }
    assert(levels@.dom() =~= rawv.dom());
    ResolvedNumbering { abstract_num_id: num.abstract_num_id, levels }
}

/// The last numbering instance with the given id.
pub open spec fn last_numbering<N>(nums: Seq<NumberingDefinition<N>>, id: usize) -> Option<NumberingDefinition<N>>
    decreases nums.len(),
{
    if nums.len() == 0 {
        None
    } else if nums.last().id == id {
        Some(nums.last())
    } else {
        last_numbering(nums.drop_last(), id)
    }
}

/// `m` maps each numbering id to the resolution of the last numbering
/// instance with that id, and holds no other id.
pub open spec fn numbering_map_ok<N>(m: Map<usize, ResolvedNumbering<N>>, numberings: Numberings<N>) -> bool {
    &&& forall|id: usize| m.contains_key(id) <==> last_numbering(numberings.numberings@, id) is Some
    &&& forall|id: usize| #[trigger] m.contains_key(id) ==> resolved_numbering_ok(
        m[id],
        last_numbering(numberings.numberings@, id).unwrap(),
        numberings.abstract_nums@,
    )
}

/// Every numbering instance can be resolved.
pub open spec fn numberings_well_indexed<N>(numberings: Numberings<N>) -> bool {
    forall|i: int|
        0 <= i < numberings.numberings@.len() ==> overrides_well_indexed(
            #[trigger] numberings.numberings@[i],
            numberings.abstract_nums@,
        )
}

/// Whether the last level index is among the levels of an abstract
/// numbering's definitions.
fn defines_last_index<N>(defs: &Vec<LevelDefinition<N>>) -> (r: bool)
    ensures
        r == abstract_levels(defs@).contains_key(u32::MAX),
{
    let mut found = false;
    let mut j: usize = 0;
    assert(defs@.take(0) =~= Seq::<LevelDefinition<N>>::empty());
    while j < defs.len()
        invariant
            j <= defs@.len(),
            found == abstract_levels(defs@.take(j as int)).contains_key(u32::MAX),
        decreases defs@.len() - j,
    {
        assert(defs@.take(j + 1).drop_last() =~= defs@.take(j as int));
        if defs[j].level as u32 == u32::MAX {
            found = true;
        }
        j = j + 1;
    }
    assert(defs@.take(defs@.len() as int) =~= defs@);
    found
}

/// Whether a numbering instance can be resolved: no start-only override
/// of it has to create a level at the last level index.
pub fn overrides_are_well_indexed<N>(num: &NumberingDefinition<N>, abstract_nums: &Vec<AbstractNumbering<N>>) -> (r: bool)
    ensures
        r == overrides_well_indexed(*num, abstract_nums@),
{
    let found = find_abstract_index(abstract_nums, num.abstract_num_id);
    let mut present = match found {
        Some(a) => defines_last_index(&abstract_nums[a].levels),
        None => false,
    };
    let ghost base = base_levels(*num, abstract_nums@);
    let overrides = &num.level_overrides;
    let mut i: usize = 0;
    assert(overrides@.take(0) =~= Seq::<LevelOverride<N>>::empty());
    while i < overrides.len()
        invariant
            i <= overrides@.len(),
            overrides@ == num.level_overrides@,
            base == base_levels(*num, abstract_nums@),
            present == apply_overrides(base, overrides@.take(i as int)).contains_key(u32::MAX),
            forall|k: int|
                0 <= k < i && (#[trigger] overrides@[k]).override_start is Some && overrides@[k].override_level is None
                    && overrides@[k].level as u32 == u32::MAX ==> apply_overrides(base, overrides@.take(k)).contains_key(u32::MAX),
        decreases overrides@.len() - i,
    {
        assert(overrides@.take(i + 1).drop_last() =~= overrides@.take(i as int));
        let o = &overrides[i];
        if o.level as u32 == u32::MAX {
            if o.override_start.is_some() && o.override_level.is_none() && !present {
                return false;
            }
            if o.override_start.is_some() || o.override_level.is_some() {
                present = true;
            }
        }
        i = i + 1;
    }
    assert(overrides@.take(overrides@.len() as int) =~= overrides@);
    true
}

/// Whether every numbering instance of a document can be resolved (the
/// condition `build_numbering_map` asks for).
pub fn numberings_are_well_indexed<N>(numberings: &Numberings<N>) -> (r: bool)
    ensures
        r == numberings_well_indexed(*numberings),
{
    let nums = &numberings.numberings;
    let mut i: usize = 0;
    while i < nums.len()
        invariant
            i <= nums@.len(),
            nums@ == numberings.numberings@,
            forall|k: int| 0 <= k < i ==> overrides_well_indexed(#[trigger] nums@[k], numberings.abstract_nums@),
        decreases nums@.len() - i,
    {
        if !overrides_are_well_indexed(&nums[i], &numberings.abstract_nums) {
            return false;
        }
        i = i + 1;
    }
    true
}

/// Resolve every numbering instance of a document, by id.
pub fn build_numbering_map<N: Copy>(numberings: &Numberings<N>) -> (m: NumberingMap<N>)
    requires
        numberings_well_indexed(*numberings),
    ensures
        numbering_map_ok(m@, *numberings),
{
    let nums = &numberings.numberings;
    let mut m: NumberingMap<N> = BTreeMap::new();
    let mut i: usize = 0;
    while i < nums.len()
        invariant
            0 <= i <= nums@.len(),
            nums@ == numberings.numberings@,
            numberings_well_indexed(*numberings),
            forall|id: usize| m@.contains_key(id) <==> last_numbering(nums@.take(i as int), id) is Some,
            forall|id: usize| #[trigger] m@.contains_key(id) ==> resolved_numbering_ok(
                m@[id],
                last_numbering(nums@.take(i as int), id).unwrap(),
                numberings.abstract_nums@,
            ),
        decreases nums@.len() - i,
    {
        assert(overrides_well_indexed(nums@[i as int], numberings.abstract_nums@));
        let r = resolve_numbering(&nums[i], numberings);
        m.insert(nums[i].id, r);
        assert(nums@.take(i + 1).drop_last() =~= nums@.take(i as int));
        assert(nums@.take(i + 1).last() == nums@[i as int]);
        i = i + 1;
    }
    assert(nums@.take(nums@.len() as int) =~= nums@);
    m
}


/// The counter symbol of a Word number format follows the format's name:
/// it is one character; `lower…` formats count in lower case and `upper…`
/// formats in upper case; `…Roman` formats count in roman numerals (`i` or
/// `I`), `…Letter` formats in letters (`a` or `A`) and `decimal…` formats
/// in arabic numbers (`1`). So `lowerRoman` and `upperRoman` differ, and so
/// do `lowerLetter` and `upperLetter`.
pub proof fn lemma_counter_symbol_follows_name(f: Seq<char>)
    ensures
        match spec_counter_symbol(f) {
            Some(sym) => {
                &&& sym.len() == 1
                &&& has_prefix(f, "lower"@) ==> is_ascii_lower(sym[0])
                &&& has_prefix(f, "upper"@) ==> is_ascii_upper(sym[0])
                &&& has_suffix(f, "Roman"@) ==> (sym[0] == 'i' || sym[0] == 'I')
                &&& has_suffix(f, "Letter"@) ==> (sym[0] == 'a' || sym[0] == 'A')
                &&& has_prefix(f, "decimal"@) ==> sym[0] == '1'
            },
            None => true,
        },
{
    reveal_strlit("decimal");
    reveal_strlit("decimalZero");
    reveal_strlit("lowerLetter");
    reveal_strlit("upperLetter");
    reveal_strlit("lowerRoman");
    reveal_strlit("upperRoman");
    reveal_strlit("lower");
    reveal_strlit("upper");
    reveal_strlit("Roman");
    reveal_strlit("Letter");
    reveal_strlit("1");
    reveal_strlit("a");
    reveal_strlit("A");
    reveal_strlit("i");
    reveal_strlit("I");
    if spec_counter_symbol(f) is Some {
        let n = f.len() as int;
        assert(n >= 7);
        assert(f.subrange(0, 5)[0] == f[0]);
        assert(f.subrange(0, 7)[0] == f[0]);
        assert(f.subrange(n - 5, n)[0] == f[n - 5]);
        assert(f.subrange(n - 6, n)[0] == f[n - 6]);
    }
}
} // verus!
