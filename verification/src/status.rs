//! The status screen: party and inventory views, their selection and tab
//! navigation, and the display data they show.
use vstd::prelude::*;
use crate::catalog::{Character, CharacterRegistry, Item, ItemCategory, ItemRegistry, Stat};
use crate::rewards::{texts_view, CharacterProgress};
use crate::search::{filter_sorted_indices, filtered_order, key_views};
use crate::strmap::StrMap;
use crate::text::{chars_of, lowercase, str_eq, to_lowercase};

verus! {

/// The most party members the party list shows.
pub const MAX_PARTY_DISPLAY: usize = 4;

/// The top-level page of the status screen.
#[derive(Debug, Clone, Copy, PartialEq, Eq, Structural)]
pub enum StatusMode {
    PartyList,
    Inventory,
}

/// Whether a detail view is open (`Closed`: the top level of a page).
#[derive(Debug, Clone, Copy, PartialEq, Eq, Structural)]
pub enum DetailView {
    Closed,
    CharacterDetail,
}

/// The category tabs of the inventory browser, in display order.
#[derive(Debug, Clone, Copy, PartialEq, Eq, Structural)]
pub enum InventoryTab {
    Weapon,
    Armor,
    Accessory,
    Consumable,
    KeyItem,
}

// ─── Pure helpers ────────────────────────────────────────────────────────────

pub open spec fn sat_u32(v: int) -> u32 {
    if v > u32::MAX {
        u32::MAX
    } else {
        v as u32
    }
}

/// `base + growth * (level - 1)`, with `level - 1` at least zero and the
/// product and sum saturating at `u32::MAX`.
pub open spec fn effective_stat(base: u32, growth: u32, level: u32) -> u32 {
    let factor: int = if level >= 1 {
        level - 1
    } else {
        0
    };
    sat_u32(base + sat_u32(growth * factor))
}

/// A stat grows linearly with the level: at level 0 or 1 it is the base
/// value; as long as `base + growth * (level - 1)` fits in `u32` that is
/// the stat, so raising the level by one adds exactly the growth; beyond
/// that it stays at `u32::MAX`, and it never falls as the level rises.
pub proof fn law_effective_stat_growth(base: u32, growth: u32, level: u32)
    ensures
        level <= 1 ==> effective_stat(base, growth, level) == base,
        level >= 1 && base + growth * (level - 1) <= u32::MAX ==> effective_stat(base, growth, level) == base
            + growth * (level - 1),
        level >= 1 && level < u32::MAX && base + growth * level <= u32::MAX ==> effective_stat(
            base,
            growth,
            (level + 1) as u32,
        ) == effective_stat(base, growth, level) + growth,
        level >= 1 && base + growth * (level - 1) > u32::MAX ==> effective_stat(base, growth, level) == u32::MAX,
        level < u32::MAX ==> effective_stat(base, growth, level) <= effective_stat(base, growth, (level + 1) as u32),
{
    if level >= 1 {
        assert(growth * (level - 1) <= growth * level) by (nonlinear_arith)
            requires
                level >= 1,
        ;
        assert(0 <= growth * (level - 1)) by (nonlinear_arith)
            requires
                level >= 1,
        ;
    }
    assert(growth * level == growth * (level - 1) + growth) by (nonlinear_arith);
    assert(growth * ((level + 1) - 1) == growth * level) by (nonlinear_arith);
    assert(0 <= growth * level) by (nonlinear_arith);
}

/// Computes a stat at a level from its base value and growth per level.
pub fn compute_effective_stat(base_value: u32, growth_value: u32, level: u32) -> (r: u32)
    ensures
        r == effective_stat(base_value, growth_value, level),
{
    let level_factor = level.saturating_sub(1);
    let g = growth_value as u64;
    let f = level_factor as u64;
    assert(g * f <= u32::MAX as u64 * u32::MAX as u64) by (nonlinear_arith)
        requires
            g <= u32::MAX,
            f <= u32::MAX,
    ;
    let product: u64 = g * f;
    let scaled: u32 = if product > u32::MAX as u64 {
        u32::MAX
    } else {
        product as u32
    };
    base_value.saturating_add(scaled)
}

/// A selection index kept within `0..len` (zero for an empty list).
pub fn clamp_selection(index: usize, len: usize) -> (r: usize)
    ensures
        r == (if len == 0 {
            0
        } else if index < len {
            index
        } else {
            (len - 1) as usize
        }),
        len > 0 ==> r < len,
{
    if len == 0 {
        0
    } else if index < len - 1 {
        index
    } else {
        len - 1
    }
}

pub open spec fn tab_index(t: InventoryTab) -> int {
    match t {
        InventoryTab::Weapon => 0,
        InventoryTab::Armor => 1,
        InventoryTab::Accessory => 2,
        InventoryTab::Consumable => 3,
        InventoryTab::KeyItem => 4,
    }
}

pub open spec fn tab_at(i: int) -> InventoryTab {
    if i <= 0 {
        InventoryTab::Weapon
    } else if i == 1 {
        InventoryTab::Armor
    } else if i == 2 {
        InventoryTab::Accessory
    } else if i == 3 {
        InventoryTab::Consumable
    } else {
        InventoryTab::KeyItem
    }
}

/// The next tab in display order; the last tab stays.
pub fn next_tab(tab: InventoryTab) -> (r: InventoryTab)
    ensures
        r == tab_at(tab_index(tab) + 1),
{
    match tab {
        InventoryTab::Weapon => InventoryTab::Armor,
        InventoryTab::Armor => InventoryTab::Accessory,
        InventoryTab::Accessory => InventoryTab::Consumable,
        InventoryTab::Consumable => InventoryTab::KeyItem,
        InventoryTab::KeyItem => InventoryTab::KeyItem,
    }
}

/// The previous tab in display order; the first tab stays.
pub fn prev_tab(tab: InventoryTab) -> (r: InventoryTab)
    ensures
        r == tab_at(tab_index(tab) - 1),
{
    match tab {
        InventoryTab::Weapon => InventoryTab::Weapon,
        InventoryTab::Armor => InventoryTab::Weapon,
        InventoryTab::Accessory => InventoryTab::Armor,
        InventoryTab::Consumable => InventoryTab::Accessory,
        InventoryTab::KeyItem => InventoryTab::Consumable,
    }
}

/// Stepping to the next tab and back returns to the tab, except from the
/// last; stepping back and forward returns to it, except from the first.
/// Only the last tab has no next and only the first has no previous.
pub proof fn law_tab_navigation(t: InventoryTab)
    ensures
        t != InventoryTab::KeyItem ==> tab_at(tab_index(tab_at(tab_index(t) + 1)) - 1) == t,
        t != InventoryTab::Weapon ==> tab_at(tab_index(tab_at(tab_index(t) - 1)) + 1) == t,
        (tab_at(tab_index(t) + 1) == t) == (t == InventoryTab::KeyItem),
        (tab_at(tab_index(t) - 1) == t) == (t == InventoryTab::Weapon),
{
}

pub open spec fn category_of_tab(t: InventoryTab) -> ItemCategory {
    match t {
        InventoryTab::Weapon => ItemCategory::Weapon,
        InventoryTab::Armor => ItemCategory::Armor,
        InventoryTab::Accessory => ItemCategory::Accessory,
        InventoryTab::Consumable => ItemCategory::Consumable,
        InventoryTab::KeyItem => ItemCategory::KeyItem,
    }
}

/// The item category a tab lists.
pub fn tab_to_category(tab: InventoryTab) -> (r: ItemCategory)
    ensures
        r == category_of_tab(tab),
{
    match tab {
        InventoryTab::Weapon => ItemCategory::Weapon,
        InventoryTab::Armor => ItemCategory::Armor,
        InventoryTab::Accessory => ItemCategory::Accessory,
        InventoryTab::Consumable => ItemCategory::Consumable,
        InventoryTab::KeyItem => ItemCategory::KeyItem,
    }
}

pub open spec fn label_of_tab(t: InventoryTab) -> Seq<char> {
    match t {
        InventoryTab::Weapon => "Weapon"@,
        InventoryTab::Armor => "Armor"@,
        InventoryTab::Accessory => "Accessory"@,
        InventoryTab::Consumable => "Consumable"@,
        InventoryTab::KeyItem => "KeyItem"@,
    }
}

/// The display label of a tab.
pub fn tab_label(tab: InventoryTab) -> (r: &'static str)
    ensures
        r@ == label_of_tab(tab),
{
    match tab {
        InventoryTab::Weapon => "Weapon",
        InventoryTab::Armor => "Armor",
        InventoryTab::Accessory => "Accessory",
        InventoryTab::Consumable => "Consumable",
        InventoryTab::KeyItem => "KeyItem",
    }
}

/// All tabs in display order.
pub fn all_tabs() -> (r: [InventoryTab; 5])
    ensures
        forall|i: int| 0 <= i < 5 ==> #[trigger] r@[i] == tab_at(i),
{
    [
        InventoryTab::Weapon,
        InventoryTab::Armor,
        InventoryTab::Accessory,
        InventoryTab::Consumable,
        InventoryTab::KeyItem,
    ]
}

/// The ids for which `keep` holds, in their order.
pub open spec fn kept_ids(ids: Seq<Seq<char>>, keep: Seq<bool>) -> Seq<Seq<char>>
    decreases ids.len(),
{
    if ids.len() == 0 {
        Seq::empty()
    } else {
        kept_ids(ids.drop_last(), keep.drop_last()) + if keep.last() {
            seq![ids.last()]
        } else {
            Seq::empty()
        }
    }
}

/// `present` can answer `b` for the id `id`.
pub open spec fn answered<F: Fn(&str) -> bool>(present: F, id: Seq<char>, b: bool) -> bool {
    exists|s: &str| s@ == id && #[trigger] present.ensures((s,), b)
}

/// Keeps the ids that `present` accepts, in their order. `present` is called
/// once per id; `keep[i]` is what it answered for id `i`.
pub fn resolve_ordered_ids<F>(ids: &[String], present: F) -> (r: Vec<String>)
    where
        F: Fn(&str) -> bool,
    requires
        forall|s: &str| #[trigger] present.requires((s,)),
    ensures
        exists|keep: Seq<bool>|
            {
                &&& keep.len() == ids@.len()
                &&& forall|i: int| 0 <= i < ids@.len() ==> #[trigger] answered(present, ids@[i]@, keep[i])
                &&& texts_view(r@) == kept_ids(texts_view(ids@), keep)
            },
{
    let mut out: Vec<String> = Vec::new();
    let ghost mut keep: Seq<bool> = Seq::empty();
    let mut i: usize = 0;
    while i < ids.len()
        invariant
            i <= ids@.len(),
            keep.len() == i,
            forall|s: &str| #[trigger] present.requires((s,)),
            forall|k: int| 0 <= k < i ==> #[trigger] answered(present, ids@[k]@, keep[k]),
            texts_view(out@) == kept_ids(texts_view(ids@.take(i as int)), keep),
        decreases ids@.len() - i,
    {
        let id = ids[i].as_str();
        let b = present(id);
        let ghost before = out@;
        if b {
            out.push(ids[i].clone());
        }
        proof {
            let nk = keep.push(b);
            assert(answered(present, ids@[i as int]@, b));
            assert(texts_view(ids@.take(i + 1)).drop_last() =~= texts_view(ids@.take(i as int)));
            assert(nk.drop_last() =~= keep);
            assert(texts_view(ids@.take(i + 1)).last() == ids@[i as int]@);
            assert(texts_view(out@) =~= kept_ids(texts_view(ids@.take(i + 1)), nk));
            keep = nk;
        }
        i = i + 1;
    }
    assert(ids@.take(ids@.len() as int) =~= ids@);
    out
}

// ─── Display data ────────────────────────────────────────────────────────────

/// A party member row.
pub struct PartyMemberDisplayData {
    pub character_id: String,
    pub display_name: String,
    pub level: u32,
    pub effective_hp: u32,
    pub has_portrait: bool,
    pub portrait_path: Option<String>,
}

/// A party member row as values.
pub struct PartyMemberView {
    pub character_id: Seq<char>,
    pub display_name: Seq<char>,
    pub level: u32,
    pub effective_hp: u32,
    pub portrait_path: Option<Seq<char>>,
}

pub open spec fn party_member_view(d: PartyMemberDisplayData) -> PartyMemberView {
    PartyMemberView {
        character_id: d.character_id@,
        display_name: d.display_name@,
        level: d.level,
        effective_hp: d.effective_hp,
        portrait_path: crate::condition::opt_view(d.portrait_path),
    }
}

pub open spec fn party_member_views(s: Seq<PartyMemberDisplayData>) -> Seq<PartyMemberView> {
    s.map_values(|d: PartyMemberDisplayData| party_member_view(d))
}

/// The first stat with the given name.
pub open spec fn first_stat(stats: Seq<Stat>, name: Seq<char>) -> Option<Stat>
    decreases stats.len(),
{
    if stats.len() == 0 {
        None
    } else if stats[0].name@ == name {
        Some(stats[0])
    } else {
        first_stat(stats.drop_first(), name)
    }
}

/// The row of a character: its "Level" stat's base value (1 without one),
/// and its "HP" stat at that level (0 without one).
pub open spec fn member_row(id: Seq<char>, c: Character) -> PartyMemberView {
    let level = match first_stat(c.stats@, "Level"@) {
        Some(st) => st.base_value,
        None => 1,
    };
    let hp = match first_stat(c.stats@, "HP"@) {
        Some(st) => effective_stat(st.base_value, st.growth_value, level),
        None => effective_stat(0, 0, level),
    };
    PartyMemberView {
        character_id: id,
        display_name: c.display_name@,
        level,
        effective_hp: hp,
        portrait_path: crate::condition::opt_view(c.face_portrait),
    }
}

/// Rows of the party members that the registry knows, in party order.
pub open spec fn party_rows(party: Seq<Seq<char>>, chars: Map<Seq<char>, Character>) -> Seq<PartyMemberView>
    decreases party.len(),
{
    if party.len() == 0 {
        Seq::empty()
    } else {
        party_rows(party.drop_last(), chars) + if chars.contains_key(party.last()) {
            seq![member_row(party.last(), chars[party.last()])]
        } else {
            Seq::empty()
        }
    }
}

/// Whether the registry knows a character id.
pub open spec fn known_member(chars: Map<Seq<char>, Character>) -> spec_fn(Seq<char>) -> bool {
    |id: Seq<char>| chars.contains_key(id)
}

/// The row of a known member.
pub open spec fn row_for(chars: Map<Seq<char>, Character>) -> spec_fn(Seq<char>) -> PartyMemberView {
    |id: Seq<char>| member_row(id, chars[id])
}

/// The party rows are the rows of the members the registry knows, in
/// party order: the party filtered by the registry, one row per member.
pub proof fn law_party_rows(party: Seq<Seq<char>>, chars: Map<Seq<char>, Character>)
    ensures
        party_rows(party, chars) == party.filter(known_member(chars)).map_values(row_for(chars)),
        party_rows(party, chars).len() <= party.len(),
    decreases party.len(),
{
    reveal(Seq::filter);
    if party.len() > 0 {
        let d = party.drop_last();
        law_party_rows(d, chars);
        let f = d.filter(known_member(chars));
        if chars.contains_key(party.last()) {
            assert(f.push(party.last()).map_values(row_for(chars)) =~= f.map_values(row_for(chars)) + seq![
                member_row(party.last(), chars[party.last()]),
            ]);
        } else {
            assert(party_rows(party, chars) =~= party_rows(d, chars));
        }
    }
}

fn find_stat<'a>(stats: &'a Vec<Stat>, name: &str) -> (r: Option<&'a Stat>)
    ensures
        match r {
            Some(st) => first_stat(stats@, name@) == Some(*st),
            None => first_stat(stats@, name@) is None,
        },
{
    let mut i: usize = 0;
    assert(stats@.skip(0) =~= stats@);
    while i < stats.len()
        invariant
            i <= stats@.len(),
            first_stat(stats@, name@) == first_stat(stats@.skip(i as int), name@),
        decreases stats@.len() - i,
    {
        assert(stats@.skip(i as int)[0] == stats@[i as int]);
        assert(stats@.skip(i as int).drop_first() =~= stats@.skip(i + 1));
        if str_eq(stats[i].name.as_str(), name) {
            return Some(&stats[i]);
        }
        i = i + 1;
    }
    None
}

fn member_display(id: &String, c: &Character) -> (r: PartyMemberDisplayData)
    ensures
        party_member_view(r) == member_row(id@, *c),
        r.has_portrait == r.portrait_path is Some,
{
    let level = match find_stat(&c.stats, "Level") {
        Some(st) => st.base_value,
        None => 1,
    };
    let hp = match find_stat(&c.stats, "HP") {
        Some(st) => compute_effective_stat(st.base_value, st.growth_value, level),
        None => compute_effective_stat(0, 0, level),
    };
    let portrait_path = match &c.face_portrait {
        Some(p) => Some(p.clone()),
        None => None,
    };
    PartyMemberDisplayData {
        character_id: id.clone(),
        display_name: c.display_name.clone(),
        level,
        effective_hp: hp,
        has_portrait: portrait_path.is_some(),
        portrait_path,
    }
}

/// The party list rows: members the registry knows, in party order, at most
/// `MAX_PARTY_DISPLAY` of them.
pub fn resolve_party_display_data(
    party: &[String],
    character_registry: &CharacterRegistry,
    progress: &StrMap<CharacterProgress>,
) -> (r: Vec<PartyMemberDisplayData>)
    ensures
        party_member_views(r@) == ({
            let rows = party_rows(texts_view(party@), character_registry.characters.map());
            rows.take(if rows.len() < 4 { rows.len() as int } else { 4 })
        }),
        forall|i: int| 0 <= i < r@.len() ==> (#[trigger] r@[i]).has_portrait == r@[i].portrait_path is Some,
{
    let ghost chars = character_registry.characters.map();
    let mut out: Vec<PartyMemberDisplayData> = Vec::new();
    let mut i: usize = 0;
    while i < party.len()
        invariant
            i <= party@.len(),
            chars == character_registry.characters.map(),
            party_member_views(out@) == party_rows(texts_view(party@.take(i as int)), chars),
            forall|k: int| 0 <= k < out@.len() ==> (#[trigger] out@[k]).has_portrait == out@[k].portrait_path is Some,
        decreases party@.len() - i,
    {
        let ghost before = out@;
        proof {
            assert(texts_view(party@.take(i + 1)).drop_last() =~= texts_view(party@.take(i as int)));
            assert(texts_view(party@.take(i + 1)).last() == party@[i as int]@);
        }
        match character_registry.characters.get(party[i].as_str()) {
            Some(c) => {
                let row = member_display(&party[i], c);
                out.push(row);
                assert(party_member_views(out@) =~= party_member_views(before) + seq![party_member_view(row)]);
            },
            None => {},
        }
        i = i + 1;
    }
    assert(party@.take(party@.len() as int) =~= party@);
    let ghost full = out@;
    out.truncate(MAX_PARTY_DISPLAY);
    assert(party_member_views(out@) =~= party_member_views(full).take(
        if party_member_views(full).len() < 4 { party_member_views(full).len() as int } else { 4 },
    ));
    out
}

/// An inventory row.
pub struct InventoryItemDisplayData {
    pub item_id: String,
    pub display_name: String,
    pub quantity: u32,
    pub has_icon: bool,
    pub icon_path: Option<String>,
    pub description: String,
    pub stat_modifiers: Vec<(String, i32)>,
}

/// An inventory row as values.
pub struct InventoryItemView {
    pub item_id: Seq<char>,
    pub display_name: Seq<char>,
    pub quantity: u32,
    pub icon_path: Option<Seq<char>>,
    pub description: Seq<char>,
    pub stat_modifiers: Seq<(Seq<char>, i32)>,
}

pub open spec fn modifier_views(m: Seq<(String, i32)>) -> Seq<(Seq<char>, i32)> {
    m.map_values(|e: (String, i32)| (e.0@, e.1))
}

pub open spec fn item_modifier_views(m: Seq<crate::catalog::StatModifier>) -> Seq<(Seq<char>, i32)> {
    m.map_values(|e: crate::catalog::StatModifier| (e.stat_name@, e.value))
}

pub open spec fn inventory_item_view(d: InventoryItemDisplayData) -> InventoryItemView {
    InventoryItemView {
        item_id: d.item_id@,
        display_name: d.display_name@,
        quantity: d.quantity,
        icon_path: crate::condition::opt_view(d.icon_path),
        description: d.description@,
        stat_modifiers: modifier_views(d.stat_modifiers@),
    }
}

pub open spec fn inventory_item_views(s: Seq<InventoryItemDisplayData>) -> Seq<InventoryItemView> {
    s.map_values(|d: InventoryItemDisplayData| inventory_item_view(d))
}

/// The held items of the tab's category that the registry knows, in
/// inventory order.
pub open spec fn tab_candidates(
    entries: Seq<(Seq<char>, u32)>,
    items: Map<Seq<char>, Item>,
    cat: ItemCategory,
) -> Seq<(Seq<char>, u32)>
    decreases entries.len(),
{
    if entries.len() == 0 {
        Seq::empty()
    } else {
        let e = entries.last();
        tab_candidates(entries.drop_last(), items, cat) + if items.contains_key(e.0) && items[e.0].category
            == cat {
            seq![e]
        } else {
            Seq::empty()
        }
    }
}

pub open spec fn candidate_keys(c: Seq<(Seq<char>, u32)>, items: Map<Seq<char>, Item>) -> Seq<Seq<char>> {
    c.map_values(|e: (Seq<char>, u32)| lowercase(items[e.0].display_name@))
}

pub open spec fn item_row(e: (Seq<char>, u32), item: Item) -> InventoryItemView {
    InventoryItemView {
        item_id: e.0,
        display_name: item.display_name@,
        quantity: e.1,
        icon_path: crate::condition::opt_view(item.icon),
        description: item.description@,
        stat_modifiers: item_modifier_views(item.stat_modifiers@),
    }
}

/// The rows of a tab: held items of its category known to the registry,
/// ordered by lower-cased display name (ties keep inventory order).
pub open spec fn inventory_rows(
    entries: Seq<(Seq<char>, u32)>,
    items: Map<Seq<char>, Item>,
    tab: InventoryTab,
) -> Seq<InventoryItemView> {
    let c = tab_candidates(entries, items, category_of_tab(tab));
    let order = filtered_order(candidate_keys(c, items), Seq::empty());
    order.map_values(|j: int| item_row(c[j], items[c[j].0]))
}

proof fn lemma_tab_candidates(entries: Seq<(Seq<char>, u32)>, items: Map<Seq<char>, Item>, cat: ItemCategory)
    ensures
        forall|k: int|
            0 <= k < tab_candidates(entries, items, cat).len() ==> {
                &&& items.contains_key(#[trigger] tab_candidates(entries, items, cat)[k].0)
                &&& items[tab_candidates(entries, items, cat)[k].0].category == cat
                &&& entries.contains(tab_candidates(entries, items, cat)[k])
            },
        forall|j: int|
            0 <= j < entries.len() && items.contains_key(#[trigger] entries[j].0) && items[entries[j].0].category
                == cat ==> tab_candidates(entries, items, cat).contains(entries[j]),
    decreases entries.len(),
{
    if entries.len() > 0 {
        let d = entries.drop_last();
        lemma_tab_candidates(d, items, cat);
        let c0 = tab_candidates(d, items, cat);
        let c = tab_candidates(entries, items, cat);
        let e = entries.last();
        assert forall|k: int| 0 <= k < c.len() implies {
            &&& items.contains_key(#[trigger] c[k].0)
            &&& items[c[k].0].category == cat
            &&& entries.contains(c[k])
        } by {
            if k < c0.len() {
                assert(c[k] == c0[k]);
                let j = choose|j: int| 0 <= j < d.len() && d[j] == c0[k];
                assert(entries[j] == d[j]);
            } else {
                assert(c[k] == e);
                assert(entries[entries.len() - 1] == e);
            }
        }
        assert forall|j: int|
            0 <= j < entries.len() && items.contains_key(#[trigger] entries[j].0) && items[entries[j].0].category
                == cat implies c.contains(entries[j]) by {
            if j < d.len() {
                assert(d[j] == entries[j]);
                assert(items.contains_key(d[j].0));
                let k = choose|k: int| 0 <= k < c0.len() && c0[k] == d[j];
                assert(c[k] == c0[k]);
            } else {
                assert(c[c0.len() as int] == e);
            }
        }
    }
}

/// The rows of an inventory tab list each held item of the tab's category
/// that the registry knows exactly once and nothing else, ordered by
/// lower-cased display name, items with equal names keeping their
/// inventory order.
pub proof fn law_inventory_rows(entries: Seq<(Seq<char>, u32)>, items: Map<Seq<char>, Item>, tab: InventoryTab)
    ensures
        ({
            let rows = inventory_rows(entries, items, tab);
            let c = tab_candidates(entries, items, category_of_tab(tab));
            &&& rows.len() == c.len()
            &&& forall|i: int, j: int|
                0 <= i < j < rows.len() ==> crate::search::lex_le(
                    lowercase(#[trigger] rows[i].display_name),
                    lowercase(#[trigger] rows[j].display_name),
                )
            &&& forall|i: int|
                0 <= i < rows.len() ==> items.contains_key(#[trigger] rows[i].item_id)
                    && items[rows[i].item_id].category == category_of_tab(tab)
            &&& forall|k: int|
                #![trigger c[k]]
                0 <= k < c.len() ==> exists|i: int|
                    0 <= i < rows.len() && #[trigger] rows[i] == item_row(c[k], items[c[k].0])
        }),
{
    let cat = category_of_tab(tab);
    let c = tab_candidates(entries, items, cat);
    let keys = candidate_keys(c, items);
    let empty = Seq::<char>::empty();
    let o = filtered_order(keys, empty);
    let rows = inventory_rows(entries, items, tab);
    lemma_tab_candidates(entries, items, cat);
    crate::search::law_search_sorted_and_complete(keys, empty);
    crate::search::lemma_filtered_in_range(keys, empty);
    assert forall|k: int| 0 <= k < keys.len() implies crate::search::seq_contains(#[trigger] keys[k], empty) by {
        assert(keys[k].subrange(0, 0 + empty.len() as int) =~= empty);
    }
    // Every candidate index is listed exactly once, so the order is a
    // permutation of the candidates.
    assert forall|k: int| 0 <= k < c.len() implies o.contains(k) by {
        assert(crate::search::seq_contains(keys[k], empty));
    }
    assert(o.len() == c.len()) by {
        let s = Set::new(|k: int| 0 <= k < c.len());
        assert(o.to_set() =~= s) by {
            assert forall|k: int| o.to_set().contains(k) <==> s.contains(k) by {
                if o.to_set().contains(k) {
                    let i = choose|i: int| 0 <= i < o.len() && o[i] == k;
                }
            }
        }
        o.unique_seq_to_set();
        vstd::set_lib::lemma_int_range(0, c.len() as int);
        assert(s =~= vstd::set_lib::set_int_range(0, c.len() as int));
    }
    assert forall|i: int, j: int| 0 <= i < j < rows.len() implies crate::search::lex_le(
        lowercase(#[trigger] rows[i].display_name),
        lowercase(#[trigger] rows[j].display_name),
    ) by {
        assert(rows[i] == item_row(c[o[i]], items[c[o[i]].0]));
        assert(rows[j] == item_row(c[o[j]], items[c[o[j]].0]));
        assert(keys[o[i]] == lowercase(items[c[o[i]].0].display_name@));
        assert(keys[o[j]] == lowercase(items[c[o[j]].0].display_name@));
    }
    assert forall|i: int| 0 <= i < rows.len() implies items.contains_key(#[trigger] rows[i].item_id)
        && items[rows[i].item_id].category == cat by {
        assert(rows[i] == item_row(c[o[i]], items[c[o[i]].0]));
    }
    assert forall|k: int| #![trigger c[k]] 0 <= k < c.len() implies exists|i: int|
        0 <= i < rows.len() && #[trigger] rows[i] == item_row(c[k], items[c[k].0]) by {
        assert(o.contains(k));
        let i = choose|i: int| 0 <= i < o.len() && o[i] == k;
        assert(rows[i] == item_row(c[o[i]], items[c[o[i]].0]));
    }
}

fn item_display(id: &String, quantity: u32, item: &Item) -> (r: InventoryItemDisplayData)
    ensures
        inventory_item_view(r) == item_row((id@, quantity), *item),
        r.has_icon == r.icon_path is Some,
{
    let mut mods: Vec<(String, i32)> = Vec::new();
    let mut k: usize = 0;
    while k < item.stat_modifiers.len()
        invariant
            k <= item.stat_modifiers@.len(),
            modifier_views(mods@) == item_modifier_views(item.stat_modifiers@.take(k as int)),
        decreases item.stat_modifiers@.len() - k,
    {
        let ghost before = mods@;
        let name = item.stat_modifiers[k].stat_name.clone();
        assert(name@ == item.stat_modifiers@[k as int].stat_name@);
        mods.push((name, item.stat_modifiers[k].value));
        assert(item.stat_modifiers@.take(k + 1) =~= item.stat_modifiers@.take(k as int).push(
            item.stat_modifiers@[k as int],
        ));
        assert(modifier_views(mods@) =~= modifier_views(before).push((name@, item.stat_modifiers@[k as int].value)));
        assert(modifier_views(mods@) =~= item_modifier_views(item.stat_modifiers@.take(k + 1)));
        k = k + 1;
    }
    assert(item.stat_modifiers@.take(item.stat_modifiers@.len() as int) =~= item.stat_modifiers@);
    let icon_path = match &item.icon {
        Some(p) => Some(p.clone()),
        None => None,
    };
    InventoryItemDisplayData {
        item_id: id.clone(),
        display_name: item.display_name.clone(),
        quantity,
        has_icon: icon_path.is_some(),
        icon_path,
        description: item.description.clone(),
        stat_modifiers: mods,
    }
}

/// The rows of an inventory tab (see `inventory_rows`).
pub fn resolve_inventory_tab_data(inventory: &StrMap<u32>, item_registry: &ItemRegistry, tab: InventoryTab) -> (r:
    Vec<InventoryItemDisplayData>)
    ensures
        inventory_item_views(r@) == inventory_rows(inventory.entries(), item_registry.items.map(), tab),
        forall|i: int| 0 <= i < r@.len() ==> (#[trigger] r@[i]).has_icon == r@[i].icon_path is Some,
{
    let ghost items = item_registry.items.map();
    let cat = tab_to_category(tab);
    let mut ids: Vec<String> = Vec::new();
    let mut qtys: Vec<u32> = Vec::new();
    let mut keys: Vec<Vec<char>> = Vec::new();
    let mut i: usize = 0;
    while i < inventory.len()
        invariant
            i <= inventory.entries().len(),
            items == item_registry.items.map(),
            cat == category_of_tab(tab),
            ids@.len() == qtys@.len(),
            ids@.len() == keys@.len(),
            ({
                let c = tab_candidates(inventory.entries().take(i as int), items, cat);
                &&& c.len() == ids@.len()
                &&& forall|k: int| 0 <= k < c.len() ==> #[trigger] c[k] == (ids@[k]@, qtys@[k])
                &&& key_views(keys@) == candidate_keys(c, items)
                &&& forall|k: int| 0 <= k < c.len() ==> items.contains_key(#[trigger] c[k].0)
            }),
        decreases inventory.entries().len() - i,
    {
        let ghost c0 = tab_candidates(inventory.entries().take(i as int), items, cat);
        let ghost keys0 = keys@;
        proof {
            assert(inventory.entries().take(i + 1).drop_last() =~= inventory.entries().take(i as int));
            assert(inventory.entries().take(i + 1).last() == inventory.entries()[i as int]);
        }
        let id = inventory.key_at(i);
        let qty = *inventory.value_at(i);
        match item_registry.items.get(id.as_str()) {
            Some(item) => {
                if item.category() == cat {
                    let lower = to_lowercase(item.display_name.as_str());
                    let lower_chars = chars_of(lower.as_str());
                    ids.push(id.clone());
                    qtys.push(qty);
                    keys.push(lower_chars);
                    proof {
                        let c1 = tab_candidates(inventory.entries().take(i + 1), items, cat);
                        assert(c1 =~= c0.push((id@, qty)));
                        assert(*item == items[id@]);
                        assert(lower_chars@ == lowercase(items[id@].display_name@));
                        assert(key_views(keys@) =~= key_views(keys0).push(lower_chars@));
                        assert(candidate_keys(c1, items) =~= candidate_keys(c0, items).push(
                            lowercase(items[id@].display_name@),
                        ));
                        assert(key_views(keys@) =~= candidate_keys(c1, items));
                    }
                } else {
                    proof {
                        let c1 = tab_candidates(inventory.entries().take(i + 1), items, cat);
                        assert(c1 =~= c0);
                    }
                }
            },
            None => {
                proof {
                    let c1 = tab_candidates(inventory.entries().take(i + 1), items, cat);
                    assert(c1 =~= c0);
                }
            },
        }
        i = i + 1;
    }
    assert(inventory.entries().take(inventory.entries().len() as int) =~= inventory.entries());
    let ghost c = tab_candidates(inventory.entries(), items, cat);
    let empty: Vec<char> = Vec::new();
    let order = filter_sorted_indices(&keys, &empty);
    assert(empty@ =~= Seq::<char>::empty());
    proof {
        crate::search::lemma_filtered_in_range(key_views(keys@), empty@);
    }
    let mut out: Vec<InventoryItemDisplayData> = Vec::new();
    let mut k: usize = 0;
    while k < order.len()
        invariant
            k <= order@.len(),
            items == item_registry.items.map(),
            c == tab_candidates(inventory.entries(), items, cat),
            cat == category_of_tab(tab),
            c.len() == ids@.len(),
            ids@.len() == qtys@.len(),
            ids@.len() == keys@.len(),
            forall|j: int| 0 <= j < c.len() ==> #[trigger] c[j] == (ids@[j]@, qtys@[j]),
            forall|j: int| 0 <= j < c.len() ==> items.contains_key(#[trigger] c[j].0),
            key_views(keys@) == candidate_keys(c, items),
            empty@ == Seq::<char>::empty(),
            order@.len() == filtered_order(key_views(keys@), empty@).len(),
            forall|j: int|
                0 <= j < order@.len() ==> order@[j] as int == #[trigger] filtered_order(
                    key_views(keys@),
                    empty@,
                )[j],
            forall|j: int|
                0 <= j < filtered_order(key_views(keys@), empty@).len() ==> 0 <= #[trigger] filtered_order(
                    key_views(keys@),
                    empty@,
                )[j] < key_views(keys@).len(),
            inventory_item_views(out@) == inventory_rows(inventory.entries(), items, tab).take(k as int),
            forall|j: int| 0 <= j < out@.len() ==> (#[trigger] out@[j]).has_icon == out@[j].icon_path is Some,
        decreases order@.len() - k,
    {
        let j = order[k];
        assert(order@[k as int] as int == filtered_order(key_views(keys@), empty@)[k as int]);
        assert(j < keys@.len());
        let item = item_registry.items.get(ids[j].as_str());
        assert(c[j as int].0 == ids@[j as int]@);
        match item {
            Some(it) => {
                let row = item_display(&ids[j], qtys[j], it);
                let ghost before = out@;
                out.push(row);
                proof {
                    let rows = inventory_rows(inventory.entries(), items, tab);
                    assert(rows[k as int] == item_row(c[j as int], items[c[j as int].0]));
                    assert(inventory_item_views(out@) =~= inventory_item_views(before).push(
                        inventory_item_view(row),
                    ));
                    assert(rows.take(k + 1) =~= rows.take(k as int).push(rows[k as int]));
                }
            },
            None => {
                assert(false);
            },
        }
        k = k + 1;
    }
    proof {
        let rows = inventory_rows(inventory.entries(), items, tab);
        assert(rows.take(order@.len() as int) =~= rows);
    }
    out
}

// ─── Navigation ──────────────────────────────────────────────────────────────

/// The state of the status screen.
pub struct StatusUiState {
    pub mode: StatusMode,
    pub detail_view: DetailView,
    pub party_selection: usize,
    pub inventory_selection: usize,
    pub inventory_tab: InventoryTab,
    pub party_data: Vec<PartyMemberDisplayData>,
    pub inventory_data: Vec<InventoryItemDisplayData>,
}

/// The keys pressed this frame: back (Escape or Backspace), up (arrow up or
/// W), down (arrow down or S), left (arrow left or A), right (arrow right or
/// D), confirm (Enter or Space).
#[derive(Debug, Clone, Copy, PartialEq, Eq, Structural)]
pub struct StatusKeys {
    pub back: bool,
    pub up: bool,
    pub down: bool,
    pub left: bool,
    pub right: bool,
    pub confirm: bool,
}

/// What the presentation must do after a frame of input.
#[derive(Debug, Clone, Copy, PartialEq, Eq, Structural)]
pub enum StatusEvent {
    Nothing,
    /// Leave the status screen for the game.
    ExitToGame,
    /// Close the character detail and show the party list.
    CloseDetail,
    /// The selection of the current list moved.
    SelectionMoved,
    /// Show the party list page.
    ShowParty,
    /// Show the inventory page.
    ShowInventory,
    /// The inventory tab changed (its rows were rebuilt).
    TabChanged,
    /// Open the detail view of the selected party member.
    OpenDetail,
}

/// The navigation part of the state.
pub struct StatusCore {
    pub mode: StatusMode,
    pub detail_view: DetailView,
    pub party_selection: int,
    pub inventory_selection: int,
    pub inventory_tab: InventoryTab,
}

pub open spec fn status_core(s: StatusUiState) -> StatusCore {
    StatusCore {
        mode: s.mode,
        detail_view: s.detail_view,
        party_selection: s.party_selection as int,
        inventory_selection: s.inventory_selection as int,
        inventory_tab: s.inventory_tab,
    }
}

pub open spec fn clamp_sel(index: int, len: int) -> int {
    if len == 0 {
        0
    } else if index < len {
        index
    } else {
        len - 1
    }
}

/// One frame of input on the status screen: back leaves the detail view or
/// the screen; up and down move the selection of a non-empty list (clamped
/// to it); left and right move between the party page and the inventory
/// tabs (left of the first tab is the party page, right of the last tab
/// stays); confirm on the party page opens the selected member's detail.
/// `rebuilt_len` is the row count of the new tab, when the rows are rebuilt.
pub open spec fn status_transition(
    c: StatusCore,
    keys: StatusKeys,
    party_len: int,
    inventory_len: int,
    rebuilt_len: Option<int>,
) -> (StatusCore, StatusEvent) {
    let list_len = match c.mode {
        StatusMode::PartyList => party_len,
        StatusMode::Inventory => inventory_len,
    };
    let with_tab = |t: InventoryTab|
        StatusCore {
            inventory_tab: t,
            inventory_selection: match rebuilt_len {
                Some(n) => clamp_sel(0, n),
                None => c.inventory_selection,
            },
            ..c
        };
    if keys.back {
        match c.detail_view {
            DetailView::Closed => (c, StatusEvent::ExitToGame),
            DetailView::CharacterDetail => (StatusCore { detail_view: DetailView::Closed, ..c }, StatusEvent::CloseDetail),
        }
    } else if list_len > 0 && keys.up {
        match c.mode {
            StatusMode::PartyList => (
                StatusCore {
                    party_selection: clamp_sel(if c.party_selection > 0 { c.party_selection - 1 } else { 0 }, list_len),
                    ..c
                },
                StatusEvent::SelectionMoved,
            ),
            StatusMode::Inventory => (
                StatusCore {
                    inventory_selection: clamp_sel(
                        if c.inventory_selection > 0 { c.inventory_selection - 1 } else { 0 },
                        list_len,
                    ),
                    ..c
                },
                StatusEvent::SelectionMoved,
            ),
        }
    } else if list_len > 0 && keys.down {
        match c.mode {
            StatusMode::PartyList => (
                StatusCore { party_selection: clamp_sel(c.party_selection + 1, list_len), ..c },
                StatusEvent::SelectionMoved,
            ),
            StatusMode::Inventory => (
                StatusCore { inventory_selection: clamp_sel(c.inventory_selection + 1, list_len), ..c },
                StatusEvent::SelectionMoved,
            ),
        }
    } else if keys.left {
        if c.mode == StatusMode::Inventory && c.detail_view == DetailView::Closed {
            let t = tab_at(tab_index(c.inventory_tab) - 1);
            if t == c.inventory_tab {
                (StatusCore { mode: StatusMode::PartyList, ..c }, StatusEvent::ShowParty)
            } else {
                (with_tab(t), StatusEvent::TabChanged)
            }
        } else {
            (c, StatusEvent::Nothing)
        }
    } else if keys.right {
        if c.detail_view != DetailView::Closed {
            (c, StatusEvent::Nothing)
        } else if c.mode == StatusMode::PartyList {
            (StatusCore { mode: StatusMode::Inventory, ..c }, StatusEvent::ShowInventory)
        } else {
            let t = tab_at(tab_index(c.inventory_tab) + 1);
            if t != c.inventory_tab {
                (with_tab(t), StatusEvent::TabChanged)
            } else {
                (c, StatusEvent::Nothing)
            }
        }
    } else if list_len > 0 && keys.confirm && c.mode == StatusMode::PartyList && c.detail_view
        == DetailView::Closed {
        (StatusCore { detail_view: DetailView::CharacterDetail, ..c }, StatusEvent::OpenDetail)
    } else {
        (c, StatusEvent::Nothing)
    }
}

pub open spec fn inventory_entries(inventory: Option<&StrMap<u32>>) -> Seq<(Seq<char>, u32)> {
    match inventory {
        Some(m) => m.entries(),
        None => Seq::empty(),
    }
}

/// A selection moved down stays representable.
pub open spec fn status_input_ok(s: StatusUiState, keys: StatusKeys) -> bool {
    keys.down ==> s.party_selection < usize::MAX && s.inventory_selection < usize::MAX
}

fn rebuild_tab(
    state: &mut StatusUiState,
    tab: InventoryTab,
    inventory: Option<&StrMap<u32>>,
    item_registry: Option<&ItemRegistry>,
)
    ensures
        final(state).mode == old(state).mode,
        final(state).detail_view == old(state).detail_view,
        final(state).party_selection == old(state).party_selection,
        final(state).party_data == old(state).party_data,
        final(state).inventory_tab == tab,
        match item_registry {
            Some(reg) => {
                &&& inventory_item_views(final(state).inventory_data@) == inventory_rows(
                    inventory_entries(inventory),
                    reg.items.map(),
                    tab,
                )
                &&& final(state).inventory_selection == clamp_sel(0, final(state).inventory_data@.len() as int)
            },
            None => {
                &&& final(state).inventory_data == old(state).inventory_data
                &&& final(state).inventory_selection == old(state).inventory_selection
            },
        },
{
    state.inventory_tab = tab;
    match item_registry {
        Some(reg) => {
            let data = match inventory {
                Some(inv) => resolve_inventory_tab_data(inv, reg, tab),
                None => {
                    let empty: StrMap<u32> = StrMap::new();
                    resolve_inventory_tab_data(&empty, reg, tab)
                },
            };
            state.inventory_selection = clamp_selection(0, data.len());
            state.inventory_data = data;
        },
        None => {},
    }
}

/// Handles one frame of input on the status screen (see
/// `status_transition`) and says what the presentation must update.
pub fn status_input(
    state: &mut StatusUiState,
    keys: StatusKeys,
    inventory: Option<&StrMap<u32>>,
    item_registry: Option<&ItemRegistry>,
) -> (ev: StatusEvent)
    requires
        status_input_ok(*old(state), keys),
    ensures
        final(state).party_data == old(state).party_data,
        ({
            let rebuilt = match item_registry {
                Some(reg) => Some(
                    inventory_rows(inventory_entries(inventory), reg.items.map(), final(state).inventory_tab).len() as int,
                ),
                None => None,
            };
            let (core, event) = status_transition(
                status_core(*old(state)),
                keys,
                old(state).party_data@.len() as int,
                old(state).inventory_data@.len() as int,
                rebuilt,
            );
            &&& ev == event
            &&& status_core(*final(state)) == core
            &&& if ev == StatusEvent::TabChanged && item_registry is Some {
                inventory_item_views(final(state).inventory_data@) == inventory_rows(
                    inventory_entries(inventory),
                    item_registry->0.items.map(),
                    final(state).inventory_tab,
                )
            } else {
                final(state).inventory_data == old(state).inventory_data
            }
        }),
{
    if keys.back {
        match state.detail_view {
            DetailView::Closed => return StatusEvent::ExitToGame,
            DetailView::CharacterDetail => {
                state.detail_view = DetailView::Closed;
                return StatusEvent::CloseDetail;
            },
        }
    }
    let list_len = match state.mode {
        StatusMode::PartyList => state.party_data.len(),
        StatusMode::Inventory => state.inventory_data.len(),
    };
    if list_len > 0 {
        if keys.up {
            match state.mode {
                StatusMode::PartyList => {
                    let idx = state.party_selection.saturating_sub(1);
                    state.party_selection = clamp_selection(idx, list_len);
                },
                StatusMode::Inventory => {
                    let idx = state.inventory_selection.saturating_sub(1);
                    state.inventory_selection = clamp_selection(idx, list_len);
                },
            }
            return StatusEvent::SelectionMoved;
        }
        if keys.down {
            match state.mode {
                StatusMode::PartyList => {
                    let idx = state.party_selection + 1;
                    state.party_selection = clamp_selection(idx, list_len);
                },
                StatusMode::Inventory => {
                    let idx = state.inventory_selection + 1;
                    state.inventory_selection = clamp_selection(idx, list_len);
                },
            }
            return StatusEvent::SelectionMoved;
        }
    }
    if keys.left {
        match state.mode {
            StatusMode::PartyList => {},
            StatusMode::Inventory => {
                if state.detail_view == DetailView::Closed {
                    let new_tab = prev_tab(state.inventory_tab);
                    if new_tab == state.inventory_tab {
                        state.mode = StatusMode::PartyList;
                        return StatusEvent::ShowParty;
                    } else {
                        rebuild_tab(state, new_tab, inventory, item_registry);
                        return StatusEvent::TabChanged;
                    }
                }
            },
        }
        return StatusEvent::Nothing;
    }
    if keys.right {
        match state.mode {
            StatusMode::PartyList => {
                if state.detail_view == DetailView::Closed {
                    state.mode = StatusMode::Inventory;
                    return StatusEvent::ShowInventory;
                }
            },
            StatusMode::Inventory => {
                if state.detail_view == DetailView::Closed {
                    let new_tab = next_tab(state.inventory_tab);
                    if new_tab != state.inventory_tab {
                        rebuild_tab(state, new_tab, inventory, item_registry);
                        return StatusEvent::TabChanged;
                    }
                }
            },
        }
        return StatusEvent::Nothing;
    }
    if list_len > 0 && keys.confirm {
        match state.mode {
            StatusMode::PartyList => {
                if state.detail_view == DetailView::Closed {
                    state.detail_view = DetailView::CharacterDetail;
                    return StatusEvent::OpenDetail;
                }
            },
            StatusMode::Inventory => {},
        }
    }
    StatusEvent::Nothing
}

/// Moving the selection keeps it on a row of a non-empty list.
pub proof fn law_selection_stays_in_list(c: StatusCore, keys: StatusKeys, party_len: int, inventory_len: int, rebuilt_len: Option<int>)
    requires
        party_len >= 0,
        inventory_len >= 0,
        0 <= c.party_selection,
        0 <= c.inventory_selection,
        status_transition(c, keys, party_len, inventory_len, rebuilt_len).1 == StatusEvent::SelectionMoved,
    ensures
        ({
            let n = status_transition(c, keys, party_len, inventory_len, rebuilt_len).0;
            match c.mode {
                StatusMode::PartyList => 0 <= n.party_selection < party_len,
                StatusMode::Inventory => 0 <= n.inventory_selection < inventory_len,
            }
        }),
{
}

/// The number of places a selection may take in a list of `len` rows (an
/// empty list still has the one place 0).
pub open spec fn selection_places(len: int) -> int {
    if len > 0 {
        len
    } else {
        1
    }
}

/// Every frame keeps both selections on their lists: a party selection
/// below the party's places and an inventory selection below the places of
/// the inventory rows shown (the rebuilt rows after a tab change). The tab
/// only moves to the next or previous tab, and rebuilding its rows puts
/// the selection back on the first row.
pub proof fn law_status_selection_invariant(
    c: StatusCore,
    keys: StatusKeys,
    party_len: int,
    inventory_len: int,
    rebuilt_len: Option<int>,
)
    requires
        party_len >= 0,
        inventory_len >= 0,
        rebuilt_len matches Some(k) ==> k >= 0,
        0 <= c.party_selection < selection_places(party_len),
        0 <= c.inventory_selection < selection_places(inventory_len),
    ensures
        ({
            let (n, ev) = status_transition(c, keys, party_len, inventory_len, rebuilt_len);
            let shown = if ev == StatusEvent::TabChanged {
                match rebuilt_len {
                    Some(k) => k,
                    None => inventory_len,
                }
            } else {
                inventory_len
            };
            &&& 0 <= n.party_selection < selection_places(party_len)
            &&& 0 <= n.inventory_selection < selection_places(shown)
            &&& ev != StatusEvent::TabChanged ==> n.inventory_tab == c.inventory_tab
            &&& ev == StatusEvent::TabChanged ==> (n.inventory_tab == tab_at(tab_index(c.inventory_tab) + 1)
                || n.inventory_tab == tab_at(tab_index(c.inventory_tab) - 1))
            &&& (ev == StatusEvent::TabChanged && rebuilt_len is Some) ==> n.inventory_selection == 0
        }),
{
}

// ─── Character detail ────────────────────────────────────────────────────────

/// What the character detail view shows.
pub struct CharacterDetail {
    pub display_name: String,
    pub level: u32,
    pub has_portrait: bool,
    /// Every stat but the level, at the character's level.
    pub stats: Vec<(String, u32)>,
    /// Names of the starting equipment the item registry knows.
    pub equipment: Vec<String>,
    /// Names of the learned abilities the ability registry knows.
    pub abilities: Vec<String>,
}

/// The level of a character: its "Level" stat's base value, or 1.
pub open spec fn level_of(c: Character) -> u32 {
    match first_stat(c.stats@, "Level"@) {
        Some(st) => st.base_value,
        None => 1,
    }
}

/// The stats other than the level among the first `n`, at `level`.
pub open spec fn detail_stats(stats: Seq<Stat>, level: u32, n: int) -> Seq<(Seq<char>, u32)>
    decreases n,
{
    if n <= 0 {
        Seq::empty()
    } else {
        detail_stats(stats, level, n - 1) + if stats[n - 1].name@ == "Level"@ {
            Seq::empty()
        } else {
            seq![(stats[n - 1].name@, effective_stat(stats[n - 1].base_value, stats[n - 1].growth_value, level))]
        }
    }
}

/// The names that `names` gives the ids it knows, in order.
pub open spec fn known_names(ids: Seq<Seq<char>>, names: Map<Seq<char>, Seq<char>>) -> Seq<Seq<char>>
    decreases ids.len(),
{
    if ids.len() == 0 {
        Seq::empty()
    } else {
        known_names(ids.drop_last(), names) + if names.contains_key(ids.last()) {
            seq![names[ids.last()]]
        } else {
            Seq::empty()
        }
    }
}

pub open spec fn item_names(m: Map<Seq<char>, Item>) -> Map<Seq<char>, Seq<char>> {
    m.map_values(|i: Item| i.display_name@)
}

pub open spec fn ability_names(m: Map<Seq<char>, crate::catalog::Ability>) -> Map<Seq<char>, Seq<char>> {
    m.map_values(|a: crate::catalog::Ability| a.display_name@)
}

fn item_display_names(ids: &Vec<String>, registry: &ItemRegistry) -> (r: Vec<String>)
    ensures
        texts_view(r@) == known_names(texts_view(ids@), item_names(registry.items.map())),
{
    let ghost names = item_names(registry.items.map());
    let mut out: Vec<String> = Vec::new();
    let mut i: usize = 0;
    while i < ids.len()
        invariant
            i <= ids@.len(),
            names == item_names(registry.items.map()),
            texts_view(out@) == known_names(texts_view(ids@.take(i as int)), names),
        decreases ids@.len() - i,
    {
        proof {
            assert(texts_view(ids@.take(i + 1)).drop_last() =~= texts_view(ids@.take(i as int)));
            assert(texts_view(ids@.take(i + 1)).last() == ids@[i as int]@);
        }
        let ghost before = out@;
        match registry.items.get(ids[i].as_str()) {
            Some(item) => {
                out.push(item.display_name.clone());
                assert(texts_view(out@) =~= texts_view(before).push(names[ids@[i as int]@]));
            },
            None => {},
        }
        i = i + 1;
    }
    assert(ids@.take(ids@.len() as int) =~= ids@);
    out
}

fn ability_display_names(ids: &Vec<String>, registry: &crate::catalog::AbilityRegistry) -> (r: Vec<String>)
    ensures
        texts_view(r@) == known_names(texts_view(ids@), ability_names(registry.abilities.map())),
{
    let ghost names = ability_names(registry.abilities.map());
    let mut out: Vec<String> = Vec::new();
    let mut i: usize = 0;
    while i < ids.len()
        invariant
            i <= ids@.len(),
            names == ability_names(registry.abilities.map()),
            texts_view(out@) == known_names(texts_view(ids@.take(i as int)), names),
        decreases ids@.len() - i,
    {
        proof {
            assert(texts_view(ids@.take(i + 1)).drop_last() =~= texts_view(ids@.take(i as int)));
            assert(texts_view(ids@.take(i + 1)).last() == ids@[i as int]@);
        }
        let ghost before = out@;
        match registry.abilities.get(ids[i].as_str()) {
            Some(a) => {
                out.push(a.display_name.clone());
                assert(texts_view(out@) =~= texts_view(before).push(names[ids@[i as int]@]));
            },
            None => {},
        }
        i = i + 1;
    }
    assert(ids@.take(ids@.len() as int) =~= ids@);
    out
}

/// The detail view of the selected party row: none without a selected row
/// or an unknown character; equipment names need the item registry, and
/// ability names the progress and the ability registry (otherwise empty).
pub fn populate_character_detail(
    state: &StatusUiState,
    character_registry: Option<&CharacterRegistry>,
    item_registry: Option<&ItemRegistry>,
    ability_registry: Option<&crate::catalog::AbilityRegistry>,
    progress: Option<&StrMap<CharacterProgress>>,
) -> (r: Option<CharacterDetail>)
    ensures
        ({
            let sel = state.party_selection as int;
            if sel >= state.party_data@.len() || character_registry is None
                || !character_registry->0.characters.map().contains_key(state.party_data@[sel].character_id@) {
                r is None
            } else {
                let id = state.party_data@[sel].character_id@;
                let c = character_registry->0.characters.map()[id];
                let lv = level_of(c);
                r matches Some(d) && {
                    &&& d.display_name@ == c.display_name@
                    &&& d.level == lv
                    &&& d.has_portrait == c.face_portrait is Some
                    &&& d.stats@.map_values(|p: (String, u32)| (p.0@, p.1)) == detail_stats(c.stats@, lv, c.stats@.len() as int)
                    &&& texts_view(d.equipment@) == match item_registry {
                        Some(reg) => known_names(texts_view(c.starting_equipment@), item_names(reg.items.map())),
                        None => Seq::empty(),
                    }
                    &&& texts_view(d.abilities@) == match (progress, ability_registry) {
                        (Some(p), Some(reg)) => known_names(
                            if p.map().contains_key(id) {
                                texts_view(p.map()[id].learned_abilities@)
                            } else {
                                Seq::empty()
                            },
                            ability_names(reg.abilities.map()),
                        ),
                        _ => Seq::empty(),
                    }
                }
            }
        }),
{
    if state.party_selection >= state.party_data.len() {
        return None;
    }
    let member = &state.party_data[state.party_selection];
    let reg = match character_registry {
        Some(r) => r,
        None => return None,
    };
    let c = match reg.characters.get(member.character_id.as_str()) {
        Some(c) => c,
        None => return None,
    };
    let level = match find_stat(&c.stats, "Level") {
        Some(st) => st.base_value,
        None => 1,
    };
    let mut stats: Vec<(String, u32)> = Vec::new();
    let mut i: usize = 0;
    while i < c.stats.len()
        invariant
            i <= c.stats@.len(),
            stats@.map_values(|p: (String, u32)| (p.0@, p.1)) == detail_stats(c.stats@, level, i as int),
        decreases c.stats@.len() - i,
    {
        let st = &c.stats[i];
        if !str_eq(st.name.as_str(), "Level") {
            let ghost before = stats@;
            let name = st.name.clone();
            stats.push((name, compute_effective_stat(st.base_value, st.growth_value, level)));
            assert(stats@.map_values(|p: (String, u32)| (p.0@, p.1)) =~= before.map_values(
                |p: (String, u32)| (p.0@, p.1),
            ).push((c.stats@[i as int].name@, effective_stat(c.stats@[i as int].base_value, c.stats@[i as int].growth_value, level))));
        }
        i = i + 1;
    }
    let equipment = match item_registry {
        Some(ir) => item_display_names(&c.starting_equipment, ir),
        None => {
            let v: Vec<String> = Vec::new();
            assert(texts_view(v@) =~= Seq::<Seq<char>>::empty());
            v
        },
    };
    let abilities = match (progress, ability_registry) {
        (Some(p), Some(ar)) => match p.get(member.character_id.as_str()) {
            Some(pr) => ability_display_names(&pr.learned_abilities, ar),
            None => {
                let v: Vec<String> = Vec::new();
                assert(known_names(Seq::empty(), ability_names(ar.abilities.map())) =~= Seq::<Seq<char>>::empty());
                assert(texts_view(v@) =~= Seq::<Seq<char>>::empty());
                v
            },
        },
        _ => {
            let v: Vec<String> = Vec::new();
            assert(texts_view(v@) =~= Seq::<Seq<char>>::empty());
            v
        },
    };
    Some(
        CharacterDetail {
            display_name: c.display_name.clone(),
            level,
            has_portrait: c.face_portrait.is_some(),
            stats,
            equipment,
            abilities,
        },
    )
}

} // verus!
