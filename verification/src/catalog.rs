//! Project catalog data: items, characters, abilities and shops, as the
//! game rules read them.
use vstd::prelude::*;
use crate::condition::BranchCondition;
use crate::strmap::StrMap;

verus! {

/// The category of an item, used for filtering and inventory tabs.
#[derive(Debug, Clone, Copy, PartialEq, Eq, Structural)]
pub enum ItemCategory {
    Weapon,
    Armor,
    Accessory,
    Consumable,
    KeyItem,
}

/// The name the editor shows for a category.
pub fn category_display_name(category: ItemCategory) -> (r: &'static str)
    ensures
        r@ == match category {
            ItemCategory::Weapon => "Weapon"@,
            ItemCategory::Armor => "Armor"@,
            ItemCategory::Accessory => "Accessory"@,
            ItemCategory::Consumable => "Consumable"@,
            ItemCategory::KeyItem => "Key Item"@,
        },
{
    match category {
        ItemCategory::Weapon => "Weapon",
        ItemCategory::Armor => "Armor",
        ItemCategory::Accessory => "Accessory",
        ItemCategory::Consumable => "Consumable",
        ItemCategory::KeyItem => "Key Item",
    }
}

/// A named stat change granted by an item.
#[derive(Debug, Clone, PartialEq, Eq)]
pub struct StatModifier {
    pub stat_name: String,
    pub value: i32,
}

/// An item definition.
#[derive(Debug)]
pub struct Item {
    pub id: String,
    pub display_name: String,
    pub description: String,
    pub category: ItemCategory,
    /// Base value in currency units.
    pub value: u32,
    pub stackable: bool,
    pub stack_limit: u32,
    pub stat_modifiers: Vec<StatModifier>,
    /// Relative path of the item's icon, if it has one.
    pub icon: Option<String>,
}

impl Item {
    pub fn category(&self) -> (c: ItemCategory)
        ensures
            c == self.category,
    {
        self.category
    }
}

/// All item definitions by id.
pub struct ItemRegistry {
    pub items: StrMap<Item>,
}

impl ItemRegistry {
    pub fn new() -> (r: Self)
        ensures
            r.items.map() == Map::<Seq<char>, Item>::empty(),
    {
        ItemRegistry { items: StrMap::new() }
    }
}

/// A base stat of a character and its growth per level.
#[derive(Debug, Clone, PartialEq, Eq)]
pub struct Stat {
    pub name: String,
    pub base_value: u32,
    pub growth_value: u32,
}

/// A playable character definition.
#[derive(Debug)]
pub struct Character {
    pub id: String,
    pub display_name: String,
    pub stats: Vec<Stat>,
    /// Relative path of the face portrait, if any.
    pub face_portrait: Option<String>,
    /// Item ids the character starts equipped with.
    pub starting_equipment: Vec<String>,
}

/// All character definitions by id.
pub struct CharacterRegistry {
    pub characters: StrMap<Character>,
}

impl CharacterRegistry {
    pub fn new() -> (r: Self)
        ensures
            r.characters.map() == Map::<Seq<char>, Character>::empty(),
    {
        CharacterRegistry { characters: StrMap::new() }
    }
}

/// An ability definition.
#[derive(Debug)]
pub struct Ability {
    pub id: String,
    pub display_name: String,
}

/// All ability definitions by id.
pub struct AbilityRegistry {
    pub abilities: StrMap<Ability>,
}

impl AbilityRegistry {
    pub fn new() -> (r: Self)
        ensures
            r.abilities.map() == Map::<Seq<char>, Ability>::empty(),
    {
        AbilityRegistry { abilities: StrMap::new() }
    }
}

/// An item offered by a shop.
#[derive(Debug)]
pub struct ShopEntry {
    pub item_id: String,
    pub buy_price: u32,
    /// Overrides the default sell price (half the item value).
    pub sell_price: Option<u32>,
    /// Units in stock per visit; `None` is unlimited.
    pub stock_limit: Option<u32>,
    /// The entry is offered only while this condition holds.
    pub condition: Option<BranchCondition>,
}

/// A shop and its offers.
#[derive(Debug)]
pub struct ShopDefinition {
    pub display_name: String,
    pub entries: Vec<ShopEntry>,
}

/// All shops by id.
pub struct ShopRegistry {
    pub shops: StrMap<ShopDefinition>,
}

} // verus!
