use rpg_toolkit::catalog::{Item, ItemCategory, ItemRegistry, ShopEntry};
use rpg_toolkit::condition::{BranchCondition, ConditionCheck, ConditionLogic, ConditionOperator};
use rpg_toolkit::shop::{
    compute_sell_price, execute_buy, execute_sell, initial_stock, max_buy_quantity, sellable_items,
    visible_entries, ShopError,
};
use rpg_toolkit::strmap::StrMap;

fn make_item(id: &str, value: u32, stackable: bool, stack_limit: u32, category: ItemCategory) -> Item {
    Item {
        id: id.to_string(),
        display_name: id.to_string(),
        description: String::new(),
        category,
        value,
        stackable,
        stack_limit,
        stat_modifiers: Vec::new(),
        icon: None,
    }
}

fn make_consumable(id: &str, value: u32) -> Item {
    make_item(id, value, true, 99, ItemCategory::Consumable)
}

fn make_key_item(id: &str) -> Item {
    make_item(id, 0, false, 1, ItemCategory::KeyItem)
}

fn make_entry(item_id: &str, buy_price: u32, sell_price: Option<u32>, stock_limit: Option<u32>) -> ShopEntry {
    ShopEntry { item_id: item_id.to_string(), buy_price, sell_price, stock_limit, condition: None }
}

fn boss_condition(checks: bool) -> Option<BranchCondition> {
    Some(BranchCondition {
        logic: ConditionLogic::All,
        checks: if checks {
            vec![ConditionCheck {
                key: "boss_defeated".to_string(),
                operator: ConditionOperator::Equals,
                value: Some("true".to_string()),
            }]
        } else {
            vec![]
        },
    })
}

fn registry_with(item: Item) -> ItemRegistry {
    let mut registry = ItemRegistry::new();
    registry.items.insert(item.id.clone(), item);
    registry
}

// ─── compute_sell_price ──────────────────────────────────────────────────────

#[test]
fn test_compute_sell_price_with_override() {
    let entry = make_entry("potion", 100, Some(30), None);
    let item = make_consumable("potion", 100);
    assert_eq!(compute_sell_price(&entry, &item), 30);
}

#[test]
fn test_compute_sell_price_without_override() {
    let entry = make_entry("potion", 100, None, None);
    let item = make_consumable("potion", 100);
    assert_eq!(compute_sell_price(&entry, &item), 50);
}

#[test]
fn test_compute_sell_price_odd_value() {
    let entry = make_entry("potion", 100, None, None);
    let item = make_consumable("potion", 7);
    assert_eq!(compute_sell_price(&entry, &item), 3);
}

// ─── max_buy_quantity ────────────────────────────────────────────────────────

#[test]
fn test_max_buy_quantity_basic() {
    assert_eq!(max_buy_quantity(1000, 100, None, true, 99, 0), 10);
}

#[test]
fn test_max_buy_quantity_limited_by_stock() {
    assert_eq!(max_buy_quantity(1000, 100, Some(3), true, 99, 0), 3);
}

#[test]
fn test_max_buy_quantity_limited_by_stack() {
    assert_eq!(max_buy_quantity(1000, 100, None, true, 99, 94), 5);
}

#[test]
fn test_max_buy_quantity_non_stackable_empty() {
    assert_eq!(max_buy_quantity(1000, 100, None, false, 1, 0), 1);
}

#[test]
fn test_max_buy_quantity_non_stackable_already_held() {
    assert_eq!(max_buy_quantity(1000, 100, None, false, 1, 1), 0);
}

#[test]
fn test_max_buy_quantity_zero_price() {
    assert_eq!(max_buy_quantity(0, 0, Some(5), true, 99, 0), 5);
}

// ─── execute_buy ─────────────────────────────────────────────────────────────

#[test]
fn test_execute_buy_success() {
    let result = execute_buy(1000, 0, 100, 3, Some(10), true, 99).unwrap();
    assert_eq!(result.new_balance, 700);
    assert_eq!(result.new_inventory_qty, 3);
    assert_eq!(result.new_stock, Some(7));
}

#[test]
fn test_execute_buy_insufficient_funds() {
    let result = execute_buy(200, 0, 100, 3, None, true, 99);
    assert_eq!(result, Err(ShopError::InsufficientFunds));
}

#[test]
fn test_execute_buy_stack_overflow() {
    let result = execute_buy(10000, 95, 100, 10, None, true, 99);
    assert_eq!(result, Err(ShopError::InventoryFull));
}

#[test]
fn test_execute_buy_non_stackable_already_held() {
    let result = execute_buy(10000, 1, 100, 1, None, false, 1);
    assert_eq!(result, Err(ShopError::InventoryFull));
}

#[test]
fn test_execute_buy_insufficient_stock() {
    let result = execute_buy(10000, 0, 100, 5, Some(3), true, 99);
    assert_eq!(result, Err(ShopError::InsufficientStock));
}

#[test]
fn test_execute_buy_unlimited_stock() {
    let result = execute_buy(1000, 0, 100, 5, None, true, 99).unwrap();
    assert_eq!(result.new_balance, 500);
    assert_eq!(result.new_inventory_qty, 5);
    assert_eq!(result.new_stock, None);
}

// ─── execute_sell ────────────────────────────────────────────────────────────

#[test]
fn test_execute_sell_success() {
    let result = execute_sell(100, 5, 30, 3).unwrap();
    assert_eq!(result.new_balance, 190);
    assert_eq!(result.new_inventory_qty, 2);
}

#[test]
fn test_execute_sell_insufficient_inventory() {
    let result = execute_sell(100, 2, 30, 3);
    assert_eq!(result, Err(ShopError::InsufficientInventory));
}

#[test]
fn test_execute_sell_saturating_add() {
    let result = execute_sell(u64::MAX - 10, 5, 100, 1).unwrap();
    assert_eq!(result.new_balance, u64::MAX);
}

// ─── visible_entries ─────────────────────────────────────────────────────────

#[test]
fn test_visible_entries_no_condition() {
    let registry = registry_with(make_consumable("potion", 100));
    let entries = vec![make_entry("potion", 100, None, None)];
    let flags = StrMap::new();
    let visible = visible_entries(&entries, &flags, &registry);
    assert_eq!(visible.len(), 1);
}

#[test]
fn test_visible_entries_missing_item() {
    let registry = ItemRegistry::new();
    let entries = vec![make_entry("missing", 100, None, None)];
    let flags = StrMap::new();
    let visible = visible_entries(&entries, &flags, &registry);
    assert_eq!(visible.len(), 0);
}

#[test]
fn test_visible_entries_condition_false() {
    let registry = registry_with(make_consumable("potion", 100));
    let mut entry = make_entry("potion", 100, None, None);
    entry.condition = boss_condition(true);
    let entries = vec![entry];
    let flags = StrMap::new();
    let visible = visible_entries(&entries, &flags, &registry);
    assert_eq!(visible.len(), 0);
}

#[test]
fn test_visible_entries_condition_true() {
    let registry = registry_with(make_consumable("potion", 100));
    let mut entry = make_entry("potion", 100, None, None);
    entry.condition = boss_condition(true);
    let entries = vec![entry];
    let mut flags = StrMap::new();
    flags.insert("boss_defeated".to_string(), "true".to_string());
    let visible = visible_entries(&entries, &flags, &registry);
    assert_eq!(visible.len(), 1);
}

#[test]
fn test_visible_entries_empty_checks() {
    let registry = registry_with(make_consumable("potion", 100));
    let mut entry = make_entry("potion", 100, None, None);
    entry.condition = boss_condition(false);
    let entries = vec![entry];
    let flags = StrMap::new();
    let visible = visible_entries(&entries, &flags, &registry);
    assert_eq!(visible.len(), 1);
}

// ─── sellable_items ──────────────────────────────────────────────────────────

fn inventory_with(id: &str, qty: u32) -> StrMap<u32> {
    let mut inventory = StrMap::new();
    inventory.insert(id.to_string(), qty);
    inventory
}

#[test]
fn test_sellable_items_basic() {
    let registry = registry_with(make_consumable("potion", 100));
    let inventory = inventory_with("potion", 5);
    let entries = vec![make_entry("potion", 100, Some(40), None)];
    let sellable = sellable_items(&inventory, &registry, &entries);
    assert_eq!(sellable.len(), 1);
    assert_eq!(sellable[0], ("potion".to_string(), 5, 40));
}

#[test]
fn test_sellable_items_excludes_key_items() {
    let registry = registry_with(make_key_item("quest_item"));
    let inventory = inventory_with("quest_item", 1);
    let entries = vec![make_entry("quest_item", 0, Some(100), None)];
    let sellable = sellable_items(&inventory, &registry, &entries);
    assert_eq!(sellable.len(), 0);
}

#[test]
fn test_sellable_items_excludes_zero_sell_price() {
    let registry = registry_with(make_consumable("junk", 0));
    let inventory = inventory_with("junk", 3);
    let entries: Vec<ShopEntry> = vec![];
    let sellable = sellable_items(&inventory, &registry, &entries);
    assert_eq!(sellable.len(), 0);
}

#[test]
fn test_sellable_items_uses_default_sell_price() {
    let registry = registry_with(make_consumable("potion", 80));
    let inventory = inventory_with("potion", 2);
    let entries: Vec<ShopEntry> = vec![];
    let sellable = sellable_items(&inventory, &registry, &entries);
    assert_eq!(sellable.len(), 1);
    assert_eq!(sellable[0], ("potion".to_string(), 2, 40));
}

#[test]
fn test_sellable_items_excludes_missing_from_registry() {
    let registry = ItemRegistry::new();
    let inventory = inventory_with("nonexistent", 3);
    let entries: Vec<ShopEntry> = vec![];
    let sellable = sellable_items(&inventory, &registry, &entries);
    assert_eq!(sellable.len(), 0);
}

#[test]
fn test_sellable_items_excludes_zero_quantity() {
    let registry = registry_with(make_consumable("potion", 100));
    let inventory = inventory_with("potion", 0);
    let entries: Vec<ShopEntry> = vec![];
    let sellable = sellable_items(&inventory, &registry, &entries);
    assert_eq!(sellable.len(), 0);
}

// ─── further cases ───────────────────────────────────────────────────────────

#[test]
fn buy_then_sell_restores_quantity() {
    let bought = execute_buy(500, 2, 50, 4, Some(6), true, 99).unwrap();
    assert_eq!(bought.new_balance, 300);
    assert_eq!(bought.new_inventory_qty, 6);
    assert_eq!(bought.new_stock, Some(2));
    let sold = execute_sell(bought.new_balance, bought.new_inventory_qty, 50, 4).unwrap();
    assert_eq!(sold.new_balance, 500);
    assert_eq!(sold.new_inventory_qty, 2);
}

#[test]
fn max_buy_quantity_is_buyable() {
    let q = max_buy_quantity(350, 100, Some(8), true, 10, 4);
    assert_eq!(q, 3);
    assert!(execute_buy(350, 4, 100, q, Some(8), true, 10).is_ok());
    assert!(execute_buy(350, 4, 100, q + 1, Some(8), true, 10).is_err());
}

#[test]
fn initial_stock_clamps_saved_value() {
    assert_eq!(initial_stock(5, None), 5);
    assert_eq!(initial_stock(5, Some(3)), 3);
    assert_eq!(initial_stock(5, Some(9)), 5);
}

#[test]
fn execute_buy_full_stack_at_u32_limit_is_inventory_full() {
    assert_eq!(execute_buy(0, u32::MAX, 0, 1, None, true, u32::MAX), Err(ShopError::InventoryFull));
}
