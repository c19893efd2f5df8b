use rpg_toolkit::catalog::{Item, ItemCategory, ItemRegistry, ShopDefinition, ShopEntry};
use rpg_toolkit::actions::{DialogConfigData, DialogPositionData};
use rpg_toolkit::dialog::{
    dialog_config_from_data, DialogConfig, DialogPosition,
    detect_overflow, handle_dialog_input, open_dialog, reveal_text_spans, update_dialog_typewriter, DialogInput,
    DialogTextRegistry, RegistryError,
};
use rpg_toolkit::markup::parse_markup;
use rpg_toolkit::shop_session::{
    compute_max_quantity, handle_buy_confirm, handle_sell_confirm, open_shop, shop_input, ShopEvent, ShopKeys, ShopMode,
};
use rpg_toolkit::strmap::StrMap;

#[test]
fn registry_reads_json_object() {
    let reg = DialogTextRegistry::from_json(r#"{"greet": "Hello *there*", "bye": "Farewell"}"#).expect("valid JSON");
    assert_eq!(reg.get("greet"), Some("Hello *there*"));
    assert_eq!(reg.get("bye"), Some("Farewell"));
    assert_eq!(reg.get("nope"), None);
}

#[test]
fn registry_rejects_bad_json() {
    assert!(matches!(DialogTextRegistry::from_json("not json"), Err(RegistryError::InvalidJson(_))));
    assert!(matches!(DialogTextRegistry::from_json(r#"{"a": 1}"#), Err(RegistryError::InvalidJson(_))));
    assert!(matches!(DialogTextRegistry::from_json("[]"), Err(RegistryError::InvalidJson(_))));
}

#[test]
fn registry_read_after_write() {
    let mut reg = DialogTextRegistry::from_map(vec![
        ("a".to_string(), "first".to_string()),
        ("a".to_string(), "second".to_string()),
    ]);
    assert_eq!(reg.get("a"), Some("second"));
    reg.insert("b".to_string(), "bee".to_string());
    assert_eq!(reg.get("b"), Some("bee"));
    assert_eq!(reg.remove("b"), Some("bee".to_string()));
    assert_eq!(reg.get("b"), None);
    assert_eq!(reg.remove("b"), None);
    assert_eq!(DialogTextRegistry::new().get("a"), None);
}

#[test]
fn dialog_reveals_then_dismisses() {
    let s = open_dialog("Hello".to_string(), 30.0f32.to_bits(), true);
    assert_eq!(s.total_chars, 5);
    assert_eq!(s.chars_revealed, 0);
    assert!(!s.fully_revealed);
    let mut d = Some(s);
    assert_eq!(handle_dialog_input(false, &mut d), DialogInput::Nothing);
    assert_eq!(handle_dialog_input(true, &mut d), DialogInput::Revealed);
    assert_eq!(d.as_ref().unwrap().chars_revealed, 5);
    assert_eq!(handle_dialog_input(true, &mut d), DialogInput::Dismissed);
    assert!(d.is_none());
    assert_eq!(handle_dialog_input(true, &mut d), DialogInput::Nothing);
}

#[test]
fn instant_dialog_when_speed_not_positive() {
    let s = open_dialog("Hi".to_string(), 0.0f32.to_bits(), false);
    assert!(s.fully_revealed);
    assert_eq!(s.chars_revealed, 2);
    let s = open_dialog("Hi".to_string(), (-1.0f32).to_bits(), false);
    assert!(s.fully_revealed);
    let s = open_dialog(String::new(), 30.0f32.to_bits(), false);
    assert!(s.fully_revealed);
}

#[test]
fn typewriter_advances_to_computed_count() {
    let mut s = open_dialog("Hello".to_string(), 30.0f32.to_bits(), true);
    update_dialog_typewriter(&mut s, 3);
    assert_eq!(s.chars_revealed, 3);
    assert!(!s.fully_revealed);
    update_dialog_typewriter(&mut s, 5);
    assert!(s.fully_revealed);
}

#[test]
fn overflow_past_capacity() {
    assert!(!detect_overflow(&"a".repeat(240)));
    assert!(detect_overflow(&"a".repeat(241)));
    assert!(!detect_overflow(&"é".repeat(200)));
}

#[test]
fn reveal_spans_cut_styled_segments() {
    let segs = parse_markup("ab__cd__ef");
    assert_eq!(reveal_text_spans(3, &segs), vec!["ab".to_string(), "c".to_string(), String::new()]);
    assert_eq!(reveal_text_spans(0, &segs), vec![String::new(), String::new(), String::new()]);
    assert_eq!(reveal_text_spans(100, &segs), vec!["ab".to_string(), "cd".to_string(), "ef".to_string()]);
}

fn item(id: &str, category: ItemCategory, value: u32, stackable: bool) -> Item {
    Item {
        id: id.to_string(),
        display_name: id.to_uppercase(),
        description: String::new(),
        category,
        value,
        stackable,
        stack_limit: 99,
        stat_modifiers: Vec::new(),
        icon: None,
    }
}

fn registry() -> ItemRegistry {
    let mut r = ItemRegistry::new();
    r.items.insert("potion".to_string(), item("potion", ItemCategory::Consumable, 20, true));
    r.items.insert("sword".to_string(), item("sword", ItemCategory::Weapon, 100, false));
    r.items.insert("key".to_string(), item("key", ItemCategory::KeyItem, 0, false));
    r
}

fn shop() -> ShopDefinition {
    ShopDefinition {
        display_name: "Corner Shop".to_string(),
        entries: vec![
            ShopEntry { item_id: "potion".to_string(), buy_price: 10, sell_price: None, stock_limit: Some(3), condition: None },
            ShopEntry { item_id: "sword".to_string(), buy_price: 50, sell_price: Some(30), stock_limit: None, condition: None },
            ShopEntry { item_id: "ghost".to_string(), buy_price: 1, sell_price: None, stock_limit: None, condition: None },
        ],
    }
}

fn keys() -> ShopKeys {
    ShopKeys { any: true, back: false, tab: false, up: false, down: false, more: false, less: false, confirm: false }
}

#[test]
fn opening_shop_lists_known_offers_and_sellables() {
    let mut inv = StrMap::new();
    inv.insert("sword".to_string(), 1);
    inv.insert("key".to_string(), 1);
    let (ui, stock) = open_shop(&shop(), &StrMap::new(), &registry(), &inv, None);
    assert_eq!(ui.mode, ShopMode::Buy);
    assert_eq!(ui.shop_name, "Corner Shop");
    assert_eq!(ui.buy_items.len(), 2);
    assert_eq!(ui.buy_items[0].display_name, "POTION");
    assert_eq!(ui.sell_items, vec![("sword".to_string(), 1, 30)]);
    assert_eq!(stock.remaining.get("potion"), Some(&3));
    assert_eq!(stock.remaining.get("sword"), None);
    let mut saved = StrMap::new();
    saved.insert("potion".to_string(), 1);
    let (_, stock) = open_shop(&shop(), &StrMap::new(), &registry(), &inv, Some(&saved));
    assert_eq!(stock.remaining.get("potion"), Some(&1));
}

#[test]
fn buying_through_the_screen() {
    let inv0 = StrMap::new();
    let (mut ui, mut stock) = open_shop(&shop(), &StrMap::new(), &registry(), &inv0, None);
    let mut balance: u64 = 100;
    let mut inv: StrMap<u32> = StrMap::new();
    let reg = registry();
    let entries = shop().entries;
    assert_eq!(compute_max_quantity(&ui, balance, &inv, &stock), 3);
    assert_eq!(shop_input(&mut ui, &mut stock, ShopKeys { more: true, ..keys() }, &mut balance, &mut inv, Some(&reg), Some(&entries)), ShopEvent::Stay);
    assert_eq!(ui.quantity, 2);
    assert_eq!(shop_input(&mut ui, &mut stock, ShopKeys { confirm: true, ..keys() }, &mut balance, &mut inv, Some(&reg), Some(&entries)), ShopEvent::Stay);
    assert_eq!(balance, 80);
    assert_eq!(inv.get("potion"), Some(&2));
    assert_eq!(stock.remaining.get("potion"), Some(&1));
    ui.quantity = 2;
    handle_buy_confirm(&mut ui, &mut balance, &mut inv, &mut stock);
    assert_eq!(ui.error_message, Some("Insufficient stock!".to_string()));
    assert_eq!(balance, 80);
    assert_eq!(shop_input(&mut ui, &mut stock, ShopKeys { back: true, ..keys() }, &mut balance, &mut inv, Some(&reg), Some(&entries)), ShopEvent::Exit);
}

#[test]
fn buying_unaffordable_shows_error() {
    let (mut ui, mut stock) = open_shop(&shop(), &StrMap::new(), &registry(), &StrMap::new(), None);
    let mut balance: u64 = 40;
    let mut inv: StrMap<u32> = StrMap::new();
    ui.selected_index = 1;
    handle_buy_confirm(&mut ui, &mut balance, &mut inv, &mut stock);
    assert_eq!(ui.error_message, Some("Insufficient funds!".to_string()));
    assert_eq!(balance, 40);
    assert_eq!(inv.get("sword"), None);
}

#[test]
fn selling_through_the_screen() {
    let mut inv = StrMap::new();
    inv.insert("sword".to_string(), 1);
    inv.insert("potion".to_string(), 4);
    let reg = registry();
    let entries = shop().entries;
    let (mut ui, mut stock) = open_shop(&shop(), &StrMap::new(), &reg, &inv, None);
    let mut balance: u64 = 0;
    assert_eq!(shop_input(&mut ui, &mut stock, ShopKeys { tab: true, ..keys() }, &mut balance, &mut inv, Some(&reg), Some(&entries)), ShopEvent::Stay);
    assert_eq!(ui.mode, ShopMode::Sell);
    assert_eq!(ui.sell_items.len(), 2);
    let sword_index = ui.sell_items.iter().position(|s| s.0 == "sword").unwrap();
    ui.selected_index = sword_index;
    ui.quantity = 1;
    handle_sell_confirm(&mut ui, &mut balance, &mut inv, Some(&reg), Some(&entries));
    assert_eq!(balance, 30);
    assert_eq!(inv.get("sword"), None);
    assert_eq!(ui.sell_items.len(), 1);
    assert_eq!(ui.sell_items[0], ("potion".to_string(), 4, 10));
}

#[test]
fn dialog_config_defaults_and_conversion() {
    let d = DialogConfig::default();
    assert_eq!(f32::from_bits(d.text_speed_bits), 30.0);
    assert_eq!(d.position, DialogPosition::Bottom);
    assert!(d.movement_block);
    assert!(!d.attribute_dialog);
    assert!(d.face_portrait.is_none());
    let data = DialogConfigData {
        text_speed_bits: 12.5f32.to_bits(),
        position: DialogPositionData::Top,
        movement_block: false,
        attribute_dialog: true,
        face_portrait: Some("hero".to_string()),
    };
    let c = dialog_config_from_data(&data);
    assert_eq!(f32::from_bits(c.text_speed_bits), 12.5);
    assert_eq!(c.position, DialogPosition::Top);
    assert!(!c.movement_block);
    assert!(c.attribute_dialog);
    assert_eq!(c.face_portrait, Some("hero".to_string()));
}

#[test]
fn registry_error_keeps_parser_detail() {
    match DialogTextRegistry::from_json("{\"a\": ") {
        Err(RegistryError::InvalidJson(e)) => {
            assert!(e.is_eof());
            assert!(e.to_string().contains("line 1"));
        },
        Ok(_) => panic!("truncated JSON must be rejected"),
    }
}
