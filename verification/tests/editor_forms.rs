use rpg_toolkit::catalog::ItemCategory;
use rpg_toolkit::cli::{effective_scale, parse_save_arg, project_path_arg, parse_scale_arg, ArgError, PixelScaleConfig, PixelScaleMode};
use rpg_toolkit::catalog::{ShopDefinition, ShopRegistry};
use rpg_toolkit::editor::{
    resolve_shop_delete, ShopPanelSelection,
    apply_project_edit, request_spritesheet_remove, resolve_spritesheet_remove, revert_project_edit,
    short_spritesheet_label, ProjectEdit, ProjectTexts, RemoveSpritesheetDialog,
};
use rpg_toolkit::forms::{
    selection_after_filter, truncate_name_buffer, validate_entry_edit, validate_item_name, validate_new_item, validate_shop_name,
    validate_stat_modifier, CreateItemError, EntryEditBuffer, EntryFieldError, NameError, StatModifierError,
};
use rpg_toolkit::save::SpawnPoint;
use rpg_toolkit::search::filter_items;
use rpg_toolkit::strmap::StrMap;
use rpg_toolkit::thumbnails::ThumbnailCache;

fn args(v: &[&str]) -> Vec<String> {
    v.iter().map(|s| s.to_string()).collect()
}

#[test]
fn scale_absent_is_none() {
    assert_eq!(parse_scale_arg(&args(&["game"])), Ok(None));
}

#[test]
fn scale_fit_and_auto_zoom_to_fit() {
    assert_eq!(parse_scale_arg(&args(&["game", "--scale", "fit"])), Ok(Some(PixelScaleMode::ZoomToFit)));
    assert_eq!(parse_scale_arg(&args(&["game", "--scale", "auto"])), Ok(Some(PixelScaleMode::ZoomToFit)));
}

#[test]
fn scale_integer_is_fixed() {
    assert_eq!(parse_scale_arg(&args(&["game", "--scale", "3"])), Ok(Some(PixelScaleMode::Fixed(3))));
}

#[test]
fn scale_errors() {
    assert_eq!(parse_scale_arg(&args(&["game", "--scale"])), Err(ArgError::MissingScaleValue));
    assert_eq!(parse_scale_arg(&args(&["game", "--scale", "0"])), Err(ArgError::ZeroScale));
    assert_eq!(
        parse_scale_arg(&args(&["game", "--scale", "big"])),
        Err(ArgError::InvalidScale("big".to_string()))
    );
    assert_eq!(
        parse_scale_arg(&args(&["game", "--scale", "-2"])),
        Err(ArgError::InvalidScale("-2".to_string()))
    );
}

#[test]
fn save_arg_is_value_after_flag() {
    assert_eq!(parse_save_arg(&args(&["game", "--save", "slot1.json"])), Some("slot1.json".to_string()));
    assert_eq!(parse_save_arg(&args(&["game", "--save"])), None);
    assert_eq!(parse_save_arg(&args(&["game"])), None);
}

#[test]
fn effective_scale_raises_fixed_zero() {
    assert_eq!(effective_scale(PixelScaleMode::Fixed(0), 5), 1);
    assert_eq!(effective_scale(PixelScaleMode::Fixed(4), 5), 4);
    assert_eq!(effective_scale(PixelScaleMode::ZoomToFit, 5), 5);
    let d = PixelScaleConfig::default();
    assert_eq!(d.mode, PixelScaleMode::ZoomToFit);
    assert_eq!(d.effective_scale, 1);
}

#[test]
fn item_name_is_trimmed_and_checked() {
    assert_eq!(validate_item_name("  Potion  "), Ok("Potion".to_string()));
    assert_eq!(validate_item_name("   "), Err(NameError::Blank));
    assert_eq!(validate_item_name(""), Err(NameError::Blank));
    assert_eq!(validate_item_name(&"a".repeat(64)), Ok("a".repeat(64)));
    assert_eq!(validate_item_name(&"a".repeat(65)), Err(NameError::TooLong));
    assert_eq!(NameError::Blank.message(), "Name must contain at least 1 non-whitespace character.");
    assert_eq!(NameError::TooLong.message(), "Name must not exceed 64 characters.");
}

#[test]
fn names_count_characters() {
    let name = "é".repeat(40);
    assert_eq!(validate_item_name(&name), Ok(name.clone()));
    assert_eq!(validate_shop_name(&name), Ok(name.clone()));
    assert_eq!(validate_item_name(&"é".repeat(65)), Err(NameError::TooLong));
    assert_eq!(validate_shop_name(&"é".repeat(65)), Err(NameError::TooLong));
}

#[test]
fn name_buffer_keeps_first_64_characters() {
    let mut b = "é".repeat(70);
    truncate_name_buffer(&mut b);
    assert_eq!(b, "é".repeat(64));
    let mut short = "Potion".to_string();
    truncate_name_buffer(&mut short);
    assert_eq!(short, "Potion");
    let mut b = "é".repeat(33);
    truncate_name_buffer(&mut b);
    assert_eq!(validate_item_name(&b), Ok("é".repeat(33)));
}

#[test]
fn new_item_needs_name_and_category() {
    assert_eq!(validate_new_item("Sword", Some(ItemCategory::Weapon)), Ok(ItemCategory::Weapon));
    assert_eq!(validate_new_item(" ", Some(ItemCategory::Weapon)), Err(CreateItemError::BlankName));
    assert_eq!(validate_new_item("Sword", None), Err(CreateItemError::NoCategory));
}

#[test]
fn stat_modifier_parses_signed_value() {
    assert_eq!(validate_stat_modifier(" attack ", " -5 "), Ok(("attack".to_string(), -5)));
    assert_eq!(validate_stat_modifier("", "5"), Err(StatModifierError::BlankName));
    assert_eq!(validate_stat_modifier("attack", "x"), Err(StatModifierError::InvalidValue));
}

fn buffer(buy: &str, sell: &str, stock: &str) -> EntryEditBuffer {
    EntryEditBuffer {
        buy_price: buy.to_string(),
        sell_price: sell.to_string(),
        stock_limit: stock.to_string(),
        error: None,
    }
}

#[test]
fn entry_edit_applies_edited_fields() {
    let r = validate_entry_edit(&buffer("100", "", "5"), true, true, true).unwrap().unwrap();
    assert_eq!(r.buy_price, Some(100));
    assert_eq!(r.sell_price, Some(None));
    assert_eq!(r.stock_limit, Some(Some(5)));
    assert_eq!(validate_entry_edit(&buffer("100", "", "5"), false, false, false), Ok(None));
}

#[test]
fn entry_edit_reports_last_failing_field() {
    assert_eq!(validate_entry_edit(&buffer("x", "y", "0"), true, true, true), Err(EntryFieldError::StockLimit));
    assert_eq!(validate_entry_edit(&buffer("x", "y", "10"), true, true, true), Err(EntryFieldError::SellPrice));
    assert_eq!(validate_entry_edit(&buffer("x", "3", "10000"), true, true, false), Err(EntryFieldError::BuyPrice));
    assert_eq!(validate_entry_edit(&buffer("1", "3", "10000"), true, true, true), Err(EntryFieldError::StockLimit));
    assert_eq!(EntryFieldError::StockLimit.message(), "Stock limit must be 1–9999 or empty for Unlimited");
}

#[test]
fn selection_moves_to_first_when_filtered_out() {
    let listed = vec!["a".to_string(), "b".to_string()];
    assert_eq!(selection_after_filter(Some("a".to_string()), true, &listed), Some("a".to_string()));
    assert_eq!(selection_after_filter(Some("c".to_string()), true, &listed), Some("a".to_string()));
    assert_eq!(selection_after_filter(Some("c".to_string()), true, &Vec::new()), None);
    assert_eq!(selection_after_filter(None, true, &listed), None);
    assert_eq!(selection_after_filter(Some("c".to_string()), false, &listed), Some("c".to_string()));
}

#[test]
fn search_filters_case_insensitively_and_sorts() {
    let items = vec![
        ("3".to_string(), "Zebra Potion".to_string()),
        ("1".to_string(), "apple".to_string()),
        ("2".to_string(), "Big Potion".to_string()),
    ];
    let r = filter_items(&items, "POTION");
    let ids: Vec<&str> = r.iter().map(|p| p.0.as_str()).collect();
    assert_eq!(ids, vec!["2", "3"]);
    let all = filter_items(&items, "");
    let ids: Vec<&str> = all.iter().map(|p| p.0.as_str()).collect();
    assert_eq!(ids, vec!["1", "2", "3"]);
}

fn texts() -> ProjectTexts {
    let mut dialog_texts = StrMap::new();
    dialog_texts.insert("greet".to_string(), "Hello".to_string());
    ProjectTexts { dialog_texts, face_portraits: StrMap::new(), spawn_point: None }
}

#[test]
fn undo_restores_dialog_text() {
    let mut p = texts();
    let e = ProjectEdit::UpdateDialogText {
        text_id: "greet".to_string(),
        old_text: "Hello".to_string(),
        new_text: "Hi".to_string(),
    };
    apply_project_edit(&mut p, &e);
    assert_eq!(p.dialog_texts.get("greet"), Some(&"Hi".to_string()));
    revert_project_edit(&mut p, &e);
    assert_eq!(p.dialog_texts.get("greet"), Some(&"Hello".to_string()));
    let ins = ProjectEdit::InsertFacePortrait { id: "hero".to_string(), path: "faces/hero.png".to_string() };
    apply_project_edit(&mut p, &ins);
    assert_eq!(p.face_portraits.get("hero"), Some(&"faces/hero.png".to_string()));
    revert_project_edit(&mut p, &ins);
    assert_eq!(p.face_portraits.get("hero"), None);
}

#[test]
fn undo_restores_spawn_point() {
    let mut p = texts();
    let e = ProjectEdit::SetSpawnPoint {
        old_spawn: None,
        new_spawn: Some(SpawnPoint { map_id: "town".to_string(), x: 3, y: 4 }),
    };
    apply_project_edit(&mut p, &e);
    assert_eq!(p.spawn_point.as_ref().map(|s| (s.map_id.clone(), s.x, s.y)), Some(("town".to_string(), 3, 4)));
    revert_project_edit(&mut p, &e);
    assert!(p.spawn_point.is_none());
}

#[test]
fn unreferenced_spritesheet_removed_at_once() {
    let mut dialog = RemoveSpritesheetDialog { open: false, spritesheet_id: None, npc_count: 0, player_reference: false };
    let mut sheets: StrMap<u32> = StrMap::new();
    sheets.insert("hero".to_string(), 1);
    let mut player = Some("hero".to_string());
    request_spritesheet_remove(&mut dialog, &mut sheets, &mut player, "hero".to_string(), 0, false);
    assert_eq!(sheets.len(), 0);
    assert_eq!(player, None);
    assert!(!dialog.open);
}

#[test]
fn referenced_spritesheet_asks_first() {
    let mut dialog = RemoveSpritesheetDialog { open: false, spritesheet_id: None, npc_count: 0, player_reference: false };
    let mut sheets: StrMap<u32> = StrMap::new();
    sheets.insert("guard".to_string(), 1);
    let mut player = None;
    request_spritesheet_remove(&mut dialog, &mut sheets, &mut player, "guard".to_string(), 2, false);
    assert!(dialog.open);
    assert_eq!(dialog.npc_count, 2);
    assert_eq!(sheets.len(), 1);
    resolve_spritesheet_remove(&mut dialog, &mut sheets, &mut player, false, false);
    assert!(dialog.open);
    resolve_spritesheet_remove(&mut dialog, &mut sheets, &mut player, true, false);
    assert!(!dialog.open);
    assert_eq!(sheets.len(), 0);
}

#[test]
fn spritesheet_label_is_file_name() {
    assert_eq!(short_spritesheet_label(Some("assets/sprites/hero.png")), "hero.png");
    assert_eq!(short_spritesheet_label(None), "Invalid");
    assert_eq!(short_spritesheet_label(Some("/")), "Unknown");
    assert_eq!(short_spritesheet_label(Some("sprites//hero.png/./")), "hero.png");
    assert_eq!(short_spritesheet_label(Some("sprites/..")), "Unknown");
    assert_eq!(short_spritesheet_label(Some(".")), "Unknown");
    assert_eq!(short_spritesheet_label(Some("./hero.png")), "hero.png");
    assert_eq!(short_spritesheet_label(Some("")), "Unknown");
}

#[test]
fn thumbnail_cache_evicts_least_recently_used() {
    let mut c = ThumbnailCache::new(2);
    assert_eq!(c.insert_loaded("a".to_string()), None);
    c.tick();
    assert_eq!(c.insert_loaded("b".to_string()), None);
    c.tick();
    assert!(c.touch("a"));
    assert!(!c.touch("z"));
    assert_eq!(c.insert_loaded("c".to_string()), Some("b".to_string()));
    assert_eq!(c.entries.len(), 2);
    c.invalidate("a");
    assert_eq!(c.entries.len(), 1);
    assert_eq!(ThumbnailCache::default().max_entries, 128);
}

#[test]
fn project_path_skips_options() {
    assert_eq!(project_path_arg(&args(&["game", "--scale", "2", "--fullscreen", "world.rpg"])), Some("world.rpg".to_string()));
    assert_eq!(project_path_arg(&args(&["game", "--save", "s.json", "proj"])), Some("proj".to_string()));
    assert_eq!(project_path_arg(&args(&["game", "--scale"])), None);
    assert_eq!(project_path_arg(&args(&["game"])), None);
    assert_eq!(project_path_arg(&args(&["proj"])), None);
}

fn shops() -> ShopRegistry {
    let mut r = ShopRegistry { shops: StrMap::new() };
    r.shops.insert("a".to_string(), ShopDefinition { display_name: "A".to_string(), entries: Vec::new() });
    r.shops.insert("b".to_string(), ShopDefinition { display_name: "B".to_string(), entries: Vec::new() });
    r
}

#[test]
fn shop_delete_confirmation() {
    let mut reg = shops();
    let mut st = ShopPanelSelection {
        selected_shop: Some("a".to_string()),
        name_edit_buffer: "A".to_string(),
        name_edit_error: None,
        delete_confirm_target: Some("a".to_string()),
    };
    assert!(!resolve_shop_delete(&mut st, &mut reg, false, false));
    assert_eq!(st.delete_confirm_target, Some("a".to_string()));
    assert!(resolve_shop_delete(&mut st, &mut reg, true, false));
    assert_eq!(reg.shops.len(), 1);
    assert!(reg.shops.get("a").is_none());
    assert_eq!(st.selected_shop, None);
    assert_eq!(st.name_edit_buffer, "");
    assert_eq!(st.delete_confirm_target, None);

    st.selected_shop = Some("b".to_string());
    st.name_edit_buffer = "B".to_string();
    st.delete_confirm_target = Some("b".to_string());
    assert!(!resolve_shop_delete(&mut st, &mut reg, false, true));
    assert_eq!(reg.shops.len(), 1);
    assert_eq!(st.delete_confirm_target, None);
    assert!(!resolve_shop_delete(&mut st, &mut reg, true, false));
    assert_eq!(st.selected_shop, Some("b".to_string()));
}

#[test]
fn stat_modifier_value_edges() {
    let ok = |v: &str| validate_stat_modifier("attack", v).map(|p| p.1);
    assert_eq!(ok("2147483647"), Ok(i32::MAX));
    assert_eq!(ok("-2147483648"), Ok(i32::MIN));
    assert_eq!(ok("+7"), Ok(7));
    assert_eq!(ok("-0"), Ok(0));
    assert_eq!(ok("007"), Ok(7));
    assert_eq!(ok("2147483648"), Err(StatModifierError::InvalidValue));
    assert_eq!(ok("-2147483649"), Err(StatModifierError::InvalidValue));
    assert_eq!(ok("99999999999999999999"), Err(StatModifierError::InvalidValue));
    assert_eq!(ok("-"), Err(StatModifierError::InvalidValue));
    assert_eq!(ok("+-5"), Err(StatModifierError::InvalidValue));
    assert_eq!(ok("1 2"), Err(StatModifierError::InvalidValue));
    assert_eq!(ok(""), Err(StatModifierError::InvalidValue));
}

#[test]
fn scale_value_edges() {
    let scale = |v: &str| parse_scale_arg(&["--scale".to_string(), v.to_string()]);
    assert!(matches!(scale("4294967295"), Ok(Some(PixelScaleMode::Fixed(4294967295)))));
    assert!(matches!(scale("+3"), Ok(Some(PixelScaleMode::Fixed(3)))));
    assert!(matches!(scale("4294967296"), Err(ArgError::InvalidScale(_))));
    assert!(matches!(scale("-1"), Err(ArgError::InvalidScale(_))));
    assert!(matches!(scale("+"), Err(ArgError::InvalidScale(_))));
    assert!(matches!(scale("0"), Err(ArgError::ZeroScale)));
}

#[test]
fn unicode_whitespace_is_trimmed() {
    assert_eq!(validate_stat_modifier("\u{3000}attack\u{a0}\u{2028}", "\t5\u{85}"), Ok(("attack".to_string(), 5)));
    assert_eq!(validate_stat_modifier("\u{200b}", "5").map(|p| p.0), Ok("\u{200b}".to_string()));
}
