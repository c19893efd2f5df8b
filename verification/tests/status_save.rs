use rpg_toolkit::catalog::{
    Ability, AbilityRegistry, Character, CharacterRegistry, Item, ItemCategory, ItemRegistry, Stat, StatModifier,
};
use rpg_toolkit::rewards::CharacterProgress;
use rpg_toolkit::save::{
    build_save_file, continue_game, new_game, title_screen_input, CharacterProgressState, CurrencyState, GameState,
    InventoryState, PartyState, RendererState, SpawnPoint, TitleChoice, TitleError, TitleKeys, TitleScreenState,
};
use rpg_toolkit::status::{
    all_tabs, clamp_selection, compute_effective_stat, next_tab, populate_character_detail, prev_tab,
    resolve_inventory_tab_data, resolve_party_display_data, status_input, tab_label, tab_to_category, DetailView,
    InventoryTab, StatusEvent, StatusKeys, StatusMode, StatusUiState,
};
use rpg_toolkit::strmap::StrMap;

fn stat(name: &str, base: u32, growth: u32) -> Stat {
    Stat { name: name.to_string(), base_value: base, growth_value: growth }
}

fn character(id: &str, name: &str, level: u32) -> Character {
    Character {
        id: id.to_string(),
        display_name: name.to_string(),
        stats: vec![stat("Level", level, 0), stat("HP", 100, 10), stat("Attack", 10, 2)],
        face_portrait: None,
        starting_equipment: vec!["sword".to_string(), "ghost".to_string()],
    }
}

fn item(id: &str, name: &str, category: ItemCategory) -> Item {
    Item {
        id: id.to_string(),
        display_name: name.to_string(),
        description: format!("A {}", name),
        category,
        value: 10,
        stackable: true,
        stack_limit: 99,
        stat_modifiers: vec![StatModifier { stat_name: "attack".to_string(), value: 3 }],
        icon: None,
    }
}

fn items() -> ItemRegistry {
    let mut reg = ItemRegistry::new();
    reg.items.insert("sword".to_string(), item("sword", "Sword", ItemCategory::Weapon));
    reg.items.insert("axe".to_string(), item("axe", "Axe", ItemCategory::Weapon));
    reg.items.insert("potion".to_string(), item("potion", "Potion", ItemCategory::Consumable));
    reg
}

fn chars() -> CharacterRegistry {
    let mut reg = CharacterRegistry::new();
    reg.characters.insert("hero".to_string(), character("hero", "Hero", 3));
    reg.characters.insert("mage".to_string(), character("mage", "Mage", 1));
    reg
}

#[test]
fn effective_stat_grows_per_level() {
    assert_eq!(compute_effective_stat(100, 10, 1), 100);
    assert_eq!(compute_effective_stat(100, 10, 5), 140);
    assert_eq!(compute_effective_stat(100, 10, 0), 100);
    assert_eq!(compute_effective_stat(u32::MAX, 1, 2), u32::MAX);
    assert_eq!(compute_effective_stat(0, u32::MAX, u32::MAX), u32::MAX);
}

#[test]
fn tabs_navigate_and_stop_at_ends() {
    assert_eq!(next_tab(InventoryTab::Weapon), InventoryTab::Armor);
    assert_eq!(next_tab(InventoryTab::KeyItem), InventoryTab::KeyItem);
    assert_eq!(prev_tab(InventoryTab::Weapon), InventoryTab::Weapon);
    assert_eq!(prev_tab(next_tab(InventoryTab::Armor)), InventoryTab::Armor);
    assert_eq!(tab_to_category(InventoryTab::KeyItem), ItemCategory::KeyItem);
    assert_eq!(tab_label(InventoryTab::Accessory), "Accessory");
    assert_eq!(all_tabs().len(), 5);
    assert_eq!(all_tabs()[3], InventoryTab::Consumable);
}

#[test]
fn selection_is_clamped() {
    assert_eq!(clamp_selection(5, 0), 0);
    assert_eq!(clamp_selection(5, 3), 2);
    assert_eq!(clamp_selection(1, 3), 1);
}

#[test]
fn party_rows_skip_unknown_and_compute_hp() {
    let party = vec!["ghost".to_string(), "hero".to_string(), "mage".to_string()];
    let rows = resolve_party_display_data(&party, &chars(), &StrMap::new());
    assert_eq!(rows.len(), 2);
    assert_eq!(rows[0].character_id, "hero");
    assert_eq!(rows[0].level, 3);
    assert_eq!(rows[0].effective_hp, 120);
    assert!(!rows[0].has_portrait);
    assert_eq!(rows[1].display_name, "Mage");
}

#[test]
fn party_rows_are_capped() {
    let mut reg = CharacterRegistry::new();
    let mut party = Vec::new();
    for i in 0..6 {
        let id = format!("c{}", i);
        reg.characters.insert(id.clone(), character(&id, &id, 1));
        party.push(id);
    }
    let rows = resolve_party_display_data(&party, &reg, &StrMap::new());
    assert_eq!(rows.len(), 4);
    assert_eq!(rows[3].character_id, "c3");
}

#[test]
fn inventory_tab_lists_category_sorted_by_name() {
    let mut inv = StrMap::new();
    inv.insert("sword".to_string(), 1);
    inv.insert("potion".to_string(), 3);
    inv.insert("axe".to_string(), 2);
    inv.insert("unknown".to_string(), 9);
    let rows = resolve_inventory_tab_data(&inv, &items(), InventoryTab::Weapon);
    assert_eq!(rows.len(), 2);
    assert_eq!(rows[0].display_name, "Axe");
    assert_eq!(rows[0].quantity, 2);
    assert_eq!(rows[1].display_name, "Sword");
    assert_eq!(rows[1].stat_modifiers, vec![("attack".to_string(), 3)]);
    let rows = resolve_inventory_tab_data(&inv, &items(), InventoryTab::Consumable);
    assert_eq!(rows.len(), 1);
    assert_eq!(rows[0].description, "A Potion");
}

fn ui() -> StatusUiState {
    StatusUiState {
        mode: StatusMode::PartyList,
        detail_view: DetailView::Closed,
        party_selection: 0,
        inventory_selection: 0,
        inventory_tab: InventoryTab::Weapon,
        party_data: resolve_party_display_data(&vec!["hero".to_string(), "mage".to_string()], &chars(), &StrMap::new()),
        inventory_data: Vec::new(),
    }
}

fn keys() -> StatusKeys {
    StatusKeys { back: false, up: false, down: false, left: false, right: false, confirm: false }
}

#[test]
fn status_input_moves_and_opens_detail() {
    let mut s = ui();
    assert_eq!(status_input(&mut s, StatusKeys { down: true, ..keys() }, None, None), StatusEvent::SelectionMoved);
    assert_eq!(s.party_selection, 1);
    assert_eq!(status_input(&mut s, StatusKeys { down: true, ..keys() }, None, None), StatusEvent::SelectionMoved);
    assert_eq!(s.party_selection, 1);
    assert_eq!(status_input(&mut s, StatusKeys { confirm: true, ..keys() }, None, None), StatusEvent::OpenDetail);
    assert_eq!(s.detail_view, DetailView::CharacterDetail);
    assert_eq!(status_input(&mut s, StatusKeys { back: true, ..keys() }, None, None), StatusEvent::CloseDetail);
    assert_eq!(s.detail_view, DetailView::Closed);
    assert_eq!(status_input(&mut s, StatusKeys { back: true, ..keys() }, None, None), StatusEvent::ExitToGame);
}

#[test]
fn status_input_switches_pages_and_tabs() {
    let mut s = ui();
    let mut inv = StrMap::new();
    inv.insert("potion".to_string(), 3);
    let reg = items();
    assert_eq!(status_input(&mut s, StatusKeys { right: true, ..keys() }, Some(&inv), Some(&reg)), StatusEvent::ShowInventory);
    assert_eq!(s.mode, StatusMode::Inventory);
    assert_eq!(status_input(&mut s, StatusKeys { right: true, ..keys() }, Some(&inv), Some(&reg)), StatusEvent::TabChanged);
    assert_eq!(s.inventory_tab, InventoryTab::Armor);
    assert_eq!(status_input(&mut s, StatusKeys { left: true, ..keys() }, Some(&inv), Some(&reg)), StatusEvent::TabChanged);
    assert_eq!(s.inventory_tab, InventoryTab::Weapon);
    assert_eq!(status_input(&mut s, StatusKeys { left: true, ..keys() }, Some(&inv), Some(&reg)), StatusEvent::ShowParty);
    assert_eq!(s.mode, StatusMode::PartyList);
}

#[test]
fn character_detail_lists_known_names() {
    let mut s = ui();
    s.party_selection = 0;
    let mut abilities = AbilityRegistry::new();
    abilities.abilities.insert("heal".to_string(), Ability { id: "heal".to_string(), display_name: "Heal".to_string() });
    let mut progress = StrMap::new();
    progress.insert(
        "hero".to_string(),
        CharacterProgress { experience: 0, learned_abilities: vec!["heal".to_string(), "nope".to_string()] },
    );
    let d = populate_character_detail(&s, Some(&chars()), Some(&items()), Some(&abilities), Some(&progress)).unwrap();
    assert_eq!(d.display_name, "Hero");
    assert_eq!(d.level, 3);
    assert_eq!(d.stats, vec![("HP".to_string(), 120), ("Attack".to_string(), 14)]);
    assert_eq!(d.equipment, vec!["Sword".to_string()]);
    assert_eq!(d.abilities, vec!["Heal".to_string()]);
    s.party_selection = 7;
    assert!(populate_character_detail(&s, Some(&chars()), None, None, None).is_none());
}

fn sample_state() -> (GameState, CurrencyState, InventoryState, PartyState, CharacterProgressState) {
    let mut flags = StrMap::new();
    flags.insert("boss_defeated".to_string(), "true".to_string());
    flags.insert("chapter".to_string(), "3".to_string());
    let mut items = StrMap::new();
    items.insert("potion".to_string(), 5);
    items.insert("sword".to_string(), 1);
    let mut characters = StrMap::new();
    characters.insert(
        "hero".to_string(),
        CharacterProgress { experience: 1500, learned_abilities: vec!["slash".to_string(), "heal".to_string()] },
    );
    characters.insert(
        "mage".to_string(),
        CharacterProgress { experience: 1200, learned_abilities: vec!["fireball".to_string()] },
    );
    (
        GameState { flags },
        CurrencyState { balance: 5000 },
        InventoryState { items },
        PartyState { members: vec!["hero".to_string(), "mage".to_string()] },
        CharacterProgressState { characters },
    )
}

#[test]
fn save_game_produces_correct_save_file() {
    let (game_state, currency, inventory, party, character_progress) = sample_state();
    let saved = build_save_file(&game_state, &currency, &inventory, &party, &character_progress, None, None, None);
    assert_eq!(saved.state.get("boss_defeated"), Some(&"true".to_string()));
    assert_eq!(saved.state.get("chapter"), Some(&"3".to_string()));
    assert_eq!(saved.currency, 5000);
    assert_eq!(saved.inventory.get("potion"), Some(&5));
    assert_eq!(saved.inventory.get("sword"), Some(&1));
    assert_eq!(saved.party, vec!["hero".to_string(), "mage".to_string()]);
    assert_eq!(saved.character_progress.len(), 2);
    let hero = saved.character_progress.get("hero").expect("hero should exist");
    assert_eq!(hero.experience, 1500);
    assert_eq!(hero.learned_abilities, vec!["slash", "heal"]);
    let mage = saved.character_progress.get("mage").expect("mage should exist");
    assert_eq!(mage.experience, 1200);
    assert_eq!(mage.learned_abilities, vec!["fireball"]);
}

#[test]
fn empty_resources_produce_valid_minimal_save_file() {
    let saved = build_save_file(
        &GameState { flags: StrMap::new() },
        &CurrencyState { balance: 0 },
        &InventoryState { items: StrMap::new() },
        &PartyState { members: Vec::new() },
        &CharacterProgressState { characters: StrMap::new() },
        None,
        None,
        None,
    );
    assert!(saved.state.is_empty());
    assert_eq!(saved.currency, 0);
    assert!(saved.inventory.is_empty());
    assert!(saved.party.is_empty());
    assert!(saved.character_progress.is_empty());
    assert!(saved.map_id.is_none());
}

fn renderer() -> RendererState {
    RendererState {
        active_map_id: None,
        pending_map_change: None,
        pending_target_coords: None,
        pending_target_elevation: None,
    }
}

#[test]
fn save_then_continue_restores_state_and_position() {
    let (game_state, currency, inventory, party, character_progress) = sample_state();
    let saved = build_save_file(
        &game_state,
        &currency,
        &inventory,
        &party,
        &character_progress,
        Some("cave"),
        Some((7, 8)),
        Some(2),
    );
    let mut gs = GameState { flags: StrMap::new() };
    let mut cur = CurrencyState { balance: 1 };
    let mut inv = InventoryState { items: StrMap::new() };
    let mut pt = PartyState { members: Vec::new() };
    let mut pr = CharacterProgressState { characters: StrMap::new() };
    let mut r = renderer();
    let spawn = SpawnPoint { map_id: "town".to_string(), x: 1, y: 1 };
    assert_eq!(continue_game(saved, Some(&spawn), &mut gs, &mut cur, &mut inv, &mut pt, &mut pr, &mut r), Ok(()));
    assert_eq!(cur.balance, 5000);
    assert_eq!(gs.flags.get("chapter"), Some(&"3".to_string()));
    assert_eq!(pt.members, vec!["hero".to_string(), "mage".to_string()]);
    assert_eq!(pr.characters.get("hero").unwrap().experience, 1500);
    assert_eq!(r.active_map_id, Some("cave".to_string()));
    assert_eq!(r.pending_target_coords, Some((7, 8)));
    assert_eq!(r.pending_target_elevation, Some(2));
}

#[test]
fn continue_without_position_uses_spawn_or_fails() {
    let (game_state, currency, inventory, party, character_progress) = sample_state();
    let make = || build_save_file(&game_state, &currency, &inventory, &party, &character_progress, None, None, None);
    let (mut gs, mut cur, mut inv, mut pt, mut pr) = sample_state();
    let mut r = renderer();
    let spawn = SpawnPoint { map_id: "town".to_string(), x: 1, y: 2 };
    assert_eq!(continue_game(make(), Some(&spawn), &mut gs, &mut cur, &mut inv, &mut pt, &mut pr, &mut r), Ok(()));
    assert_eq!(r.active_map_id, Some("town".to_string()));
    assert_eq!(r.pending_target_coords, Some((1, 2)));
    assert_eq!(r.pending_target_elevation, None);
    let mut r2 = renderer();
    assert_eq!(
        continue_game(make(), None, &mut gs, &mut cur, &mut inv, &mut pt, &mut pr, &mut r2),
        Err(TitleError::NoSpawnPoint)
    );
    assert_eq!(r2.active_map_id, None);
}

#[test]
fn new_game_clears_state_and_starts_at_spawn() {
    let (mut gs, mut cur, mut inv, mut pt, mut pr) = sample_state();
    let mut r = renderer();
    assert_eq!(new_game(None, &mut gs, &mut cur, &mut inv, &mut pt, &mut pr, &mut r), Err(TitleError::NoSpawnPoint));
    assert_eq!(cur.balance, 5000);
    assert_eq!(TitleError::NoSpawnPoint.message(), "Error: No spawn point configured in project");
    let spawn = SpawnPoint { map_id: "town".to_string(), x: 4, y: 5 };
    assert_eq!(new_game(Some(&spawn), &mut gs, &mut cur, &mut inv, &mut pt, &mut pr, &mut r), Ok(()));
    assert_eq!(cur.balance, 0);
    assert!(gs.flags.is_empty());
    assert!(inv.items.is_empty());
    assert!(pt.members.is_empty());
    assert!(pr.characters.is_empty());
    assert_eq!(r.active_map_id, Some("town".to_string()));
    assert_eq!(r.pending_target_coords, Some((4, 5)));
    assert_eq!(r.pending_target_elevation, Some(0));
}

#[test]
fn title_menu_moves_and_confirms() {
    let mut s = TitleScreenState { selected: 0, continue_available: false };
    let k = TitleKeys { up: false, down: false, confirm: false };
    assert_eq!(title_screen_input(&mut s, TitleKeys { confirm: true, ..k }), TitleChoice::NewGame);
    assert_eq!(title_screen_input(&mut s, TitleKeys { down: true, ..k }), TitleChoice::Nothing);
    assert_eq!(s.selected, 1);
    assert_eq!(title_screen_input(&mut s, TitleKeys { down: true, confirm: true, ..k }), TitleChoice::Nothing);
    s.continue_available = true;
    assert_eq!(title_screen_input(&mut s, TitleKeys { confirm: true, ..k }), TitleChoice::Continue);
    assert_eq!(title_screen_input(&mut s, TitleKeys { up: true, ..k }), TitleChoice::Nothing);
    assert_eq!(s.selected, 0);
}
