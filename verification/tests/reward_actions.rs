use std::collections::VecDeque;

use rpg_toolkit::actions::EventAction;
use rpg_toolkit::catalog::{
    Ability, AbilityRegistry, Character, CharacterRegistry, Item, ItemCategory, ItemRegistry, Stat,
};
use rpg_toolkit::queue::{
    advance_action_queue, ActionQueue, ActiveEffects, AdvanceOutput, GameWorld, ProjectCatalog,
    WaitingFor,
};
use rpg_toolkit::rewards::{CharacterProgress, TransferDirection};
use rpg_toolkit::strmap::StrMap;

fn empty_world() -> GameWorld {
    GameWorld {
        flags: Some(StrMap::new()),
        currency: Some(0),
        inventory: Some(StrMap::new()),
        party: Some(Vec::new()),
        progress: Some(StrMap::new()),
        pending_map_change: None,
        pending_target_coords: None,
        pending_target_elevation: None,
    }
}

fn empty_catalog() -> ProjectCatalog {
    ProjectCatalog {
        items: ItemRegistry::new(),
        characters: CharacterRegistry::new(),
        abilities: AbilityRegistry::new(),
        face_portraits: StrMap::new(),
    }
}

fn catalog_with_item(id: &str, stackable: bool, stack_limit: u32) -> ProjectCatalog {
    let mut c = empty_catalog();
    c.items.items.insert(
        id.to_string(),
        Item {
            id: id.to_string(),
            display_name: id.to_string(),
            description: String::new(),
            category: ItemCategory::KeyItem,
            value: 0,
            stackable,
            stack_limit,
            stat_modifiers: Vec::new(),
            icon: None,
        },
    );
    c
}

fn add_character(c: &mut ProjectCatalog, char_id: &str) {
    c.characters.characters.insert(
        char_id.to_string(),
        Character {
            id: char_id.to_string(),
            display_name: char_id.to_string(),
            stats: vec![Stat { name: "HP".to_string(), base_value: 10, growth_value: 5 }],
            face_portrait: None,
            starting_equipment: Vec::new(),
        },
    );
}

fn add_ability(c: &mut ProjectCatalog, ability_id: &str) {
    c.abilities.abilities.insert(
        ability_id.to_string(),
        Ability { id: ability_id.to_string(), display_name: ability_id.to_string() },
    );
}

fn catalog_with_character(char_id: &str) -> ProjectCatalog {
    let mut c = empty_catalog();
    add_character(&mut c, char_id);
    c
}

fn catalog_with_character_and_ability(char_id: &str, ability_id: &str) -> ProjectCatalog {
    let mut c = empty_catalog();
    add_ability(&mut c, ability_id);
    add_character(&mut c, char_id);
    c
}

fn no_effects() -> ActiveEffects {
    ActiveEffects { dialog: false, screen_shake: false, fade: false, selection: false, camera_pan: false, wait: false }
}

/// Runs one frame of a new queue holding `actions`.
fn run_frame(
    world: &mut GameWorld,
    catalog: &ProjectCatalog,
    actions: Vec<EventAction>,
) -> (ActionQueue, AdvanceOutput) {
    let mut queue = ActionQueue { actions: VecDeque::from(actions), waiting_for: WaitingFor::Nothing };
    let out = advance_action_queue(&mut queue, world, Some(catalog), None, no_effects());
    (queue, out)
}

fn marker_action(key: &str) -> EventAction {
    EventAction::SetState { key: key.to_string(), value: "injected".to_string() }
}

fn flag(world: &GameWorld, key: &str) -> Option<String> {
    world.flags.as_ref().unwrap().get(key).cloned()
}

fn has_flag(world: &GameWorld, key: &str) -> bool {
    world.flags.as_ref().unwrap().contains_key(key)
}

fn progress_with(entries: &[(&str, u64, Vec<String>)]) -> StrMap<CharacterProgress> {
    let mut m = StrMap::new();
    for (id, exp, abilities) in entries {
        m.insert(
            id.to_string(),
            CharacterProgress { experience: *exp, learned_abilities: abilities.clone() },
        );
    }
    m
}

fn experience(world: &GameWorld, id: &str) -> u64 {
    world.progress.as_ref().unwrap().get(id).unwrap().experience
}

fn abilities(world: &GameWorld, id: &str) -> Vec<String> {
    world.progress.as_ref().unwrap().get(id).unwrap().learned_abilities.clone()
}

fn held(world: &GameWorld, id: &str) -> Option<u32> {
    world.inventory.as_ref().unwrap().get(id).copied()
}

fn injected() -> Option<String> {
    Some("injected".to_string())
}

// ─── GiveCurrency ────────────────────────────────────────────────────────────

#[test]
fn give_currency_give_adds_to_balance() {
    let mut world = empty_world();
    world.currency = Some(100);
    let (_, out) = run_frame(
        &mut world,
        &empty_catalog(),
        vec![EventAction::GiveCurrency {
            amount: 50,
            direction: TransferDirection::Give,
            on_success: vec![],
            on_failure: vec![],
        }],
    );
    assert_eq!(world.currency, Some(150));
    assert!(out.finished);
}

#[test]
fn give_currency_give_saturates_at_max() {
    let mut world = empty_world();
    world.currency = Some(u64::MAX - 10);
    run_frame(
        &mut world,
        &empty_catalog(),
        vec![EventAction::GiveCurrency {
            amount: 100,
            direction: TransferDirection::Give,
            on_success: vec![],
            on_failure: vec![],
        }],
    );
    assert_eq!(world.currency, Some(u64::MAX));
}

#[test]
fn give_currency_take_sufficient_subtracts() {
    let mut world = empty_world();
    world.currency = Some(200);
    run_frame(
        &mut world,
        &empty_catalog(),
        vec![EventAction::GiveCurrency {
            amount: 75,
            direction: TransferDirection::Take,
            on_success: vec![marker_action("success")],
            on_failure: vec![marker_action("failure")],
        }],
    );
    assert_eq!(world.currency, Some(125));
    assert_eq!(flag(&world, "success"), injected());
    assert!(!has_flag(&world, "failure"));
}

#[test]
fn give_currency_take_insufficient_does_not_modify() {
    let mut world = empty_world();
    world.currency = Some(30);
    run_frame(
        &mut world,
        &empty_catalog(),
        vec![EventAction::GiveCurrency {
            amount: 50,
            direction: TransferDirection::Take,
            on_success: vec![marker_action("success")],
            on_failure: vec![marker_action("failure")],
        }],
    );
    assert_eq!(world.currency, Some(30));
    assert_eq!(flag(&world, "failure"), injected());
    assert!(!has_flag(&world, "success"));
}

// ─── GiveExperience ──────────────────────────────────────────────────────────

#[test]
fn give_experience_give_single_target() {
    let mut world = empty_world();
    world.progress = Some(progress_with(&[("hero", 100, vec![])]));
    run_frame(
        &mut world,
        &empty_catalog(),
        vec![EventAction::GiveExperience {
            amount: 50,
            target: Some("hero".to_string()),
            direction: TransferDirection::Give,
            on_success: vec![],
            on_failure: vec![],
        }],
    );
    assert_eq!(experience(&world, "hero"), 150);
}

#[test]
fn give_experience_give_all_party() {
    let mut world = empty_world();
    world.progress = Some(progress_with(&[("hero", 10, vec![]), ("mage", 20, vec![])]));
    world.party = Some(vec!["hero".to_string(), "mage".to_string()]);
    run_frame(
        &mut world,
        &empty_catalog(),
        vec![EventAction::GiveExperience {
            amount: 30,
            target: None,
            direction: TransferDirection::Give,
            on_success: vec![],
            on_failure: vec![],
        }],
    );
    assert_eq!(experience(&world, "hero"), 40);
    assert_eq!(experience(&world, "mage"), 50);
}

#[test]
fn give_experience_take_single_target_sufficient() {
    let mut world = empty_world();
    world.progress = Some(progress_with(&[("hero", 100, vec![])]));
    run_frame(
        &mut world,
        &empty_catalog(),
        vec![EventAction::GiveExperience {
            amount: 40,
            target: Some("hero".to_string()),
            direction: TransferDirection::Take,
            on_success: vec![marker_action("success")],
            on_failure: vec![marker_action("failure")],
        }],
    );
    assert_eq!(experience(&world, "hero"), 60);
    assert_eq!(flag(&world, "success"), injected());
    assert!(!has_flag(&world, "failure"));
}

#[test]
fn give_experience_take_single_target_insufficient() {
    let mut world = empty_world();
    world.progress = Some(progress_with(&[("hero", 20, vec![])]));
    run_frame(
        &mut world,
        &empty_catalog(),
        vec![EventAction::GiveExperience {
            amount: 50,
            target: Some("hero".to_string()),
            direction: TransferDirection::Take,
            on_success: vec![marker_action("success")],
            on_failure: vec![marker_action("failure")],
        }],
    );
    assert_eq!(experience(&world, "hero"), 20);
    assert_eq!(flag(&world, "failure"), injected());
    assert!(!has_flag(&world, "success"));
}

#[test]
fn give_experience_take_all_party_atomic_sufficient() {
    let mut world = empty_world();
    world.progress = Some(progress_with(&[("hero", 100, vec![]), ("mage", 80, vec![])]));
    world.party = Some(vec!["hero".to_string(), "mage".to_string()]);
    run_frame(
        &mut world,
        &empty_catalog(),
        vec![EventAction::GiveExperience {
            amount: 50,
            target: None,
            direction: TransferDirection::Take,
            on_success: vec![marker_action("success")],
            on_failure: vec![marker_action("failure")],
        }],
    );
    assert_eq!(experience(&world, "hero"), 50);
    assert_eq!(experience(&world, "mage"), 30);
    assert_eq!(flag(&world, "success"), injected());
}

#[test]
fn give_experience_take_all_party_atomic_insufficient() {
    let mut world = empty_world();
    world.progress = Some(progress_with(&[("hero", 100, vec![]), ("mage", 20, vec![])]));
    world.party = Some(vec!["hero".to_string(), "mage".to_string()]);
    run_frame(
        &mut world,
        &empty_catalog(),
        vec![EventAction::GiveExperience {
            amount: 50,
            target: None,
            direction: TransferDirection::Take,
            on_success: vec![marker_action("success")],
            on_failure: vec![marker_action("failure")],
        }],
    );
    assert_eq!(experience(&world, "hero"), 100);
    assert_eq!(experience(&world, "mage"), 20);
    assert_eq!(flag(&world, "failure"), injected());
    assert!(!has_flag(&world, "success"));
}

#[test]
fn experience_take_charges_a_member_listed_twice_twice() {
    let take = |amount: u64| EventAction::GiveExperience {
        amount,
        target: None,
        direction: TransferDirection::Take,
        on_success: vec![marker_action("success")],
        on_failure: vec![marker_action("failure")],
    };
    let mut world = empty_world();
    world.progress = Some(progress_with(&[("hero", 100, vec![]), ("mage", 80, vec![])]));
    world.party = Some(vec!["hero".to_string(), "mage".to_string(), "hero".to_string()]);
    run_frame(&mut world, &empty_catalog(), vec![take(50)]);
    assert_eq!(experience(&world, "hero"), 0);
    assert_eq!(experience(&world, "mage"), 30);
    assert!(has_flag(&world, "success"));

    let mut world = empty_world();
    world.progress = Some(progress_with(&[("hero", 90, vec![]), ("mage", 80, vec![])]));
    world.party = Some(vec!["hero".to_string(), "mage".to_string(), "hero".to_string()]);
    run_frame(&mut world, &empty_catalog(), vec![take(50)]);
    assert_eq!(experience(&world, "hero"), 90);
    assert_eq!(experience(&world, "mage"), 80);
    assert!(has_flag(&world, "failure"));
    assert!(!has_flag(&world, "success"));
}

// ─── GiveItem ────────────────────────────────────────────────────────────────

fn give_item(id: &str, quantity: u32, direction: TransferDirection, branches: bool) -> EventAction {
    EventAction::GiveItem {
        item_id: id.to_string(),
        quantity,
        direction,
        on_success: if branches { vec![marker_action("success")] } else { vec![] },
        on_failure: if branches { vec![marker_action("failure")] } else { vec![] },
    }
}

#[test]
fn give_item_give_new_item() {
    let mut world = empty_world();
    run_frame(
        &mut world,
        &catalog_with_item("potion", true, 99),
        vec![give_item("potion", 5, TransferDirection::Give, false)],
    );
    assert_eq!(held(&world, "potion"), Some(5));
}

#[test]
fn give_item_give_stackable_adds_to_existing() {
    let mut world = empty_world();
    world.inventory.as_mut().unwrap().insert("potion".to_string(), 10);
    run_frame(
        &mut world,
        &catalog_with_item("potion", true, 99),
        vec![give_item("potion", 5, TransferDirection::Give, false)],
    );
    assert_eq!(held(&world, "potion"), Some(15));
}

#[test]
fn give_item_give_unstackable_duplicate_triggers_on_failure() {
    let mut world = empty_world();
    world.inventory.as_mut().unwrap().insert("sword".to_string(), 1);
    run_frame(
        &mut world,
        &catalog_with_item("sword", false, 1),
        vec![give_item("sword", 1, TransferDirection::Give, true)],
    );
    assert_eq!(held(&world, "sword"), Some(1));
    assert_eq!(flag(&world, "failure"), injected());
    assert!(!has_flag(&world, "success"));
}

#[test]
fn give_item_give_stack_cap_triggers_on_failure() {
    let mut world = empty_world();
    world.inventory.as_mut().unwrap().insert("potion".to_string(), 10);
    run_frame(
        &mut world,
        &catalog_with_item("potion", true, 10),
        vec![give_item("potion", 5, TransferDirection::Give, true)],
    );
    assert_eq!(held(&world, "potion"), Some(10));
    assert_eq!(flag(&world, "failure"), injected());
    assert!(!has_flag(&world, "success"));
}

#[test]
fn give_item_take_removes_quantity() {
    let mut world = empty_world();
    world.inventory.as_mut().unwrap().insert("potion".to_string(), 10);
    run_frame(
        &mut world,
        &catalog_with_item("potion", true, 99),
        vec![give_item("potion", 3, TransferDirection::Take, true)],
    );
    assert_eq!(held(&world, "potion"), Some(7));
    assert_eq!(flag(&world, "success"), injected());
}

#[test]
fn give_item_take_removes_entry_at_zero() {
    let mut world = empty_world();
    world.inventory.as_mut().unwrap().insert("potion".to_string(), 5);
    run_frame(
        &mut world,
        &catalog_with_item("potion", true, 99),
        vec![give_item("potion", 5, TransferDirection::Take, true)],
    );
    assert!(
        !world.inventory.as_ref().unwrap().contains_key("potion"),
        "Entry should be removed when quantity reaches 0"
    );
    assert_eq!(flag(&world, "success"), injected());
}

#[test]
fn give_item_take_insufficient_quantity() {
    let mut world = empty_world();
    world.inventory.as_mut().unwrap().insert("potion".to_string(), 2);
    run_frame(
        &mut world,
        &catalog_with_item("potion", true, 99),
        vec![give_item("potion", 5, TransferDirection::Take, true)],
    );
    assert_eq!(held(&world, "potion"), Some(2), "Quantity should not change");
    assert_eq!(flag(&world, "failure"), injected());
    assert!(!has_flag(&world, "success"));
}

// ─── LearnAbility ────────────────────────────────────────────────────────────

fn learn(direction: TransferDirection, branches: bool) -> EventAction {
    EventAction::LearnAbility {
        ability_id: "fireball".to_string(),
        target: "hero".to_string(),
        direction,
        on_success: if branches { vec![marker_action("success")] } else { vec![] },
        on_failure: if branches { vec![marker_action("failure")] } else { vec![] },
    }
}

#[test]
fn learn_ability_give_learns_new_ability() {
    let mut world = empty_world();
    world.progress = Some(progress_with(&[("hero", 0, vec![])]));
    run_frame(
        &mut world,
        &catalog_with_character_and_ability("hero", "fireball"),
        vec![learn(TransferDirection::Give, false)],
    );
    assert!(abilities(&world, "hero").contains(&"fireball".to_string()));
}

#[test]
fn learn_ability_give_idempotent() {
    let mut world = empty_world();
    world.progress = Some(progress_with(&[("hero", 0, vec!["fireball".to_string()])]));
    run_frame(
        &mut world,
        &catalog_with_character_and_ability("hero", "fireball"),
        vec![learn(TransferDirection::Give, false)],
    );
    let count = abilities(&world, "hero").iter().filter(|a| *a == "fireball").count();
    assert_eq!(count, 1, "Learning an already-known ability should be idempotent");
}

#[test]
fn learn_ability_take_forgets_known_ability() {
    let mut world = empty_world();
    world.progress = Some(progress_with(&[("hero", 0, vec!["fireball".to_string()])]));
    run_frame(
        &mut world,
        &catalog_with_character_and_ability("hero", "fireball"),
        vec![learn(TransferDirection::Take, true)],
    );
    assert!(!abilities(&world, "hero").contains(&"fireball".to_string()));
    assert_eq!(flag(&world, "success"), injected());
    assert!(!has_flag(&world, "failure"));
}

#[test]
fn learn_ability_take_not_known_triggers_failure() {
    let mut world = empty_world();
    world.progress = Some(progress_with(&[("hero", 0, vec![])]));
    run_frame(
        &mut world,
        &catalog_with_character_and_ability("hero", "fireball"),
        vec![learn(TransferDirection::Take, true)],
    );
    assert!(abilities(&world, "hero").is_empty());
    assert_eq!(flag(&world, "failure"), injected());
    assert!(!has_flag(&world, "success"));
}

// ─── AddPartyMember ──────────────────────────────────────────────────────────

fn party_action(direction: TransferDirection, branches: bool) -> EventAction {
    EventAction::AddPartyMember {
        character_id: "hero".to_string(),
        direction,
        on_success: if branches { vec![marker_action("success")] } else { vec![] },
        on_failure: if branches { vec![marker_action("failure")] } else { vec![] },
    }
}

fn party(world: &GameWorld) -> Vec<String> {
    world.party.clone().unwrap()
}

#[test]
fn add_party_member_give_adds_to_party() {
    let mut world = empty_world();
    run_frame(&mut world, &catalog_with_character("hero"), vec![party_action(TransferDirection::Give, false)]);
    assert!(party(&world).contains(&"hero".to_string()));
}

#[test]
fn add_party_member_give_idempotent() {
    let mut world = empty_world();
    world.party = Some(vec!["hero".to_string()]);
    run_frame(&mut world, &catalog_with_character("hero"), vec![party_action(TransferDirection::Give, false)]);
    let count = party(&world).iter().filter(|m| *m == "hero").count();
    assert_eq!(count, 1, "Adding an existing member should be idempotent");
}

#[test]
fn add_party_member_take_removes_member() {
    let mut world = empty_world();
    world.party = Some(vec!["hero".to_string()]);
    run_frame(&mut world, &catalog_with_character("hero"), vec![party_action(TransferDirection::Take, true)]);
    assert!(!party(&world).contains(&"hero".to_string()));
    assert_eq!(flag(&world, "success"), injected());
    assert!(!has_flag(&world, "failure"));
}

#[test]
fn add_party_member_take_not_in_party_triggers_failure() {
    let mut world = empty_world();
    run_frame(&mut world, &catalog_with_character("hero"), vec![party_action(TransferDirection::Take, true)]);
    assert!(party(&world).is_empty());
    assert_eq!(flag(&world, "failure"), injected());
    assert!(!has_flag(&world, "success"));
}

// ─── Branch injection and chaining ───────────────────────────────────────────

#[test]
fn branch_injection_pushes_on_success_to_queue_front() {
    let mut world = empty_world();
    world.currency = Some(100);
    run_frame(
        &mut world,
        &empty_catalog(),
        vec![
            EventAction::GiveCurrency {
                amount: 10,
                direction: TransferDirection::Take,
                on_success: vec![marker_action("branch_first"), marker_action("branch_second")],
                on_failure: vec![marker_action("failure")],
            },
            marker_action("after_reward"),
        ],
    );
    assert_eq!(flag(&world, "branch_first"), injected());
    assert_eq!(flag(&world, "branch_second"), injected());
    assert_eq!(flag(&world, "after_reward"), injected());
    assert!(!has_flag(&world, "failure"));
}

#[test]
fn branch_injection_pushes_on_failure_to_queue_front() {
    let mut world = empty_world();
    world.currency = Some(5);
    run_frame(
        &mut world,
        &empty_catalog(),
        vec![
            EventAction::GiveCurrency {
                amount: 100,
                direction: TransferDirection::Take,
                on_success: vec![marker_action("success")],
                on_failure: vec![marker_action("fail_first"), marker_action("fail_second")],
            },
            marker_action("after_reward"),
        ],
    );
    assert_eq!(flag(&world, "fail_first"), injected());
    assert_eq!(flag(&world, "fail_second"), injected());
    assert_eq!(flag(&world, "after_reward"), injected());
    assert!(!has_flag(&world, "success"));
}

#[test]
fn non_blocking_actions_chain_within_single_frame() {
    let mut world = empty_world();
    world.currency = Some(0);
    world.progress = Some(progress_with(&[("hero", 0, vec![])]));
    let (queue, out) = run_frame(
        &mut world,
        &catalog_with_character("hero"),
        vec![
            EventAction::GiveCurrency {
                amount: 100,
                direction: TransferDirection::Give,
                on_success: vec![],
                on_failure: vec![],
            },
            EventAction::GiveExperience {
                amount: 50,
                target: Some("hero".to_string()),
                direction: TransferDirection::Give,
                on_success: vec![],
                on_failure: vec![],
            },
            EventAction::AddPartyMember {
                character_id: "hero".to_string(),
                direction: TransferDirection::Give,
                on_success: vec![],
                on_failure: vec![],
            },
        ],
    );
    assert_eq!(world.currency, Some(100));
    assert_eq!(experience(&world, "hero"), 50);
    assert!(party(&world).contains(&"hero".to_string()));
    assert!(out.finished);
    assert!(queue.actions.is_empty());
}
