use rpg_toolkit::actions::EventAction;
use rpg_toolkit::catalog::{category_display_name, ItemCategory};
use rpg_toolkit::hotkey::{hotkey_input_system, HotkeyBinding};
use rpg_toolkit::queue::WaitingFor;
use rpg_toolkit::shop_session::{mode_label, ShopMode};

fn set_state(key: &str) -> EventAction {
    EventAction::SetState { key: key.to_string(), value: "1".to_string() }
}

fn bindings() -> Vec<HotkeyBinding> {
    vec![
        HotkeyBinding { key_code: "KeyM".to_string(), event_actions: vec![set_state("map"), set_state("menu")] },
        HotkeyBinding { key_code: "KeyE".to_string(), event_actions: Vec::new() },
        HotkeyBinding { key_code: "KeyM".to_string(), event_actions: vec![set_state("shadowed")] },
        HotkeyBinding { key_code: "KeyQ".to_string(), event_actions: vec![set_state("quest")] },
    ]
}

fn keys(v: &[&str]) -> Vec<String> {
    v.iter().map(|s| s.to_string()).collect()
}

#[test]
fn first_binding_of_first_bound_key_starts() {
    let q = hotkey_input_system(false, &bindings(), &keys(&["KeyX", "KeyM", "KeyQ"])).expect("KeyM is bound");
    assert_eq!(q.actions.len(), 2);
    assert_eq!(q.waiting_for, WaitingFor::Nothing);
    assert!(matches!(&q.actions[0], EventAction::SetState { key, .. } if key == "map"));
}

#[test]
fn empty_binding_still_wins() {
    assert!(hotkey_input_system(false, &bindings(), &keys(&["KeyE", "KeyQ"])).is_none());
}

#[test]
fn hotkeys_wait_while_busy_or_unbound() {
    assert!(hotkey_input_system(true, &bindings(), &keys(&["KeyQ"])).is_none());
    assert!(hotkey_input_system(false, &bindings(), &keys(&["KeyZ"])).is_none());
    assert!(hotkey_input_system(false, &Vec::new(), &keys(&["KeyQ"])).is_none());
    let q = hotkey_input_system(false, &bindings(), &keys(&["KeyQ"])).unwrap();
    assert_eq!(q.actions.len(), 1);
}

#[test]
fn labels() {
    assert_eq!(category_display_name(ItemCategory::KeyItem), "Key Item");
    assert_eq!(category_display_name(ItemCategory::Weapon), "Weapon");
    assert_eq!(mode_label(ShopMode::Buy), "[Buy]  Sell  (Tab to switch)");
    assert_eq!(mode_label(ShopMode::Sell), " Buy  [Sell] (Tab to switch)");
}
