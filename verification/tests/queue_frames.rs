use std::collections::VecDeque;

use rpg_toolkit::actions::{DialogConfigData, DialogPositionData, DialogTextData, EventAction};
use rpg_toolkit::queue::{advance_action_queue, ActionQueue, ActiveEffects, Effect, GameWorld, WaitingFor};
use rpg_toolkit::strmap::StrMap;

fn world() -> GameWorld {
    GameWorld {
        flags: Some(StrMap::new()),
        currency: Some(0),
        inventory: Some(StrMap::new()),
        party: Some(Vec::new()),
        progress: Some(StrMap::new()),
        pending_map_change: None,
        pending_target_coords: None,
        pending_target_elevation: None,
    }
}

fn dialog(text: &str) -> EventAction {
    EventAction::ShowDialog {
        text: DialogTextData::Inline(text.to_string()),
        config: DialogConfigData {
            text_speed_bits: 30.0f32.to_bits(),
            position: DialogPositionData::Bottom,
            movement_block: true,
            attribute_dialog: false,
            face_portrait: None,
        },
    }
}

fn set_state(key: &str) -> EventAction {
    EventAction::SetState { key: key.to_string(), value: "1".to_string() }
}

fn idle() -> ActiveEffects {
    ActiveEffects { dialog: false, screen_shake: false, fade: false, selection: false, camera_pan: false, wait: false }
}

#[test]
fn dialog_blocks_until_dismissed() {
    let mut q = ActionQueue {
        actions: VecDeque::from(vec![set_state("before"), dialog("Hello"), set_state("after")]),
        waiting_for: WaitingFor::Nothing,
    };
    let mut w = world();
    let out = advance_action_queue(&mut q, &mut w, None, None, idle());
    assert!(!out.finished);
    assert_eq!(out.effects.len(), 1);
    assert!(matches!(&out.effects[0], Effect::ShowDialog { .. }));
    assert_eq!(q.waiting_for, WaitingFor::Dialog);
    assert_eq!(q.actions.len(), 2);
    assert_eq!(w.flags.as_ref().unwrap().get("before"), Some(&"1".to_string()));
    assert_eq!(w.flags.as_ref().unwrap().get("after"), None);

    // While the dialog is open, frames change nothing.
    let busy = ActiveEffects { dialog: true, ..idle() };
    let out = advance_action_queue(&mut q, &mut w, None, None, busy);
    assert!(!out.finished);
    assert!(out.effects.is_empty());
    assert_eq!(q.actions.len(), 2);
    assert_eq!(q.waiting_for, WaitingFor::Dialog);

    // Once it is dismissed the dialog action is dropped and the rest runs.
    let out = advance_action_queue(&mut q, &mut w, None, None, idle());
    assert!(out.finished);
    assert_eq!(q.actions.len(), 0);
    assert_eq!(w.flags.as_ref().unwrap().get("after"), Some(&"1".to_string()));
}

#[test]
fn jump_to_requests_map_change() {
    let mut q = ActionQueue {
        actions: VecDeque::from(vec![EventAction::JumpTo {
            target_map_id: "cave".to_string(),
            target_x: 4,
            target_y: 5,
            target_elevation: Some(2),
        }]),
        waiting_for: WaitingFor::Nothing,
    };
    let mut w = world();
    let out = advance_action_queue(&mut q, &mut w, None, None, idle());
    assert!(!out.finished);
    assert_eq!(q.actions.len(), 0);
    assert_eq!(w.pending_map_change, Some("cave".to_string()));
    assert_eq!(w.pending_target_coords, Some((4, 5)));
    assert_eq!(w.pending_target_elevation, Some(2));
    let out = advance_action_queue(&mut q, &mut w, None, None, idle());
    assert!(out.finished);
}
