use std::collections::VecDeque;

use rpg_toolkit::actions::{is_blocking_action, EntityTarget, EventAction};
use rpg_toolkit::map::{
    entity_move_frame, find_npc_by_spritesheet, EntityMoveState, EntityStep, FacingDirection, MapData, MapLayer,
    NpcInstance, NpcPositions, TileAttributes, TriggerMode,
};
use rpg_toolkit::queue::{
    advance_action_queue, complete_move, ActionQueue, ActiveEffects, Effect, GameWorld, WaitingFor,
};
use rpg_toolkit::strmap::StrMap;

fn world() -> GameWorld {
    GameWorld {
        flags: Some(StrMap::new()),
        currency: Some(0),
        inventory: Some(StrMap::new()),
        party: Some(Vec::new()),
        progress: Some(StrMap::new()),
        pending_map_change: None,
        pending_target_coords: None,
        pending_target_elevation: None,
    }
}

fn idle() -> ActiveEffects {
    ActiveEffects { dialog: false, screen_shake: false, fade: false, selection: false, camera_pan: false, wait: false }
}

fn set_state(key: &str) -> EventAction {
    EventAction::SetState { key: key.to_string(), value: "1".to_string() }
}

fn flag(w: &GameWorld, key: &str) -> Option<String> {
    w.flags.as_ref().unwrap().get(key).cloned()
}

fn tile() -> TileAttributes {
    TileAttributes {
        opacity: false,
        elevation: 0,
        target_elevation: None,
        event_trigger: Vec::new(),
        conditional_triggers: Vec::new(),
    }
}

fn npc(sheet: &str, x: u32, y: u32) -> NpcInstance {
    NpcInstance {
        spritesheet_id: sheet.to_string(),
        x,
        y,
        elevation: 0,
        trigger_mode: TriggerMode::Interaction,
        event_triggers: Vec::new(),
        required_state: None,
    }
}

/// A 4x3 open map with a wall at (2, 1) and NPCs "guard" at (0, 2), "cat"
/// at (3, 2) and a second "guard" at (3, 0).
fn map() -> MapData {
    let mut rows = Vec::new();
    for _y in 0..3 {
        let mut row = Vec::new();
        for _x in 0..4 {
            row.push(tile());
        }
        rows.push(row);
    }
    rows[1][2].opacity = true;
    MapData {
        width: 4,
        height: 3,
        layers: vec![MapLayer { cells: rows }],
        npcs: vec![npc("guard", 0, 2), npc("cat", 3, 2), npc("guard", 3, 0)],
    }
}

fn positions() -> NpcPositions {
    NpcPositions { positions: vec![(0, 2, 0), (3, 2, 0), (3, 0, 0)] }
}

fn move_player(x: u32, y: u32) -> EventAction {
    EventAction::MoveEntity { target: EntityTarget::Player, target_x: x, target_y: y, speed_bits: 4.0f32.to_bits() }
}

fn state(target: EntityTarget, x: u32, y: u32) -> Option<EntityMoveState> {
    Some(EntityMoveState { target, target_x: x, target_y: y, speed_bits: 4.0f32.to_bits() })
}

fn waiting_queue() -> ActionQueue {
    ActionQueue { actions: VecDeque::from(vec![move_player(2, 0), set_state("after")]), waiting_for: WaitingFor::EntityMove }
}

#[test]
fn blocking_classification_of_scripted_actions() {
    assert!(is_blocking_action(&move_player(1, 1)));
    assert!(is_blocking_action(&EventAction::CameraPan { target_x: 1, target_y: 2, duration_bits: 1.0f32.to_bits() }));
    assert!(is_blocking_action(&EventAction::Wait { duration_bits: 0.5f32.to_bits() }));
    assert!(is_blocking_action(&EventAction::Jump { distance: 2 }));
    assert!(!is_blocking_action(&EventAction::CameraFollow { target: EntityTarget::Player }));
    assert!(!is_blocking_action(&EventAction::SetSpeed { multiplier_bits: 2.0f32.to_bits() }));
}

#[test]
fn move_entity_starts_and_waits() {
    let mut q = ActionQueue {
        actions: VecDeque::from(vec![set_state("before"), move_player(2, 0), set_state("after")]),
        waiting_for: WaitingFor::Nothing,
    };
    let mut w = world();
    let out = advance_action_queue(&mut q, &mut w, None, None, idle());
    assert!(!out.finished);
    assert_eq!(out.effects.len(), 1);
    match &out.effects[0] {
        Effect::StartEntityMove { target, target_x, target_y, speed_bits } => {
            assert_eq!(*target, EntityTarget::Player);
            assert_eq!((*target_x, *target_y), (2, 0));
            assert_eq!(*speed_bits, 4.0f32.to_bits());
        },
        other => panic!("unexpected effect {:?}", other),
    }
    assert_eq!(q.waiting_for, WaitingFor::EntityMove);
    assert_eq!(q.actions.len(), 2);
    assert_eq!(flag(&w, "before"), Some("1".to_string()));

    // Frames change nothing while the move is under way.
    let out = advance_action_queue(&mut q, &mut w, None, None, idle());
    assert!(!out.finished);
    assert!(out.effects.is_empty());
    assert_eq!(q.actions.len(), 2);
    assert_eq!(q.waiting_for, WaitingFor::EntityMove);
    assert_eq!(flag(&w, "after"), None);
}

#[test]
fn completed_move_lets_the_sequence_go_on() {
    let m = map();
    let mut q = waiting_queue();
    let mut st = state(EntityTarget::Player, 2, 0);
    let mut p = positions();
    let r = entity_move_frame(&mut q, &mut st, Some(&m), &mut p, Some((2, 0, 0)), &Vec::new());
    assert_eq!(r, Some(EntityStep::Complete));
    assert!(st.is_none());
    assert_eq!(q.waiting_for, WaitingFor::Nothing);
    assert_eq!(q.actions.len(), 1);
    assert_eq!(p.positions, positions().positions);

    let mut w = world();
    let out = advance_action_queue(&mut q, &mut w, None, None, idle());
    assert!(out.finished);
    assert_eq!(flag(&w, "after"), Some("1".to_string()));
}

#[test]
fn player_steps_toward_target() {
    let m = map();
    let mut q = waiting_queue();
    let mut st = state(EntityTarget::Player, 2, 0);
    let mut p = positions();
    let r = entity_move_frame(&mut q, &mut st, Some(&m), &mut p, Some((0, 0, 0)), &Vec::new());
    assert_eq!(r, Some(EntityStep::MoveTo { x: 1, y: 0, facing: FacingDirection::Right }));
    assert!(st.is_some());
    assert_eq!(q.waiting_for, WaitingFor::EntityMove);
    assert_eq!(q.actions.len(), 2);
    assert_eq!(p.positions, positions().positions);
}

#[test]
fn blocked_player_move_completes() {
    let m = map();
    let mut q = waiting_queue();
    let mut st = state(EntityTarget::Player, 3, 1);
    let mut p = positions();
    // The next tile (2, 1) is a wall.
    let r = entity_move_frame(&mut q, &mut st, Some(&m), &mut p, Some((1, 1, 0)), &Vec::new());
    assert_eq!(r, Some(EntityStep::Complete));
    assert!(st.is_none());
    assert_eq!(q.waiting_for, WaitingFor::Nothing);
    assert_eq!(q.actions.len(), 1);
}

#[test]
fn missing_player_completes_move() {
    let m = map();
    let mut q = waiting_queue();
    let mut st = state(EntityTarget::Player, 2, 0);
    let mut p = positions();
    let r = entity_move_frame(&mut q, &mut st, Some(&m), &mut p, None, &Vec::new());
    assert_eq!(r, Some(EntityStep::Complete));
    assert_eq!(q.actions.len(), 1);
}

#[test]
fn npc_step_moves_its_recorded_position() {
    let m = map();
    let mut q = waiting_queue();
    let mut st = state(EntityTarget::Npc { npc_id: "guard".to_string() }, 0, 0);
    let mut p = positions();
    let grids = vec![Some((0, 2)), Some((3, 2)), Some((3, 0))];
    let r = entity_move_frame(&mut q, &mut st, Some(&m), &mut p, None, &grids);
    assert_eq!(r, Some(EntityStep::MoveTo { x: 0, y: 1, facing: FacingDirection::Up }));
    // The first NPC drawn as "guard" moves; the second one stays.
    assert_eq!(p.positions, vec![(0, 1, 0), (3, 2, 0), (3, 0, 0)]);
    assert_eq!(q.waiting_for, WaitingFor::EntityMove);
    assert_eq!(q.actions.len(), 2);
    assert!(st.is_some());
}

#[test]
fn npc_blocked_by_another_npc_completes() {
    let m = map();
    let mut q = waiting_queue();
    let mut st = state(EntityTarget::Npc { npc_id: "cat".to_string() }, 3, 0);
    let mut p = NpcPositions { positions: vec![(0, 2, 0), (3, 2, 0), (3, 1, 0)] };
    let grids = vec![Some((0, 2)), Some((3, 2)), Some((3, 1))];
    let r = entity_move_frame(&mut q, &mut st, Some(&m), &mut p, None, &grids);
    assert_eq!(r, Some(EntityStep::Complete));
    assert_eq!(p.positions, vec![(0, 2, 0), (3, 2, 0), (3, 1, 0)]);
    assert_eq!(q.waiting_for, WaitingFor::Nothing);
    assert_eq!(q.actions.len(), 1);
}

#[test]
fn unknown_npc_completes_move() {
    let m = map();
    let mut q = waiting_queue();
    let mut st = state(EntityTarget::Npc { npc_id: "dragon".to_string() }, 0, 0);
    let mut p = positions();
    let grids = vec![Some((0, 2)), Some((3, 2)), Some((3, 0))];
    let r = entity_move_frame(&mut q, &mut st, Some(&m), &mut p, None, &grids);
    assert_eq!(r, Some(EntityStep::Complete));
    assert!(st.is_none());
    assert_eq!(q.actions.len(), 1);
}

#[test]
fn npc_without_entity_completes_move() {
    let m = map();
    let mut q = waiting_queue();
    let mut st = state(EntityTarget::Npc { npc_id: "cat".to_string() }, 0, 0);
    let mut p = positions();
    let grids = vec![Some((0, 2)), None, Some((3, 0))];
    let r = entity_move_frame(&mut q, &mut st, Some(&m), &mut p, None, &grids);
    assert_eq!(r, Some(EntityStep::Complete));
    assert_eq!(q.actions.len(), 1);
}

#[test]
fn move_frame_idle_unless_waiting_for_a_move() {
    let m = map();
    let mut q = ActionQueue { actions: VecDeque::from(vec![set_state("a")]), waiting_for: WaitingFor::Dialog };
    let mut st = state(EntityTarget::Player, 2, 0);
    let mut p = positions();
    assert_eq!(entity_move_frame(&mut q, &mut st, Some(&m), &mut p, Some((2, 0, 0)), &Vec::new()), None);
    assert_eq!(q.waiting_for, WaitingFor::Dialog);
    assert_eq!(q.actions.len(), 1);
    assert!(st.is_some());

    let mut q = waiting_queue();
    let mut none: Option<EntityMoveState> = None;
    assert_eq!(entity_move_frame(&mut q, &mut none, Some(&m), &mut p, Some((2, 0, 0)), &Vec::new()), None);
    assert_eq!(entity_move_frame(&mut q, &mut st, None, &mut p, Some((2, 0, 0)), &Vec::new()), None);
    assert_eq!(q.actions.len(), 2);
    assert_eq!(q.waiting_for, WaitingFor::EntityMove);
}

#[test]
fn find_npc_by_spritesheet_takes_the_first() {
    let m = map();
    assert_eq!(find_npc_by_spritesheet(&m, "guard"), Some(0));
    assert_eq!(find_npc_by_spritesheet(&m, "cat"), Some(1));
    assert_eq!(find_npc_by_spritesheet(&m, "dragon"), None);
}

#[test]
fn camera_follow_and_speed_run_through() {
    let mut q = ActionQueue {
        actions: VecDeque::from(vec![
            EventAction::CameraFollow { target: EntityTarget::Npc { npc_id: "cat".to_string() } },
            EventAction::SetSpeed { multiplier_bits: 2.0f32.to_bits() },
            set_state("after"),
        ]),
        waiting_for: WaitingFor::Nothing,
    };
    let mut w = world();
    let out = advance_action_queue(&mut q, &mut w, None, None, idle());
    assert!(out.finished);
    assert_eq!(out.effects.len(), 2);
    assert!(matches!(&out.effects[0], Effect::FollowEntity { target: EntityTarget::Npc { npc_id } } if npc_id == "cat"));
    assert!(matches!(&out.effects[1], Effect::SetSpeed { multiplier_bits } if *multiplier_bits == 2.0f32.to_bits()));
    assert_eq!(flag(&w, "after"), Some("1".to_string()));
}

#[test]
fn wait_and_camera_pan_block_while_active() {
    let mut q = ActionQueue {
        actions: VecDeque::from(vec![
            EventAction::Wait { duration_bits: 0.5f32.to_bits() },
            EventAction::CameraPan { target_x: 5, target_y: 6, duration_bits: 1.0f32.to_bits() },
            set_state("after"),
        ]),
        waiting_for: WaitingFor::Nothing,
    };
    let mut w = world();
    let out = advance_action_queue(&mut q, &mut w, None, None, idle());
    assert!(matches!(&out.effects[..], [Effect::StartWait { .. }]));
    assert_eq!(q.waiting_for, WaitingFor::Wait);
    let out = advance_action_queue(&mut q, &mut w, None, None, ActiveEffects { wait: true, ..idle() });
    assert!(out.effects.is_empty());
    assert_eq!(q.actions.len(), 3);

    let out = advance_action_queue(&mut q, &mut w, None, None, idle());
    assert!(matches!(&out.effects[..], [Effect::StartCameraPan { target_x: 5, target_y: 6, .. }]));
    assert_eq!(q.waiting_for, WaitingFor::CameraPan);
    assert_eq!(q.actions.len(), 2);
    let out = advance_action_queue(&mut q, &mut w, None, None, ActiveEffects { camera_pan: true, ..idle() });
    assert!(out.effects.is_empty());
    assert_eq!(flag(&w, "after"), None);

    let out = advance_action_queue(&mut q, &mut w, None, None, idle());
    assert!(out.finished);
    assert_eq!(flag(&w, "after"), Some("1".to_string()));
}

#[test]
fn jump_waits_until_completed() {
    let mut q = ActionQueue {
        actions: VecDeque::from(vec![EventAction::Jump { distance: 2 }, set_state("landed")]),
        waiting_for: WaitingFor::Nothing,
    };
    let mut w = world();
    let out = advance_action_queue(&mut q, &mut w, None, None, idle());
    assert!(matches!(&out.effects[..], [Effect::StartJump { distance: 2 }]));
    assert_eq!(q.waiting_for, WaitingFor::Jump);
    let out = advance_action_queue(&mut q, &mut w, None, None, idle());
    assert!(out.effects.is_empty());
    assert_eq!(q.actions.len(), 2);

    complete_move(&mut q);
    assert_eq!(q.waiting_for, WaitingFor::Nothing);
    assert_eq!(q.actions.len(), 1);
    let out = advance_action_queue(&mut q, &mut w, None, None, idle());
    assert!(out.finished);
    assert_eq!(flag(&w, "landed"), Some("1".to_string()));
}
