use rpg_toolkit::actions::EventAction;
use rpg_toolkit::condition::{BranchCondition, ConditionCheck, ConditionLogic, ConditionOperator};
use rpg_toolkit::input::{open_status_on_escape, read_input, Direction, MovementIntent, MovementKeys};
use rpg_toolkit::map::{
    check_triggers, compute_landing, init_npc_positions, compute_step, faced_tile, facing_from_step, handle_map_change, is_tile_blocked,
    npc_trigger_system, opposite_facing, plan_npc_entity_step, plan_player_entity_step, player_movement,
    read_interaction_input, ConditionalTrigger, EntityStep, FacingDirection, MapData, MapLayer, NpcInstance,
    NpcPositions, TileAttributes, TriggerMode,
};
use rpg_toolkit::patrol::{npc_may_patrol, plan_patrol_move, step_toward_waypoint};
use rpg_toolkit::save::RendererState;
use rpg_toolkit::strmap::StrMap;

fn tile() -> TileAttributes {
    TileAttributes {
        opacity: false,
        elevation: 0,
        target_elevation: None,
        event_trigger: Vec::new(),
        conditional_triggers: Vec::new(),
    }
}

fn set_state(key: &str, value: &str) -> EventAction {
    EventAction::SetState { key: key.to_string(), value: value.to_string() }
}

/// A 4x3 map with one layer; (2, 1) is a wall, (1, 1) sets elevation 1 and
/// carries a trigger, (3, 0) has a conditional trigger.
fn map() -> MapData {
    let mut rows = Vec::new();
    for _y in 0..3 {
        let mut row = Vec::new();
        for _x in 0..4 {
            row.push(tile());
        }
        rows.push(row);
    }
    rows[1][2].opacity = true;
    rows[1][1].target_elevation = Some(1);
    rows[1][1].event_trigger = vec![set_state("stepped", "yes")];
    rows[0][3].event_trigger = vec![set_state("plain", "yes")];
    rows[0][3].conditional_triggers = vec![ConditionalTrigger {
        condition: BranchCondition {
            checks: vec![ConditionCheck {
                key: "door".to_string(),
                operator: ConditionOperator::Equals,
                value: Some("open".to_string()),
            }],
            logic: ConditionLogic::All,
        },
        actions: vec![set_state("conditional", "yes")],
    }];
    MapData {
        width: 4,
        height: 3,
        layers: vec![MapLayer { cells: rows }],
        npcs: vec![
            NpcInstance {
                spritesheet_id: "guard".to_string(),
                x: 0,
                y: 2,
                elevation: 0,
                trigger_mode: TriggerMode::Interaction,
                event_triggers: vec![set_state("talked", "yes")],
                required_state: None,
            },
            NpcInstance {
                spritesheet_id: "slime".to_string(),
                x: 3,
                y: 2,
                elevation: 0,
                trigger_mode: TriggerMode::Collision,
                event_triggers: vec![set_state("bumped", "yes")],
                required_state: Some(("slimes".to_string(), "on".to_string())),
            },
        ],
    }
}

fn positions() -> NpcPositions {
    NpcPositions { positions: vec![(0, 2, 0), (3, 2, 0)] }
}

#[test]
fn opaque_tiles_and_npcs_block() {
    let m = map();
    let p = positions();
    assert!(is_tile_blocked(&m, 2, 1, None, None));
    assert!(is_tile_blocked(&m, 2, 1, Some(0), None));
    assert!(!is_tile_blocked(&m, 2, 1, Some(5), None));
    assert!(!is_tile_blocked(&m, 0, 0, None, Some(&p)));
    assert!(is_tile_blocked(&m, 0, 2, None, Some(&p)));
    assert!(!is_tile_blocked(&m, 0, 2, Some(1), Some(&p)));
}

#[test]
fn stepping_on_trigger_starts_sequence_and_sets_elevation() {
    let m = map();
    let flags = StrMap::new();
    let r = check_triggers(Some(&m), (1, 1), &flags, false);
    assert_eq!(r.new_elevation, Some(1));
    let q = r.queue.expect("trigger starts a sequence");
    assert_eq!(q.actions.len(), 1);
    let busy = check_triggers(Some(&m), (1, 1), &flags, true);
    assert_eq!(busy.new_elevation, Some(1));
    assert!(busy.queue.is_none());
    assert!(check_triggers(Some(&m), (0, 0), &flags, false).queue.is_none());
    assert!(check_triggers(None, (1, 1), &flags, false).queue.is_none());
}

#[test]
fn conditional_trigger_replaces_plain_one() {
    let m = map();
    let mut flags = StrMap::new();
    let plain = check_triggers(Some(&m), (3, 0), &flags, false).queue.unwrap();
    assert!(matches!(&plain.actions[0], EventAction::SetState { key, .. } if key == "plain"));
    flags.insert("door".to_string(), "open".to_string());
    let cond = check_triggers(Some(&m), (3, 0), &flags, false).queue.unwrap();
    assert!(matches!(&cond.actions[0], EventAction::SetState { key, .. } if key == "conditional"));
}

#[test]
fn player_moves_turns_and_bumps() {
    let m = map();
    let p = positions();
    let r = player_movement(Some(Direction::Right), false, Some(&m), 0, 0, 0, false, &p);
    assert_eq!(r.facing, Some(FacingDirection::Right));
    assert_eq!(r.target, Some((1, 0)));
    let wall = player_movement(Some(Direction::Right), false, Some(&m), 1, 1, 0, false, &p);
    assert_eq!(wall.facing, Some(FacingDirection::Right));
    assert_eq!(wall.target, None);
    let edge = player_movement(Some(Direction::Up), false, Some(&m), 0, 0, 0, false, &p);
    assert_eq!(edge.target, None);
    let bump = player_movement(Some(Direction::Right), false, Some(&m), 2, 2, 0, false, &p);
    assert_eq!(bump.target, None);
    assert_eq!(bump.collision_npc, Some(1));
    let talk = player_movement(Some(Direction::Down), false, Some(&m), 0, 1, 0, false, &p);
    assert_eq!(talk.collision_npc, None);
    let blocked = player_movement(Some(Direction::Right), true, Some(&m), 0, 0, 0, false, &p);
    assert_eq!(blocked.facing, None);
    assert_eq!(blocked.target, None);
}

#[test]
fn interaction_with_faced_npc() {
    let m = map();
    let p = positions();
    let flags = StrMap::new();
    let t = npc_trigger_system(false, false, Some(&m), None, true, Some((0, 1)), Some(FacingDirection::Down), &p, &flags)
        .expect("guard talks");
    assert_eq!(t.npc_index, 0);
    assert_eq!(t.turn_to, Some(FacingDirection::Up));
    assert!(npc_trigger_system(true, false, Some(&m), None, true, Some((0, 1)), Some(FacingDirection::Down), &p, &flags).is_none());
    assert!(npc_trigger_system(false, false, Some(&m), None, true, Some((0, 1)), Some(FacingDirection::Up), &p, &flags).is_none());
}

#[test]
fn collision_npc_needs_its_state() {
    let m = map();
    let p = positions();
    let mut flags = StrMap::new();
    assert!(npc_trigger_system(false, false, Some(&m), Some(1), false, Some((2, 2)), None, &p, &flags).is_none());
    flags.insert("slimes".to_string(), "on".to_string());
    let t = npc_trigger_system(false, false, Some(&m), Some(1), false, Some((2, 2)), None, &p, &flags).unwrap();
    assert_eq!(t.npc_index, 1);
    assert_eq!(t.turn_to, None);
}

#[test]
fn map_change_clamps_to_map() {
    let mut maps = StrMap::new();
    maps.insert("cave".to_string(), map());
    let mut r = RendererState {
        active_map_id: Some("town".to_string()),
        pending_map_change: Some("cave".to_string()),
        pending_target_coords: Some((10, 1)),
        pending_target_elevation: Some(1),
    };
    let a = handle_map_change(&mut r, &maps).expect("map exists");
    assert_eq!(a.previous_map_id, Some("town".to_string()));
    assert_eq!(a.new_map_id, "cave");
    assert_eq!((a.x, a.y), (3, 1));
    assert_eq!(a.elevation, Some(1));
    assert_eq!(r.active_map_id, Some("cave".to_string()));
    assert_eq!(r.pending_map_change, None);
    let mut missing = RendererState {
        active_map_id: None,
        pending_map_change: Some("nowhere".to_string()),
        pending_target_coords: None,
        pending_target_elevation: None,
    };
    assert!(handle_map_change(&mut missing, &maps).is_none());
    assert_eq!(missing.pending_map_change, None);
}

#[test]
fn jump_landing_is_clamped() {
    assert_eq!(compute_landing(1, 1, FacingDirection::Right, 5, 4, 3), (3, 1));
    assert_eq!(compute_landing(1, 1, FacingDirection::Up, 5, 4, 3), (1, 0));
    assert_eq!(compute_landing(1, 1, FacingDirection::Down, 1, 4, 3), (1, 2));
}

#[test]
fn steps_and_facings() {
    assert_eq!(compute_step(0, 0, 5, -3), (1, 0));
    assert_eq!(compute_step(5, 0, 5, -3), (0, -1));
    assert_eq!(compute_step(2, 2, 2, 2), (0, 0));
    assert_eq!(facing_from_step(0, 1), FacingDirection::Down);
    assert_eq!(facing_from_step(-1, 1), FacingDirection::Left);
    assert_eq!(facing_from_step(0, 0), FacingDirection::Up);
    assert_eq!(opposite_facing(opposite_facing(FacingDirection::Left)), FacingDirection::Left);
    assert_eq!(faced_tile(0, 0, FacingDirection::Up), None);
    assert_eq!(faced_tile(0, 0, FacingDirection::Right), Some((1, 0)));
    assert!(read_interaction_input(true, false, false));
    assert!(!read_interaction_input(true, true, false));
}

#[test]
fn scripted_moves_walk_horizontal_first() {
    let m = map();
    let p = positions();
    assert_eq!(
        plan_player_entity_step(&m, &p, 0, 0, 0, 2, 2),
        EntityStep::MoveTo { x: 1, y: 0, facing: FacingDirection::Right }
    );
    assert_eq!(plan_player_entity_step(&m, &p, 2, 2, 0, 2, 2), EntityStep::Complete);
    assert_eq!(plan_player_entity_step(&m, &p, 1, 1, 0, 3, 1), EntityStep::Complete);
    let mut q = positions();
    assert_eq!(
        plan_npc_entity_step(&m, &mut q, 0, 0, 2, 0, 0),
        EntityStep::MoveTo { x: 0, y: 1, facing: FacingDirection::Up }
    );
    assert_eq!(q.positions[0], (0, 1, 0));
}

#[test]
fn patrol_steps_toward_waypoint_and_respects_blocks() {
    assert_eq!(step_toward_waypoint(0, 0, 2, 2), Some((1, 0)));
    assert_eq!(step_toward_waypoint(2, 0, 2, 2), Some((0, 1)));
    assert_eq!(step_toward_waypoint(2, 2, 2, 2), None);
    let m = map();
    let mut p = positions();
    let players = vec![(1, 2)];
    assert_eq!(plan_patrol_move(&m, &mut p, 0, 0, 2, 1, 0, &players), None);
    assert_eq!(plan_patrol_move(&m, &mut p, 0, 0, 2, -1, 0, &players), None);
    assert_eq!(plan_patrol_move(&m, &mut p, 1, 3, 2, 0, -1, &players), Some((3, 1, FacingDirection::Up)));
    assert_eq!(p.positions[1], (3, 1, 0));
    assert_eq!(plan_patrol_move(&m, &mut p, 1, 3, 1, -1, 0, &players), None);
}

#[test]
fn patrol_pauses_for_dialog_and_state() {
    let m = map();
    let mut flags = StrMap::new();
    assert!(npc_may_patrol(&m, 0, &flags, false, false));
    assert!(!npc_may_patrol(&m, 0, &flags, true, false));
    assert!(!npc_may_patrol(&m, 0, &flags, false, true));
    assert!(!npc_may_patrol(&m, 1, &flags, false, false));
    flags.insert("slimes".to_string(), "on".to_string());
    assert!(npc_may_patrol(&m, 1, &flags, false, false));
    assert!(!npc_may_patrol(&m, 5, &flags, false, false));
}

#[test]
fn input_prefers_up_then_left() {
    let mut intent = MovementIntent::new();
    read_input(MovementKeys { up: true, left: true, down: false, right: false }, &mut intent);
    assert_eq!(intent.direction, Some(Direction::Up));
    read_input(MovementKeys { up: false, left: false, down: true, right: true }, &mut intent);
    assert_eq!(intent.direction, Some(Direction::Down));
    read_input(MovementKeys { up: false, left: false, down: false, right: false }, &mut intent);
    assert_eq!(intent.direction, None);
    assert!(open_status_on_escape(true, false, false, false));
    assert!(!open_status_on_escape(true, false, true, false));
}

#[test]
fn npc_positions_follow_the_entered_map() {
    let m = map();
    let mut p = NpcPositions::new();
    init_npc_positions(Some(&m), &mut p);
    assert_eq!(p.positions, vec![(0, 2, 0), (3, 2, 0)]);
    init_npc_positions(None, &mut p);
    assert!(p.positions.is_empty());
}
