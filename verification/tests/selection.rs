use std::collections::VecDeque;

use rpg_toolkit::actions::{DialogConfigData, DialogPositionData, DialogTextData, EventAction};
use rpg_toolkit::input::{Direction, MovementIntent};
use rpg_toolkit::queue::{ActionQueue, ResolvedChoice, SelectionState, WaitingFor};
use rpg_toolkit::selection::{cursor_visible, handle_selection_input, SelectionKeys};

fn selection_state(choice_count: usize, cursor_index: usize) -> SelectionState {
    SelectionState {
        cursor_index,
        choice_count,
        choices: (0..choice_count)
            .map(|i| ResolvedChoice { label: format!("Choice {}", i), actions: vec![] })
            .collect(),
    }
}

fn selection_state_with_actions(choices: Vec<(String, Vec<EventAction>)>, cursor_index: usize) -> SelectionState {
    let choice_count = choices.len();
    SelectionState {
        cursor_index,
        choice_count,
        choices: choices.into_iter().map(|(label, actions)| ResolvedChoice { label, actions }).collect(),
    }
}

fn default_config() -> DialogConfigData {
    DialogConfigData {
        text_speed_bits: 30.0f32.to_bits(),
        position: DialogPositionData::Bottom,
        movement_block: true,
        attribute_dialog: false,
        face_portrait: None,
    }
}

fn queue_with_show_selection() -> ActionQueue {
    let mut actions = VecDeque::new();
    actions.push_back(EventAction::ShowSelection {
        prompt: DialogTextData::Inline("Pick one".to_string()),
        config: default_config(),
        choices: vec![],
    });
    ActionQueue { actions, waiting_for: WaitingFor::Selection }
}

fn keys(confirm: bool, up: bool, down: bool) -> SelectionKeys {
    SelectionKeys { confirm, up, down }
}

fn press(
    state: SelectionState,
    k: SelectionKeys,
    queue: Option<ActionQueue>,
) -> (Option<SelectionState>, Option<ActionQueue>, bool, MovementIntent) {
    let mut selection = Some(state);
    let mut queue = queue;
    let mut intent = MovementIntent { direction: None };
    let confirmed = handle_selection_input(k, &mut selection, &mut intent, &mut queue);
    (selection, queue, confirmed, intent)
}

fn set_state(key: &str, value: &str) -> EventAction {
    EventAction::SetState { key: key.to_string(), value: value.to_string() }
}

#[test]
fn cursor_moves_down_on_arrow_down() {
    let (s, _, _, _) = press(selection_state(3, 0), keys(false, false, true), None);
    assert_eq!(s.unwrap().cursor_index, 1);
}

#[test]
fn cursor_moves_up_on_arrow_up() {
    let (s, _, _, _) = press(selection_state(3, 1), keys(false, true, false), None);
    assert_eq!(s.unwrap().cursor_index, 0);
}

#[test]
fn cursor_wraps_down_from_last_to_first() {
    let (s, _, _, _) = press(selection_state(3, 2), keys(false, false, true), None);
    assert_eq!(s.unwrap().cursor_index, 0);
}

#[test]
fn cursor_wraps_up_from_first_to_last() {
    let (s, _, _, _) = press(selection_state(3, 0), keys(false, true, false), None);
    assert_eq!(s.unwrap().cursor_index, 2);
}

#[test]
fn key_w_moves_cursor_up() {
    let (s, _, _, _) = press(selection_state(4, 2), keys(false, true, false), None);
    assert_eq!(s.unwrap().cursor_index, 1);
}

#[test]
fn key_s_moves_cursor_down() {
    let (s, _, _, _) = press(selection_state(4, 1), keys(false, false, true), None);
    assert_eq!(s.unwrap().cursor_index, 2);
}

#[test]
fn movement_intent_cleared_when_selection_active() {
    let mut selection = Some(selection_state(3, 0));
    let mut intent = MovementIntent { direction: Some(Direction::Up) };
    let mut queue: Option<ActionQueue> = None;
    handle_selection_input(keys(false, false, false), &mut selection, &mut intent, &mut queue);
    assert_eq!(intent.direction, None, "MovementIntent should be cleared");
}

#[test]
fn no_crash_without_selection_state() {
    let mut selection: Option<SelectionState> = None;
    let mut intent = MovementIntent { direction: Some(Direction::Left) };
    let mut queue: Option<ActionQueue> = None;
    let confirmed = handle_selection_input(keys(false, false, true), &mut selection, &mut intent, &mut queue);
    assert!(!confirmed);
    assert!(selection.is_none());
    assert_eq!(intent.direction, Some(Direction::Left));
}

#[test]
fn cursor_visibility_updates_on_navigation() {
    let (s, _, _, _) = press(selection_state(3, 0), keys(false, false, true), None);
    let s = s.unwrap();
    for index in 0..3 {
        if index == 1 {
            assert!(cursor_visible(&s, index), "Cursor at index 1 should be visible");
        } else {
            assert!(!cursor_visible(&s, index), "Cursor at index {} should be hidden", index);
        }
    }
}

#[test]
fn space_confirms_selection_and_removes_state() {
    let (s, _, _, _) = press(selection_state(3, 1), keys(true, false, false), Some(queue_with_show_selection()));
    assert!(s.is_none(), "SelectionState should be removed after confirmation");
}

#[test]
fn enter_confirms_selection_and_removes_state() {
    let (s, _, _, _) = press(selection_state(3, 0), keys(true, false, false), Some(queue_with_show_selection()));
    assert!(s.is_none(), "SelectionState should be removed after Enter confirmation");
}

#[test]
fn confirmation_despawns_selection_box_entities() {
    let (_, _, confirmed, _) =
        press(selection_state(2, 0), keys(true, false, false), Some(queue_with_show_selection()));
    assert!(confirmed, "SelectionBox entity should be despawned after confirmation");
}

#[test]
fn confirmation_pops_show_selection_from_queue() {
    let (_, q, _, _) = press(selection_state(2, 0), keys(true, false, false), Some(queue_with_show_selection()));
    assert!(q.unwrap().actions.is_empty(), "ShowSelection should be popped from the queue");
}

#[test]
fn confirmation_inserts_branch_actions_at_front() {
    let branch_actions = vec![set_state("test_key", "test_value")];
    let state = selection_state_with_actions(
        vec![
            ("Choice 0".to_string(), vec![]),
            ("Choice 1".to_string(), vec![set_state("test_key", "test_value")]),
            ("Choice 2".to_string(), vec![]),
        ],
        1,
    );
    let (_, q, _, _) = press(state, keys(true, false, false), Some(queue_with_show_selection()));
    let q = q.unwrap();
    assert_eq!(q.actions.len(), 1);
    assert_eq!(q.actions[0], branch_actions[0]);
}

#[test]
fn confirmation_clears_waiting_for_to_nothing() {
    let (_, q, _, _) = press(selection_state(2, 0), keys(true, false, false), Some(queue_with_show_selection()));
    assert_eq!(
        q.unwrap().waiting_for,
        WaitingFor::Nothing,
        "waiting_for should be cleared to Nothing after confirmation"
    );
}

#[test]
fn confirmation_without_action_queue_still_removes_state() {
    let (s, q, _, _) = press(selection_state(2, 0), keys(true, false, false), None);
    assert!(s.is_none(), "SelectionState should be removed even without ActionQueue");
    assert!(q.is_none());
}

#[test]
fn confirmation_inserts_multiple_branch_actions_in_order() {
    let branch_actions = vec![set_state("first", "1"), set_state("second", "2"), set_state("third", "3")];
    let state = selection_state_with_actions(
        vec![
            (
                "Choice A".to_string(),
                vec![set_state("first", "1"), set_state("second", "2"), set_state("third", "3")],
            ),
            ("Choice B".to_string(), vec![]),
        ],
        0,
    );
    let (_, q, _, _) = press(state, keys(true, false, false), Some(queue_with_show_selection()));
    let q = q.unwrap();
    assert_eq!(q.actions.len(), 3);
    assert_eq!(q.actions[0], branch_actions[0]);
    assert_eq!(q.actions[1], branch_actions[1]);
    assert_eq!(q.actions[2], branch_actions[2]);
}

#[test]
fn confirmed_branch_runs_before_remaining_actions() {
    let mut queue = queue_with_show_selection();
    queue.actions.push_back(set_state("after", "x"));
    let state = selection_state_with_actions(vec![("Only".to_string(), vec![set_state("branch", "y")])], 0);
    let (_, q, _, _) = press(state, keys(true, false, false), Some(queue));
    let q = q.unwrap();
    assert_eq!(q.actions.len(), 2);
    assert_eq!(q.actions[0], set_state("branch", "y"));
    assert_eq!(q.actions[1], set_state("after", "x"));
}

#[test]
fn up_then_down_in_one_frame_keeps_cursor() {
    let (s, _, _, _) = press(selection_state(3, 0), keys(false, true, true), None);
    assert_eq!(s.unwrap().cursor_index, 0);
}
