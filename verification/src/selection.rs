//! Keyboard handling of an open selection prompt: moving the cursor with
//! wrap-around and committing the focused choice into the action queue.
use vstd::prelude::*;
use crate::actions::{copy_actions, view_actions, ActionView};
use crate::input::MovementIntent;
use crate::queue::{inject_front, pop_front, selection_view, ActionQueue, SelectionState, WaitingFor};

verus! {

/// The selection keys pressed this frame: confirm (Space or Enter), up
/// (arrow up or W), down (arrow down or S).
#[derive(Debug, Clone, Copy, PartialEq, Eq, Structural)]
pub struct SelectionKeys {
    pub confirm: bool,
    pub up: bool,
    pub down: bool,
}

/// The cursor one choice up, wrapping from the first to the last.
pub open spec fn cursor_up(i: int, n: int) -> int {
    (i + n - 1) % n
}

/// The cursor one choice down, wrapping from the last to the first.
pub open spec fn cursor_down(i: int, n: int) -> int {
    (i + 1) % n
}

/// The cursor after the navigation keys: up first, then down.
pub open spec fn navigated(keys: SelectionKeys, i: int, n: int) -> int {
    let after_up = if keys.up {
        cursor_up(i, n)
    } else {
        i
    };
    if keys.down {
        cursor_down(after_up, n)
    } else {
        after_up
    }
}

/// The inputs on which a frame of selection input is defined: a confirmed
/// cursor points at a choice, and navigation needs at least one choice and
/// a cursor whose arithmetic fits in `usize`.
pub open spec fn selection_input_ok(s: SelectionState, keys: SelectionKeys) -> bool {
    if keys.confirm {
        s.cursor_index < s.choices@.len()
    } else {
        &&& (keys.up || keys.down) ==> s.choice_count > 0
        &&& keys.up ==> s.cursor_index + s.choice_count - 1 <= usize::MAX
        &&& (keys.down && !keys.up) ==> s.cursor_index + 1 <= usize::MAX
    }
}

/// Handles one frame of keyboard input while a selection prompt is open.
/// Without an open prompt nothing happens. Otherwise player movement is
/// blocked (the intent is cleared) and:
/// - on confirm, the prompt closes, and if a queue exists its front action
///   (the `ShowSelection`) is replaced by the committed choice's actions, in
///   order, and the queue stops waiting; the result is `true` so that the
///   caller removes the prompt's display;
/// - otherwise up and down move the cursor with wrap-around.
pub fn handle_selection_input(
    keys: SelectionKeys,
    selection: &mut Option<SelectionState>,
    intent: &mut MovementIntent,
    queue: &mut Option<ActionQueue>,
) -> (confirmed: bool)
    requires
        *old(selection) matches Some(s) ==> selection_input_ok(s, keys),
    ensures
        match *old(selection) {
            None => {
                &&& !confirmed
                &&& *final(selection) is None
                &&& *final(intent) == *old(intent)
                &&& *final(queue) == *old(queue)
            },
            Some(s) => {
                &&& final(intent).direction is None
                &&& confirmed == keys.confirm
                &&& if keys.confirm {
                    &&& *final(selection) is None
                    &&& match *old(queue) {
                        None => *final(queue) is None,
                        Some(q) => {
                            &&& *final(queue) matches Some(fq) && {
                                &&& view_actions(fq.actions@) == view_actions(
                                    s.choices@[s.cursor_index as int].actions@,
                                ) + pop_front(view_actions(q.actions@))
                                &&& fq.waiting_for == WaitingFor::Nothing
                            }
                        },
                    }
                } else {
                    &&& *final(queue) == *old(queue)
                    &&& *final(selection) matches Some(fs) && {
                        &&& fs.cursor_index == navigated(keys, s.cursor_index as int, s.choice_count as int)
                        &&& fs.choice_count == s.choice_count
                        &&& fs.choices == s.choices
                    }
                }
            },
        },
{
    let mut state = match selection.take() {
        None => return false,
        Some(s) => s,
    };
    intent.direction = None;
    if keys.confirm {
        let branch = copy_actions(&state.choices[state.cursor_index].actions);
        match queue {
            Some(q) => {
                proof {
                    if q.actions@.len() > 0 {
                        crate::queue::lemma_view_actions_drop_first(q.actions@);
                    }
                }
                q.actions.pop_front();
                inject_front(&mut q.actions, branch);
                q.waiting_for = WaitingFor::Nothing;
            },
            None => {},
        }
        return true;
    }
    if keys.up {
        state.cursor_index = (state.cursor_index + (state.choice_count - 1)) % state.choice_count;
    }
    if keys.down {
        state.cursor_index = (state.cursor_index + 1) % state.choice_count;
    }
    *selection = Some(state);
    false
}

/// Whether the cursor marker of choice `index` shows: only the focused
/// choice's does.
pub fn cursor_visible(state: &SelectionState, index: usize) -> (r: bool)
    ensures
        r == (index == state.cursor_index),
{
    index == state.cursor_index
}

/// A prompt whose count matches its choices and whose cursor is on a
/// choice accepts every frame of keys (given that its cursor arithmetic
/// fits in `usize`), and navigation leaves the cursor on a choice (whose
/// marker is then the one that shows, see `cursor_visible`).
pub proof fn law_selection_cursor_stays(s: SelectionState, keys: SelectionKeys)
    requires
        s.choice_count == s.choices@.len(),
        s.choice_count >= 1,
        s.cursor_index < s.choice_count,
        s.cursor_index + s.choice_count - 1 <= usize::MAX,
    ensures
        selection_input_ok(s, keys),
        0 <= navigated(keys, s.cursor_index as int, s.choice_count as int) < s.choice_count,
{
    law_cursor_wraps(s.cursor_index as int, s.choice_count as int);
    let u = if keys.up { cursor_up(s.cursor_index as int, s.choice_count as int) } else { s.cursor_index as int };
    law_cursor_wraps(u, s.choice_count as int);
}

/// Moving the cursor stays on a choice, and down undoes up (and up undoes
/// down), wrapping at both ends.
pub proof fn law_cursor_wraps(i: int, n: int)
    requires
        0 <= i < n,
    ensures
        0 <= cursor_up(i, n) < n,
        0 <= cursor_down(i, n) < n,
        cursor_down(cursor_up(i, n), n) == i,
        cursor_up(cursor_down(i, n), n) == i,
        i == 0 ==> cursor_up(i, n) == n - 1,
        i == n - 1 ==> cursor_down(i, n) == 0,
{
    if i == 0 {
        assert((n - 1) % n == n - 1) by (nonlinear_arith)
            requires n > 0;
    } else {
        assert((i + n - 1) % n == i - 1) by (nonlinear_arith)
            requires 0 < i < n;
    }
    if i == n - 1 {
        assert(n % n == 0) by (nonlinear_arith)
            requires n > 0;
    } else {
        assert((i + 1) % n == i + 1) by (nonlinear_arith)
            requires 0 <= i, i + 1 < n;
    }
    let u = cursor_up(i, n);
    let d = cursor_down(i, n);
    if u == n - 1 {
        assert(n % n == 0) by (nonlinear_arith)
            requires n > 0;
    } else {
        assert((u + 1) % n == u + 1) by (nonlinear_arith)
            requires 0 <= u, u + 1 < n;
    }
    if d == 0 {
        assert((n - 1) % n == n - 1) by (nonlinear_arith)
            requires n > 0;
    } else {
        assert((d + n - 1) % n == d - 1) by (nonlinear_arith)
            requires 0 < d < n;
    }
}

} // verus!
