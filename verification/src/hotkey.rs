//! Project hotkeys: a pressed key bound in the project starts the binding's
//! event sequence while the game is idle.
use vstd::prelude::*;
use crate::actions::{copy_to_queue, view_actions, ActionView, EventAction};
use crate::queue::{ActionQueue, WaitingFor};
use crate::text::str_eq;

verus! {

/// A key (by its key-code name, such as `KeyZ` or `Space`) and the event
/// sequence it starts.
pub struct HotkeyBinding {
    pub key_code: String,
    pub event_actions: Vec<EventAction>,
}

pub open spec fn binding_keys(bindings: Seq<HotkeyBinding>) -> Seq<Seq<char>> {
    bindings.map_values(|b: HotkeyBinding| b.key_code@)
}

pub open spec fn key_names(pressed: Seq<String>) -> Seq<Seq<char>> {
    pressed.map_values(|s: String| s@)
}

/// The first binding for `key`.
pub open spec fn first_binding(keys: Seq<Seq<char>>, key: Seq<char>) -> Option<int> {
    if exists|i: int| 0 <= i < keys.len() && keys[i] == key {
        Some(choose|i: int| 0 <= i < keys.len() && keys[i] == key && forall|k: int| 0 <= k < i ==> keys[k] != key)
    } else {
        None
    }
}

/// The binding that answers the pressed keys: the first binding of the
/// first pressed key that has one.
pub open spec fn hotkey_match(keys: Seq<Seq<char>>, pressed: Seq<Seq<char>>) -> Option<int>
    decreases pressed.len(),
{
    if pressed.len() == 0 {
        None
    } else {
        match first_binding(keys, pressed[0]) {
            Some(i) => Some(i),
            None => hotkey_match(keys, pressed.drop_first()),
        }
    }
}

fn find_binding(bindings: &Vec<HotkeyBinding>, key: &str) -> (r: Option<usize>)
    ensures
        match r {
            Some(i) => i < bindings@.len() && first_binding(binding_keys(bindings@), key@) == Some(i as int),
            None => first_binding(binding_keys(bindings@), key@) is None,
        },
{
    let ghost keys = binding_keys(bindings@);
    let mut i: usize = 0;
    while i < bindings.len()
        invariant
            i <= bindings@.len(),
            keys == binding_keys(bindings@),
            forall|k: int| 0 <= k < i ==> keys[k] != key@,
        decreases bindings@.len() - i,
    {
        if str_eq(bindings[i].key_code.as_str(), key) {
            proof {
                assert(keys[i as int] == key@);
                let j = choose|j: int| 0 <= j < keys.len() && keys[j] == key@ && forall|k: int| 0 <= k < j ==> keys[k] != key@;
                if j < i {
                    assert(keys[j] != key@);
                }
                if i < j {
                    assert(keys[i as int] != key@);
                }
            }
            return Some(i);
        }
        i = i + 1;
    }
    None
}

/// The keys just pressed this frame (by key-code name, in the order the
/// input reports them) start the sequence of the matching binding (see
/// `hotkey_match`) when no sequence, dialog or selection is active. The
/// first match decides even when its binding has no actions, in which case
/// nothing starts.
pub fn hotkey_input_system(
    blocked: bool,
    bindings: &Vec<HotkeyBinding>,
    pressed: &Vec<String>,
) -> (r: Option<ActionQueue>)
    ensures
        match (if blocked { None } else { hotkey_match(binding_keys(bindings@), key_names(pressed@)) }) {
            Some(i) => if bindings@[i].event_actions@.len() == 0 {
                r is None
            } else {
                r matches Some(q) && view_actions(q.actions@) == view_actions(bindings@[i].event_actions@)
                    && q.waiting_for == WaitingFor::Nothing
            },
            None => r is None,
        },
{
    if blocked || bindings.len() == 0 {
        proof {
            if !blocked {
                let keys = binding_keys(bindings@);
                lemma_no_bindings(keys, key_names(pressed@));
            }
        }
        return None;
    }
    let ghost keys = binding_keys(bindings@);
    let ghost all = key_names(pressed@);
    let mut j: usize = 0;
    assert(all.skip(0) =~= all);
    while j < pressed.len()
        invariant
            !blocked,
            j <= pressed@.len(),
            keys == binding_keys(bindings@),
            all == key_names(pressed@),
            hotkey_match(keys, all) == hotkey_match(keys, all.skip(j as int)),
        decreases pressed@.len() - j,
    {
        assert(all.skip(j as int)[0] == pressed@[j as int]@);
        assert(all.skip(j as int).drop_first() =~= all.skip(j + 1));
        match find_binding(bindings, pressed[j].as_str()) {
            Some(i) => {
                assert(hotkey_match(keys, all.skip(j as int)) == Some(i as int));
                if bindings[i].event_actions.len() == 0 {
                    return None;
                }
                let actions = copy_to_queue(&bindings[i].event_actions);
                let q = ActionQueue { actions, waiting_for: WaitingFor::Nothing };
                assert(view_actions(q.actions@) == view_actions(bindings@[i as int].event_actions@));
                return Some(q);
            },
            None => {},
        }
        j = j + 1;
    }
    assert(all.skip(j as int).len() == 0);
    None
}

proof fn lemma_no_bindings(keys: Seq<Seq<char>>, pressed: Seq<Seq<char>>)
    requires
        keys.len() == 0,
    ensures
        hotkey_match(keys, pressed) is None,
    decreases pressed.len(),
{
    if pressed.len() > 0 {
        lemma_no_bindings(keys, pressed.drop_first());
    }
}

} // verus!
