//! Patrol movement of NPCs: the step a looping NPC takes toward its current
//! waypoint, and whether a patrol step from its tile can be taken.
use vstd::prelude::*;
use crate::condition::flag_view;
use crate::map::{
    facing_from_step, is_tile_blocked, lemma_move_keeps_tiles_distinct, tile_distance, tiles_distinct, npc_active, npc_state_ok, occupied_by_other, opacity_blocked,
    FacingDirection, MapData, NpcPositions,
};
use crate::strmap::StrMap;

verus! {

/// The step toward waypoint `(tx, ty)` from `(x, y)`: horizontal first,
/// none when the NPC already stands on the waypoint.
pub open spec fn waypoint_step(x: u32, y: u32, tx: u32, ty: u32) -> Option<(int, int)> {
    if tx > x {
        Some((1, 0))
    } else if tx < x {
        Some((-1, 0))
    } else if ty > y {
        Some((0, 1))
    } else if ty < y {
        Some((0, -1))
    } else {
        None
    }
}

/// One step toward the waypoint (see `waypoint_step`); `None` means the
/// waypoint is reached and the patrol moves on to the next one.
pub fn step_toward_waypoint(x: u32, y: u32, tx: u32, ty: u32) -> (r: Option<(i64, i64)>)
    ensures
        match r {
            Some((dx, dy)) => waypoint_step(x, y, tx, ty) == Some((dx as int, dy as int)),
            None => waypoint_step(x, y, tx, ty) is None,
        },
{
    if tx > x {
        Some((1, 0))
    } else if tx < x {
        Some((-1, 0))
    } else if ty > y {
        Some((0, 1))
    } else if ty < y {
        Some((0, -1))
    } else {
        None
    }
}

/// A patrolling NPC moves only while no dialog or event sequence runs, and
/// only while it is active (its required state, if any, holds).
pub open spec fn may_patrol(
    map: MapData,
    npc_index: int,
    flags: Map<Seq<char>, Seq<char>>,
    dialog_active: bool,
    queue_active: bool,
) -> bool {
    &&& !dialog_active
    &&& !queue_active
    &&& 0 <= npc_index < map.npcs@.len()
    &&& npc_state_ok(map.npcs@[npc_index], flags)
}

/// Whether the NPC at `npc_index` patrols this frame (see `may_patrol`).
pub fn npc_may_patrol(
    map: &MapData,
    npc_index: usize,
    flags: &StrMap<String>,
    dialog_active: bool,
    queue_active: bool,
) -> (r: bool)
    ensures
        r == may_patrol(*map, npc_index as int, flag_view(flags.map()), dialog_active, queue_active),
{
    if dialog_active || queue_active || npc_index >= map.npcs.len() {
        return false;
    }
    npc_active(&map.npcs[npc_index], flags)
}

/// Where a patrol step by `(dx, dy)` from `(x, y)` ends: nowhere when the
/// tile is off the map, opaque on any layer, taken by another NPC or by a
/// player.
pub open spec fn patrol_destination(
    map: MapData,
    positions: Seq<(u32, u32, u32)>,
    npc_index: int,
    x: u32,
    y: u32,
    dx: int,
    dy: int,
    players: Seq<(u32, u32)>,
) -> Option<(u32, u32)> {
    let nx = x + dx;
    let ny = y + dy;
    if nx < 0 || ny < 0 || nx >= map.width || ny >= map.height {
        None
    } else if opacity_blocked(map.layers@, nx, ny, None) {
        None
    } else if occupied_by_other(positions, nx as u32, ny as u32, npc_index) {
        None
    } else if players.contains((nx as u32, ny as u32)) {
        None
    } else {
        Some((nx as u32, ny as u32))
    }
}

fn player_on(players: &Vec<(u32, u32)>, x: u32, y: u32) -> (r: bool)
    ensures
        r == players@.contains((x, y)),
{
    let mut i: usize = 0;
    while i < players.len()
        invariant
            i <= players@.len(),
            forall|k: int| 0 <= k < i ==> #[trigger] players@[k] != (x, y),
        decreases players@.len() - i,
    {
        if players[i].0 == x && players[i].1 == y {
            assert(players@[i as int] == (x, y));
            return true;
        }
        i = i + 1;
    }
    false
}

/// Starts a patrol step by `(dx, dy)`, one tile up, down, left or right
/// (see `patrol_destination`): when the destination is free the NPC's
/// recorded position moves there at once, keeping its elevation, and the
/// NPC faces the way it goes.
pub fn plan_patrol_move(
    map: &MapData,
    npc_positions: &mut NpcPositions,
    npc_index: usize,
    x: u32,
    y: u32,
    dx: i64,
    dy: i64,
    players: &Vec<(u32, u32)>,
) -> (r: Option<(u32, u32, FacingDirection)>)
    requires
        (dx == 0 && (dy == 1 || dy == -1)) || (dy == 0 && (dx == 1 || dx == -1)),
    ensures
        match patrol_destination(*map, old(npc_positions).positions@, npc_index as int, x, y, dx as int, dy as int, players@) {
            None => {
                &&& r is None
                &&& final(npc_positions).positions@ == old(npc_positions).positions@
            },
            Some((nx, ny)) => {
                &&& r == Some((nx, ny, facing_from_step_spec(dx, dy)))
                &&& final(npc_positions).positions@ == if npc_index < old(npc_positions).positions@.len() {
                    old(npc_positions).positions@.update(
                        npc_index as int,
                        (nx, ny, old(npc_positions).positions@[npc_index as int].2),
                    )
                } else {
                    old(npc_positions).positions@
                }
            },
        },
{
    let nx = x as i64 + dx;
    let ny = y as i64 + dy;
    if nx < 0 || ny < 0 || nx >= map.width as i64 || ny >= map.height as i64 {
        return None;
    }
    let nx = nx as u32;
    let ny = ny as u32;
    if is_tile_blocked(map, nx, ny, None, None) {
        return None;
    }
    if npc_positions.is_occupied_by_other(nx, ny, npc_index) {
        return None;
    }
    if player_on(players, nx, ny) {
        return None;
    }
    if npc_index < npc_positions.positions.len() {
        let e = npc_positions.positions[npc_index].2;
        npc_positions.positions.set(npc_index, (nx, ny, e));
    }
    Some((nx, ny, facing_from_step(dx, dy)))
}

/// The facing of a step: horizontal movement wins, then down, else up.
pub open spec fn facing_from_step_spec(dx: i64, dy: i64) -> FacingDirection {
    if dx > 0 {
        FacingDirection::Right
    } else if dx < 0 {
        FacingDirection::Left
    } else if dy > 0 {
        FacingDirection::Down
    } else {
        FacingDirection::Up
    }
}

/// A patrol step goes one tile up, down, left or right, onto the map, to a
/// tile that is not opaque, held by no other NPC and not a player's; the
/// NPCs therefore stay on distinct tiles.
pub proof fn law_patrol_step_safe(
    map: MapData,
    positions: Seq<(u32, u32, u32)>,
    i: int,
    x: u32,
    y: u32,
    dx: int,
    dy: int,
    players: Seq<(u32, u32)>,
)
    requires
        (dx == 0 && (dy == 1 || dy == -1)) || (dy == 0 && (dx == 1 || dx == -1)),
        0 <= i < positions.len(),
        tiles_distinct(positions),
    ensures
        patrol_destination(map, positions, i, x, y, dx, dy, players) matches Some((nx, ny)) ==> {
            &&& nx == x + dx && ny == y + dy
            &&& nx < map.width && ny < map.height
            &&& !opacity_blocked(map.layers@, nx as int, ny as int, None)
            &&& !players.contains((nx, ny))
            &&& tiles_distinct(positions.update(i, (nx, ny, positions[i].2)))
        },
{
    if let Some((nx, ny)) = patrol_destination(map, positions, i, x, y, dx, dy, players) {
        lemma_move_keeps_tiles_distinct(positions, i, nx, ny, positions[i].2);
    }
}

/// A looping NPC reaches its waypoint: each step toward it brings it one
/// tile closer, and there is no step exactly when it stands on it.
pub proof fn law_waypoint_step_progress(x: u32, y: u32, tx: u32, ty: u32)
    ensures
        waypoint_step(x, y, tx, ty) is None <==> (x == tx && y == ty),
        waypoint_step(x, y, tx, ty) matches Some((dx, dy)) ==> tile_distance(x + dx, y + dy, tx as int, ty as int)
            == tile_distance(x as int, y as int, tx as int, ty as int) - 1,
{
}

} // verus!
