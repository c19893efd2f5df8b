//! Map data as the game logic reads it: tile attributes per layer, NPC
//! positions, collision rules and the event triggers of a tile.
use vstd::prelude::*;
use std::collections::VecDeque;
use crate::actions::{
    copy_to_queue, entity_target_view, lemma_view_actions_concat, view_actions, ActionView, EntityTarget,
    EntityTargetView, EventAction,
};
use crate::condition::{condition_holds, flag_view, BranchCondition};
use crate::queue::{ActionQueue, WaitingFor};
use crate::strmap::StrMap;

verus! {

/// A set of actions guarded by a condition on the game flags.
pub struct ConditionalTrigger {
    pub condition: BranchCondition,
    pub actions: Vec<EventAction>,
}

/// The attributes of one tile of one layer.
pub struct TileAttributes {
    /// The tile blocks movement.
    pub opacity: bool,
    /// The elevation the tile belongs to.
    pub elevation: u32,
    /// Stepping on the tile moves the player to this elevation.
    pub target_elevation: Option<u32>,
    /// Actions run when the player steps on the tile and no conditional
    /// trigger matches.
    pub event_trigger: Vec<EventAction>,
    /// Checked in order; the first whose condition holds runs instead.
    pub conditional_triggers: Vec<ConditionalTrigger>,
}

/// One layer of a map: tile attributes indexed by row, then column.
pub struct MapLayer {
    pub cells: Vec<Vec<TileAttributes>>,
}

/// Facing of a character sprite.
#[derive(Debug, Clone, Copy, PartialEq, Eq, Structural)]
pub enum FacingDirection {
    Up,
    Down,
    Left,
    Right,
}

/// How the player sets off an NPC's event.
#[derive(Debug, Clone, Copy, PartialEq, Eq, Structural)]
pub enum TriggerMode {
    /// By facing the NPC and pressing the action key.
    Interaction,
    /// By walking into the NPC.
    Collision,
}

/// An NPC placed on a map.
pub struct NpcInstance {
    pub spritesheet_id: String,
    /// The tile the NPC is placed on, and its elevation.
    pub x: u32,
    pub y: u32,
    pub elevation: u32,
    pub trigger_mode: TriggerMode,
    pub event_triggers: Vec<EventAction>,
    /// The NPC is active only while this flag has this value.
    pub required_state: Option<(String, String)>,
}

/// A map: its size in tiles, its layers and its NPCs.
pub struct MapData {
    pub width: u32,
    pub height: u32,
    pub layers: Vec<MapLayer>,
    pub npcs: Vec<NpcInstance>,
}

/// The attributes at column `x`, row `y` of a layer, if the layer has them.
pub open spec fn cell(layer: MapLayer, x: int, y: int) -> Option<TileAttributes> {
    if 0 <= y < layer.cells@.len() && 0 <= x < layer.cells@[y]@.len() {
        Some(layer.cells@[y]@[x])
    } else {
        None
    }
}

/// Looks up the attributes at `(x, y)` of a layer.
pub fn cell_at(layer: &MapLayer, x: u32, y: u32) -> (r: Option<&TileAttributes>)
    ensures
        match r {
            Some(a) => cell(*layer, x as int, y as int) == Some(*a),
            None => cell(*layer, x as int, y as int) is None,
        },
{
    let yi = y as usize;
    let xi = x as usize;
    if yi < layer.cells.len() && xi < layer.cells[yi].len() {
        Some(&layer.cells[yi][xi])
    } else {
        None
    }
}

// ─── NPC positions ───────────────────────────────────────────────────────────

/// Where each NPC of the active map stands: `(x, y, elevation)` by NPC index.
pub struct NpcPositions {
    pub positions: Vec<(u32, u32, u32)>,
}

pub open spec fn occupied(p: Seq<(u32, u32, u32)>, x: u32, y: u32) -> bool {
    exists|i: int| 0 <= i < p.len() && (#[trigger] p[i]).0 == x && p[i].1 == y
}

pub open spec fn occupied_by_other(p: Seq<(u32, u32, u32)>, x: u32, y: u32, exclude: int) -> bool {
    exists|i: int| 0 <= i < p.len() && i != exclude && (#[trigger] p[i]).0 == x && p[i].1 == y
}

/// No two NPCs stand on the same tile.
pub open spec fn tiles_distinct(p: Seq<(u32, u32, u32)>) -> bool {
    forall|j: int, k: int|
        0 <= j < p.len() && 0 <= k < p.len() && j != k ==> (#[trigger] p[j]).0 != (#[trigger] p[k]).0 || p[j].1
            != p[k].1
}

/// Moving NPC `i` to a tile no other NPC holds keeps the NPCs on distinct
/// tiles.
pub proof fn lemma_move_keeps_tiles_distinct(p: Seq<(u32, u32, u32)>, i: int, x: u32, y: u32, e: u32)
    requires
        0 <= i < p.len(),
        tiles_distinct(p),
        !occupied_by_other(p, x, y, i),
    ensures
        tiles_distinct(p.update(i, (x, y, e))),
{
    let q = p.update(i, (x, y, e));
    assert forall|j: int, k: int| 0 <= j < q.len() && 0 <= k < q.len() && j != k implies (#[trigger] q[j]).0
        != (#[trigger] q[k]).0 || q[j].1 != q[k].1 by {
        if j == i {
            assert(q[k] == p[k]);
        } else if k == i {
            assert(q[j] == p[j]);
        } else {
            assert(q[j] == p[j] && q[k] == p[k]);
        }
    }
}

pub open spec fn occupied_at_elevation(p: Seq<(u32, u32, u32)>, x: u32, y: u32, e: u32) -> bool {
    exists|i: int| 0 <= i < p.len() && (#[trigger] p[i]).0 == x && p[i].1 == y && p[i].2 == e
}

impl NpcPositions {
    pub fn new() -> (r: Self)
        ensures
            r.positions@.len() == 0,
    {
        NpcPositions { positions: Vec::new() }
    }

    /// Whether any NPC stands on `(x, y)`.
    pub fn is_occupied(&self, x: u32, y: u32) -> (r: bool)
        ensures
            r == occupied(self.positions@, x, y),
    {
        let mut i: usize = 0;
        while i < self.positions.len()
            invariant
                i <= self.positions@.len(),
                forall|k: int| 0 <= k < i ==> !((#[trigger] self.positions@[k]).0 == x && self.positions@[k].1 == y),
            decreases self.positions@.len() - i,
        {
            let (px, py, _) = self.positions[i];
            if px == x && py == y {
                return true;
            }
            i = i + 1;
        }
        false
    }

    /// Whether an NPC other than the one at index `exclude_index` stands on
    /// `(x, y)`.
    pub fn is_occupied_by_other(&self, x: u32, y: u32, exclude_index: usize) -> (r: bool)
        ensures
            r == occupied_by_other(self.positions@, x, y, exclude_index as int),
    {
        let mut i: usize = 0;
        while i < self.positions.len()
            invariant
                i <= self.positions@.len(),
                forall|k: int|
                    0 <= k < i ==> !(k != exclude_index && (#[trigger] self.positions@[k]).0 == x
                        && self.positions@[k].1 == y),
            decreases self.positions@.len() - i,
        {
            let (px, py, _) = self.positions[i];
            if i != exclude_index && px == x && py == y {
                return true;
            }
            i = i + 1;
        }
        false
    }

    /// The first NPC that stands on `(x, y)` at elevation `elevation`.
    pub fn find_at_elevation(&self, x: u32, y: u32, elevation: u32) -> (r: Option<usize>)
        ensures
            match r {
                Some(i) => {
                    &&& i < self.positions@.len()
                    &&& self.positions@[i as int] == (x, y, elevation)
                    &&& forall|k: int| 0 <= k < i ==> #[trigger] self.positions@[k] != (x, y, elevation)
                },
                None => !occupied_at_elevation(self.positions@, x, y, elevation),
            },
    {
        let mut i: usize = 0;
        while i < self.positions.len()
            invariant
                i <= self.positions@.len(),
                forall|k: int| 0 <= k < i ==> #[trigger] self.positions@[k] != (x, y, elevation),
            decreases self.positions@.len() - i,
        {
            let (px, py, pe) = self.positions[i];
            if px == x && py == y && pe == elevation {
                return Some(i);
            }
            i = i + 1;
        }
        proof {
            assert forall|k: int| 0 <= k < self.positions@.len() implies !((#[trigger] self.positions@[k]).0
                == x && self.positions@[k].1 == y && self.positions@[k].2 == elevation) by {
                assert(self.positions@[k] != (x, y, elevation));
            }
        }
        None
    }

    /// Whether an NPC stands on `(x, y)` at elevation `elevation`.
    pub fn is_occupied_at_elevation(&self, x: u32, y: u32, elevation: u32) -> (r: bool)
        ensures
            r == occupied_at_elevation(self.positions@, x, y, elevation),
    {
        self.find_at_elevation(x, y, elevation).is_some()
    }
}

/// The NPC positions of a newly entered map: each NPC at its placed tile
/// and elevation, in NPC order; none when the map does not exist.
pub fn init_npc_positions(map: Option<&MapData>, npc_positions: &mut NpcPositions)
    ensures
        final(npc_positions).positions@ == match map {
            Some(m) => m.npcs@.map_values(|n: NpcInstance| (n.x, n.y, n.elevation)),
            None => Seq::<(u32, u32, u32)>::empty(),
        },
{
    let mut positions: Vec<(u32, u32, u32)> = Vec::new();
    if let Some(m) = map {
        let mut i: usize = 0;
        while i < m.npcs.len()
            invariant
                i <= m.npcs@.len(),
                positions@ == m.npcs@.take(i as int).map_values(|n: NpcInstance| (n.x, n.y, n.elevation)),
            decreases m.npcs@.len() - i,
        {
            let n = &m.npcs[i];
            positions.push((n.x, n.y, n.elevation));
            assert(m.npcs@.take(i + 1) =~= m.npcs@.take(i as int).push(m.npcs@[i as int]));
            i = i + 1;
        }
        assert(m.npcs@.take(m.npcs@.len() as int) =~= m.npcs@);
    }
    npc_positions.positions = positions;
}

// ─── Collision ───────────────────────────────────────────────────────────────

/// An opaque tile blocks at its own elevation, or everywhere when no
/// elevation filter is given.
pub open spec fn opacity_blocks(a: TileAttributes, elevation: Option<u32>) -> bool {
    a.opacity && match elevation {
        Some(e) => a.elevation == e,
        None => true,
    }
}

/// The layer has an opaque tile at `(x, y)` that blocks at `elevation`.
pub open spec fn cell_blocks(layer: MapLayer, x: int, y: int, elevation: Option<u32>) -> bool {
    match cell(layer, x, y) {
        Some(a) => opacity_blocks(a, elevation),
        None => false,
    }
}

pub open spec fn opacity_blocked(layers: Seq<MapLayer>, x: int, y: int, elevation: Option<u32>) -> bool {
    exists|i: int| 0 <= i < layers.len() && #[trigger] cell_blocks(layers[i], x, y, elevation)
}

pub open spec fn npc_blocked(positions: Option<Seq<(u32, u32, u32)>>, x: u32, y: u32, elevation: Option<u32>) -> bool {
    match positions {
        Some(p) => match elevation {
            Some(e) => occupied_at_elevation(p, x, y, e),
            None => occupied(p, x, y),
        },
        None => false,
    }
}

pub open spec fn opt_positions(p: Option<&NpcPositions>) -> Option<Seq<(u32, u32, u32)>> {
    match p {
        Some(n) => Some(n.positions@),
        None => None,
    }
}

/// Whether `(x, y)` is blocked: an opaque tile of any layer at the given
/// elevation (any elevation when `None`), or, when positions are given, an
/// NPC standing there (at that elevation, when given).
pub fn is_tile_blocked(
    map: &MapData,
    x: u32,
    y: u32,
    player_elevation: Option<u32>,
    npc_positions: Option<&NpcPositions>,
) -> (r: bool)
    ensures
        r == (opacity_blocked(map.layers@, x as int, y as int, player_elevation) || npc_blocked(
            opt_positions(npc_positions),
            x,
            y,
            player_elevation,
        )),
{
    let mut blocked = false;
    let mut i: usize = 0;
    while i < map.layers.len()
        invariant
            i <= map.layers@.len(),
            blocked == exists|k: int|
                0 <= k < i && #[trigger] cell_blocks(map.layers@[k], x as int, y as int, player_elevation),
        decreases map.layers@.len() - i,
    {
        let hit = match cell_at(&map.layers[i], x, y) {
            Some(attrs) => attrs.opacity && match player_elevation {
                Some(e) => attrs.elevation == e,
                None => true,
            },
            None => false,
        };
        assert(hit == cell_blocks(map.layers@[i as int], x as int, y as int, player_elevation));
        blocked = blocked || hit;
        i = i + 1;
    }
    let npc = match npc_positions {
        Some(p) => match player_elevation {
            Some(e) => p.is_occupied_at_elevation(x, y, e),
            None => p.is_occupied(x, y),
        },
        None => false,
    };
    blocked || npc
}

// ─── Tile triggers ───────────────────────────────────────────────────────────

/// The first of the first `n` conditional triggers whose condition holds.
pub open spec fn first_match(cts: Seq<ConditionalTrigger>, flags: Map<Seq<char>, Seq<char>>, n: nat) -> Option<int>
    decreases n,
{
    if n == 0 {
        None
    } else {
        match first_match(cts, flags, (n - 1) as nat) {
            Some(i) => Some(i),
            None => if condition_holds(flags, cts[n - 1].condition) {
                Some(n - 1)
            } else {
                None
            },
        }
    }
}

/// The actions a tile contributes: those of the first conditional trigger
/// that holds, else its default event trigger.
pub open spec fn tile_cell_actions(a: TileAttributes, flags: Map<Seq<char>, Seq<char>>) -> Seq<ActionView> {
    match first_match(a.conditional_triggers@, flags, a.conditional_triggers@.len()) {
        Some(i) => view_actions(a.conditional_triggers@[i].actions@),
        None => view_actions(a.event_trigger@),
    }
}

/// The actions of all layers at `(x, y)`, bottom layer first.
pub open spec fn tile_actions(layers: Seq<MapLayer>, x: int, y: int, flags: Map<Seq<char>, Seq<char>>) -> Seq<
    ActionView,
>
    decreases layers.len(),
{
    if layers.len() == 0 {
        Seq::empty()
    } else {
        tile_actions(layers.drop_last(), x, y, flags) + match cell(layers.last(), x, y) {
            Some(a) => tile_cell_actions(a, flags),
            None => Seq::empty(),
        }
    }
}

/// The elevation that the first layer with one at `(x, y)` sets.
pub open spec fn landing_target(layers: Seq<MapLayer>, x: int, y: int) -> Option<u32>
    decreases layers.len(),
{
    if layers.len() == 0 {
        None
    } else {
        match cell(layers[0], x, y) {
            Some(a) if a.target_elevation is Some => a.target_elevation,
            _ => landing_target(layers.drop_first(), x, y),
        }
    }
}

fn cell_actions(attrs: &TileAttributes, flags: &StrMap<String>) -> (r: VecDeque<EventAction>)
    ensures
        view_actions(r@) == tile_cell_actions(*attrs, flag_view(flags.map())),
{
    let ghost fv = flag_view(flags.map());
    let cts = &attrs.conditional_triggers;
    let mut i: usize = 0;
    while i < cts.len()
        invariant
            i <= cts@.len(),
            cts@ == attrs.conditional_triggers@,
            fv == flag_view(flags.map()),
            first_match(cts@, fv, i as nat) is None,
        decreases cts@.len() - i,
    {
        if cts[i].condition.evaluate(flags) {
            proof {
                assert(first_match(cts@, fv, (i + 1) as nat) == Some(i as int));
                lemma_first_match_stable(cts@, fv, (i + 1) as nat, cts@.len());
            }
            return copy_to_queue(&cts[i].actions);
        }
        i = i + 1;
    }
    copy_to_queue(&attrs.event_trigger)
}

/// A match among the first `n` triggers stays the first match among more.
pub proof fn lemma_first_match_stable(cts: Seq<ConditionalTrigger>, flags: Map<Seq<char>, Seq<char>>, n: nat, m: nat)
    requires
        n <= m,
        first_match(cts, flags, n) is Some,
    ensures
        first_match(cts, flags, m) == first_match(cts, flags, n),
    decreases m - n,
{
    if n < m {
        lemma_first_match_stable(cts, flags, n, (m - 1) as nat);
    }
}

/// The first match wins: it is a trigger whose condition holds and none
/// before it holds; with no match, no trigger's condition holds (and the
/// tile's default trigger runs).
pub proof fn law_first_match_wins(cts: Seq<ConditionalTrigger>, flags: Map<Seq<char>, Seq<char>>, n: nat)
    requires
        n <= cts.len(),
    ensures
        match first_match(cts, flags, n) {
            Some(i) => {
                &&& 0 <= i < n
                &&& condition_holds(flags, cts[i].condition)
                &&& forall|j: int| 0 <= j < i ==> !condition_holds(flags, #[trigger] cts[j].condition)
            },
            None => forall|j: int| 0 <= j < n ==> !condition_holds(flags, #[trigger] cts[j].condition),
        },
    decreases n,
{
    if n > 0 {
        law_first_match_wins(cts, flags, (n - 1) as nat);
    }
}

/// Collects the actions that stepping on `(x, y)` sets off, layer by layer.
pub fn collect_tile_actions(map: &MapData, x: u32, y: u32, flags: &StrMap<String>) -> (r: VecDeque<EventAction>)
    ensures
        view_actions(r@) == tile_actions(map.layers@, x as int, y as int, flag_view(flags.map())),
{
    let ghost fv = flag_view(flags.map());
    let mut actions: VecDeque<EventAction> = VecDeque::new();
    let mut i: usize = 0;
    while i < map.layers.len()
        invariant
            i <= map.layers@.len(),
            fv == flag_view(flags.map()),
            view_actions(actions@) == tile_actions(map.layers@.take(i as int), x as int, y as int, fv),
        decreases map.layers@.len() - i,
    {
        let ghost before = actions@;
        let ghost added: Seq<EventAction>;
        match cell_at(&map.layers[i], x, y) {
            Some(attrs) => {
                let mut more = cell_actions(attrs, flags);
                proof {
                    added = more@;
                }
                actions.append(&mut more);
            },
            None => {
                proof {
                    added = Seq::empty();
                }
                assert(actions@ =~= before + added);
            },
        }
        proof {
            lemma_view_actions_concat(before, added);
            assert(map.layers@.take(i + 1).drop_last() =~= map.layers@.take(i as int));
        }
        i = i + 1;
    }
    assert(map.layers@.take(map.layers@.len() as int) =~= map.layers@);
    actions
}

/// The elevation set by the first layer whose tile at `(x, y)` has one.
pub fn landing_elevation(map: &MapData, x: u32, y: u32) -> (r: Option<u32>)
    ensures
        r == landing_target(map.layers@, x as int, y as int),
{
    let mut i: usize = 0;
    assert(map.layers@.skip(0) =~= map.layers@);
    while i < map.layers.len()
        invariant
            i <= map.layers@.len(),
            landing_target(map.layers@, x as int, y as int) == landing_target(
                map.layers@.skip(i as int),
                x as int,
                y as int,
            ),
        decreases map.layers@.len() - i,
    {
        let ghost rest = map.layers@.skip(i as int);
        assert(rest[0] == map.layers@[i as int]);
        assert(rest.drop_first() =~= map.layers@.skip(i + 1));
        match cell_at(&map.layers[i], x, y) {
            Some(attrs) => {
                if attrs.target_elevation.is_some() {
                    return attrs.target_elevation;
                }
            },
            None => {},
        }
        i = i + 1;
    }
    None
}

/// What stepping onto a tile does.
pub struct TriggerCheck {
    /// The player's new elevation, if the tile sets one.
    pub new_elevation: Option<u32>,
    /// A new action sequence, if one starts.
    pub queue: Option<ActionQueue>,
}

/// The player arrived at `to` on the active map (`None` when there is no
/// active map). The first layer that sets an elevation there moves the
/// player to it. Unless a sequence is already in progress, the tile's
/// triggers of all layers, bottom first, form a new action sequence (none
/// when they are empty).
pub fn check_triggers(map: Option<&MapData>, to: (u32, u32), flags: &StrMap<String>, queue_active: bool) -> (r:
    TriggerCheck)
    ensures
        r.new_elevation == match map {
            Some(m) => landing_target(m.layers@, to.0 as int, to.1 as int),
            None => None,
        },
        match map {
            Some(m) => {
                let acts = tile_actions(m.layers@, to.0 as int, to.1 as int, flag_view(flags.map()));
                if queue_active || acts.len() == 0 {
                    r.queue is None
                } else {
                    r.queue matches Some(q) && view_actions(q.actions@) == acts && q.waiting_for
                        == WaitingFor::Nothing
                }
            },
            None => r.queue is None,
        },
{
    match map {
        None => TriggerCheck { new_elevation: None, queue: None },
        Some(m) => {
            let (x, y) = to;
            let new_elevation = landing_elevation(m, x, y);
            if queue_active {
                return TriggerCheck { new_elevation, queue: None };
            }
            let actions = collect_tile_actions(m, x, y, flags);
            if actions.len() == 0 {
                proof {
                    crate::actions::lemma_view_actions(actions@);
                }
                return TriggerCheck { new_elevation, queue: None };
            }
            proof {
                crate::actions::lemma_view_actions(actions@);
            }
            TriggerCheck {
                new_elevation,
                queue: Some(ActionQueue { actions, waiting_for: WaitingFor::Nothing }),
            }
        },
    }
}

// ─── Player movement ─────────────────────────────────────────────────────────

pub open spec fn facing_of(d: crate::input::Direction) -> FacingDirection {
    match d {
        crate::input::Direction::Up => FacingDirection::Up,
        crate::input::Direction::Down => FacingDirection::Down,
        crate::input::Direction::Left => FacingDirection::Left,
        crate::input::Direction::Right => FacingDirection::Right,
    }
}

/// The neighbouring tile in direction `d`, if it lies on a `w` by `h` map.
pub open spec fn step_target(x: int, y: int, d: crate::input::Direction, w: int, h: int) -> Option<(u32, u32)> {
    let (tx, ty) = match d {
        crate::input::Direction::Up => (x, y - 1),
        crate::input::Direction::Down => (x, y + 1),
        crate::input::Direction::Left => (x - 1, y),
        crate::input::Direction::Right => (x + 1, y),
    };
    if 0 <= tx < w && 0 <= ty < h {
        Some((tx as u32, ty as u32))
    } else {
        None
    }
}

/// The first index at which `t` occurs in `p`.
pub open spec fn first_index(p: Seq<(u32, u32, u32)>, t: (u32, u32, u32)) -> Option<int> {
    if exists|i: int| 0 <= i < p.len() && p[i] == t {
        Some(choose|i: int| 0 <= i < p.len() && p[i] == t && forall|k: int| 0 <= k < i ==> p[k] != t)
    } else {
        None
    }
}

/// The NPC has collision triggers to set off.
pub open spec fn collision_npc(map: MapData, i: int) -> bool {
    0 <= i < map.npcs@.len() && map.npcs@[i].trigger_mode == TriggerMode::Collision
        && map.npcs@[i].event_triggers@.len() > 0
}

/// What the player's movement input does this frame.
pub struct PlayerMovePlan {
    /// The facing the sprite turns to (it turns even when blocked).
    pub facing: Option<FacingDirection>,
    /// The tile the player starts moving to.
    pub target: Option<(u32, u32)>,
    /// The NPC walked into, when it has collision triggers.
    pub collision_npc: Option<usize>,
}

pub struct PlayerMoveView {
    pub facing: Option<FacingDirection>,
    pub target: Option<(u32, u32)>,
    pub collision_npc: Option<int>,
}

/// The movement plan: nothing while movement is blocked by a dialog,
/// without input, without a map, or while the player is mid-step.
/// Otherwise the player turns to the input direction and moves to the
/// neighbouring tile if it is on the map, not opaque at the player's
/// elevation and free of NPCs at that elevation; walking into such an NPC
/// reports it when it has collision triggers.
pub open spec fn player_move_plan(
    direction: Option<crate::input::Direction>,
    movement_blocked: bool,
    map: Option<MapData>,
    x: u32,
    y: u32,
    elevation: u32,
    animating: bool,
    positions: Seq<(u32, u32, u32)>,
) -> PlayerMoveView {
    let nothing = PlayerMoveView { facing: None, target: None, collision_npc: None };
    if movement_blocked || direction is None || map is None || animating {
        nothing
    } else {
        let d = direction->0;
        let m = map->0;
        let turned = PlayerMoveView { facing: Some(facing_of(d)), target: None, collision_npc: None };
        match step_target(x as int, y as int, d, m.width as int, m.height as int) {
            None => turned,
            Some((tx, ty)) => if opacity_blocked(m.layers@, tx as int, ty as int, Some(elevation)) {
                turned
            } else if occupied_at_elevation(positions, tx, ty, elevation) {
                let i = first_index(positions, (tx, ty, elevation))->0;
                PlayerMoveView {
                    collision_npc: if collision_npc(m, i) {
                        Some(i)
                    } else {
                        None
                    },
                    ..turned
                }
            } else {
                PlayerMoveView { target: Some((tx, ty)), ..turned }
            },
        }
    }
}

/// A step moves to the neighbouring tile in the input direction: left
/// lowers x by one, right raises it, up lowers y by one, down raises it,
/// the other coordinate staying. There is a target exactly when that tile
/// lies on the map.
pub proof fn law_step_target_neighbour(x: u32, y: u32, d: crate::input::Direction, w: u32, h: u32)
    ensures
        ({
            let (nx, ny): (int, int) = match d {
                crate::input::Direction::Left => (x - 1, y as int),
                crate::input::Direction::Right => (x + 1, y as int),
                crate::input::Direction::Up => (x as int, y - 1),
                crate::input::Direction::Down => (x as int, y + 1),
            };
            match step_target(x as int, y as int, d, w as int, h as int) {
                Some((tx, ty)) => tx < w && ty < h && tx as int == nx && ty as int == ny,
                None => !(0 <= nx < w && 0 <= ny < h),
            }
        }),
        step_target(x as int, y as int, d, w as int, h as int) matches Some((tx, ty)) ==> match d {
            crate::input::Direction::Left => tx + 1 == x && ty == y,
            crate::input::Direction::Right => tx == x + 1 && ty == y,
            crate::input::Direction::Up => tx == x && ty + 1 == y,
            crate::input::Direction::Down => tx == x && ty == y + 1,
        },
{
}

/// The player only ever moves to the neighbouring tile in the input
/// direction, on the map, and turns to face that direction.
pub proof fn law_player_moves_to_neighbour(
    direction: Option<crate::input::Direction>,
    movement_blocked: bool,
    map: Option<MapData>,
    x: u32,
    y: u32,
    elevation: u32,
    animating: bool,
    positions: Seq<(u32, u32, u32)>,
)
    ensures
        ({
            let p = player_move_plan(direction, movement_blocked, map, x, y, elevation, animating, positions);
            &&& p.target matches Some((tx, ty)) ==> {
                &&& direction is Some
                &&& map is Some
                &&& tx < map->0.width && ty < map->0.height
                &&& match direction->0 {
                    crate::input::Direction::Left => tx + 1 == x && ty == y,
                    crate::input::Direction::Right => tx == x + 1 && ty == y,
                    crate::input::Direction::Up => tx == x && ty + 1 == y,
                    crate::input::Direction::Down => tx == x && ty == y + 1,
                }
            }
            &&& p.facing matches Some(f) ==> {
                &&& direction is Some
                &&& match direction->0 {
                    crate::input::Direction::Left => f == FacingDirection::Left,
                    crate::input::Direction::Right => f == FacingDirection::Right,
                    crate::input::Direction::Up => f == FacingDirection::Up,
                    crate::input::Direction::Down => f == FacingDirection::Down,
                }
            }
        }),
{
    if let (Some(d), Some(m)) = (direction, map) {
        law_step_target_neighbour(x, y, d, m.width, m.height);
    }
}

pub open spec fn opt_map(m: Option<&MapData>) -> Option<MapData> {
    match m {
        Some(x) => Some(*x),
        None => None,
    }
}

pub open spec fn opt_usize(v: Option<usize>) -> Option<int> {
    match v {
        Some(i) => Some(i as int),
        None => None,
    }
}

/// Plans the player's movement for this frame (see `player_move_plan`).
pub fn player_movement(
    direction: Option<crate::input::Direction>,
    movement_blocked: bool,
    map: Option<&MapData>,
    grid_x: u32,
    grid_y: u32,
    elevation: u32,
    animating: bool,
    npc_positions: &NpcPositions,
) -> (r: PlayerMovePlan)
    ensures
        player_move_plan(
            direction,
            movement_blocked,
            opt_map(map),
            grid_x,
            grid_y,
            elevation,
            animating,
            npc_positions.positions@,
        ) == (PlayerMoveView {
            facing: r.facing,
            target: r.target,
            collision_npc: opt_usize(r.collision_npc),
        }),
{
    let nothing = PlayerMovePlan { facing: None, target: None, collision_npc: None };
    if movement_blocked {
        return nothing;
    }
    let d = match direction {
        Some(d) => d,
        None => return nothing,
    };
    let m = match map {
        Some(m) => m,
        None => return nothing,
    };
    if animating {
        return nothing;
    }
    let facing = match d {
        crate::input::Direction::Up => FacingDirection::Up,
        crate::input::Direction::Down => FacingDirection::Down,
        crate::input::Direction::Left => FacingDirection::Left,
        crate::input::Direction::Right => FacingDirection::Right,
    };
    let turned = PlayerMovePlan { facing: Some(facing), target: None, collision_npc: None };
    let (tx, ty): (i64, i64) = match d {
        crate::input::Direction::Up => (grid_x as i64, grid_y as i64 - 1),
        crate::input::Direction::Down => (grid_x as i64, grid_y as i64 + 1),
        crate::input::Direction::Left => (grid_x as i64 - 1, grid_y as i64),
        crate::input::Direction::Right => (grid_x as i64 + 1, grid_y as i64),
    };
    if tx < 0 || ty < 0 || tx >= m.width as i64 || ty >= m.height as i64 {
        return turned;
    }
    let tx = tx as u32;
    let ty = ty as u32;
    if is_tile_blocked(m, tx, ty, Some(elevation), None) {
        return turned;
    }
    match npc_positions.find_at_elevation(tx, ty, elevation) {
        Some(i) => {
            proof {
                let p = npc_positions.positions@;
                let t = (tx, ty, elevation);
                assert(p[i as int] == t);
                let j = choose|j: int| 0 <= j < p.len() && p[j] == t && forall|k: int| 0 <= k < j ==> p[k] != t;
                assert(0 <= j < p.len() && p[j] == t && forall|k: int| 0 <= k < j ==> p[k] != t);
                if j < i {
                    assert(p[j] != t);
                }
                if i < j {
                    assert(p[i as int] != t);
                }
                assert(first_index(p, t) == Some(i as int));
            }
            let hits = i < m.npcs.len() && match m.npcs[i].trigger_mode {
                TriggerMode::Collision => m.npcs[i].event_triggers.len() > 0,
                TriggerMode::Interaction => false,
            };
            PlayerMovePlan { collision_npc: if hits { Some(i) } else { None }, ..turned }
        },
        None => PlayerMovePlan { target: Some((tx, ty)), ..turned },
    }
}

// ─── Jumps and steps ─────────────────────────────────────────────────────────

pub open spec fn clamp_int(v: int, lo: int, hi: int) -> int {
    if v < lo {
        lo
    } else if v > hi {
        hi
    } else {
        v
    }
}

/// Where a jump of `distance` tiles in direction `facing` lands, clamped to
/// the map. The landing is computed in signed 32-bit arithmetic, so sizes
/// are at least one and coordinates stay within `i32`.
pub fn compute_landing(
    grid_x: u32,
    grid_y: u32,
    facing: FacingDirection,
    distance: u32,
    map_width: u32,
    map_height: u32,
) -> (r: (u32, u32))
    requires
        1 <= map_width <= i32::MAX,
        1 <= map_height <= i32::MAX,
        distance <= i32::MAX,
        grid_x <= i32::MAX,
        grid_y <= i32::MAX,
        facing == FacingDirection::Right ==> grid_x + distance <= i32::MAX,
        facing == FacingDirection::Down ==> grid_y + distance <= i32::MAX,
    ensures
        ({
            let (dx, dy) = match facing {
                FacingDirection::Up => (0int, -distance),
                FacingDirection::Down => (0int, distance as int),
                FacingDirection::Left => (-distance, 0int),
                FacingDirection::Right => (distance as int, 0int),
            };
            &&& r.0 == clamp_int(grid_x + dx, 0, map_width - 1)
            &&& r.1 == clamp_int(grid_y + dy, 0, map_height - 1)
        }),
{
    let d = distance as i64;
    let (dx, dy): (i64, i64) = match facing {
        FacingDirection::Up => (0, -d),
        FacingDirection::Down => (0, d),
        FacingDirection::Left => (-d, 0),
        FacingDirection::Right => (d, 0),
    };
    let nx = clamp_i64(grid_x as i64 + dx, 0, map_width as i64 - 1);
    let ny = clamp_i64(grid_y as i64 + dy, 0, map_height as i64 - 1);
    (nx as u32, ny as u32)
}

fn clamp_i64(v: i64, lo: i64, hi: i64) -> (r: i64)
    requires
        lo <= hi,
    ensures
        r == clamp_int(v as int, lo as int, hi as int),
{
    if v < lo {
        lo
    } else if v > hi {
        hi
    } else {
        v
    }
}

/// Clamping keeps a value within the bounds, leaves a value already within
/// them unchanged, and otherwise gives the nearer bound.
pub proof fn law_clamp_int(v: int, lo: int, hi: int)
    requires
        lo <= hi,
    ensures
        lo <= clamp_int(v, lo, hi) <= hi,
        lo <= v <= hi ==> clamp_int(v, lo, hi) == v,
        v < lo ==> clamp_int(v, lo, hi) == lo,
        v > hi ==> clamp_int(v, lo, hi) == hi,
{
}

pub open spec fn sign(v: int) -> int {
    if v > 0 {
        1
    } else if v < 0 {
        -1
    } else {
        0
    }
}

/// One tile toward the target, horizontal first: `(0, 0)` when there.
pub fn compute_step(cur_x: i64, cur_y: i64, target_x: i64, target_y: i64) -> (r: (i64, i64))
    requires
        i64::MIN <= target_x - cur_x <= i64::MAX,
        i64::MIN <= target_y - cur_y <= i64::MAX,
    ensures
        r == (if target_x != cur_x {
            (sign(target_x - cur_x) as i64, 0i64)
        } else {
            (0i64, sign(target_y - cur_y) as i64)
        }),
{
    let dx = target_x - cur_x;
    let dy = target_y - cur_y;
    if dx != 0 {
        (if dx > 0 { 1 } else { -1 }, 0)
    } else if dy != 0 {
        (0, if dy > 0 { 1 } else { -1 })
    } else {
        (0, 0)
    }
}

/// The facing of a step: horizontal steps face sideways, otherwise down for
/// a step down and up for anything else.
pub fn facing_from_step(dx: i64, dy: i64) -> (r: FacingDirection)
    ensures
        r == (if dx > 0 {
            FacingDirection::Right
        } else if dx < 0 {
            FacingDirection::Left
        } else if dy > 0 {
            FacingDirection::Down
        } else {
            FacingDirection::Up
        }),
{
    if dx > 0 {
        FacingDirection::Right
    } else if dx < 0 {
        FacingDirection::Left
    } else if dy > 0 {
        FacingDirection::Down
    } else {
        FacingDirection::Up
    }
}

pub open spec fn opposite(f: FacingDirection) -> FacingDirection {
    match f {
        FacingDirection::Up => FacingDirection::Down,
        FacingDirection::Down => FacingDirection::Up,
        FacingDirection::Left => FacingDirection::Right,
        FacingDirection::Right => FacingDirection::Left,
    }
}

/// The facing opposite to `facing`: an NPC turns this way to face the
/// player who faces it.
pub fn opposite_facing(facing: FacingDirection) -> (r: FacingDirection)
    ensures
        r == opposite(facing),
{
    match facing {
        FacingDirection::Up => FacingDirection::Down,
        FacingDirection::Down => FacingDirection::Up,
        FacingDirection::Left => FacingDirection::Right,
        FacingDirection::Right => FacingDirection::Left,
    }
}

/// Turning around twice faces the starting way, and never the same way.
pub proof fn law_opposite_involution(f: FacingDirection)
    ensures
        opposite(opposite(f)) == f,
        opposite(f) != f,
{
}

// ─── NPC triggers ────────────────────────────────────────────────────────────

/// Whether the action key registers as an interaction this frame: only when
/// pressed with no dialog and no action sequence in progress.
pub fn read_interaction_input(pressed: bool, dialog_active: bool, queue_active: bool) -> (r: bool)
    ensures
        r == (pressed && !dialog_active && !queue_active),
{
    if dialog_active || queue_active {
        return false;
    }
    pressed
}

/// The tile next to `(x, y)` in direction `facing`; none past the edges of
/// the coordinate range.
pub open spec fn faced(x: int, y: int, facing: FacingDirection) -> Option<(u32, u32)> {
    let (fx, fy) = match facing {
        FacingDirection::Up => (x, y - 1),
        FacingDirection::Down => (x, y + 1),
        FacingDirection::Left => (x - 1, y),
        FacingDirection::Right => (x + 1, y),
    };
    if 0 <= fx <= u32::MAX && 0 <= fy <= u32::MAX {
        Some((fx as u32, fy as u32))
    } else {
        None
    }
}

/// The faced tile is the neighbour in the facing direction: up lowers y by
/// one, down raises it, left lowers x by one, right raises it; there is
/// none only past the edge of the coordinate range.
pub proof fn law_faced_neighbour(x: u32, y: u32, facing: FacingDirection)
    ensures
        match faced(x as int, y as int, facing) {
            Some((fx, fy)) => match facing {
                FacingDirection::Up => fx == x && fy + 1 == y,
                FacingDirection::Down => fx == x && fy == y + 1,
                FacingDirection::Left => fx + 1 == x && fy == y,
                FacingDirection::Right => fx == x + 1 && fy == y,
            },
            None => match facing {
                FacingDirection::Up => y == 0,
                FacingDirection::Down => y == u32::MAX,
                FacingDirection::Left => x == 0,
                FacingDirection::Right => x == u32::MAX,
            },
        },
{
}

/// The tile the player faces from `(x, y)`.
pub fn faced_tile(x: u32, y: u32, facing: FacingDirection) -> (r: Option<(u32, u32)>)
    ensures
        r == faced(x as int, y as int, facing),
{
    match facing {
        FacingDirection::Up => if y == 0 {
            None
        } else {
            Some((x, y - 1))
        },
        FacingDirection::Down => if y == u32::MAX {
            None
        } else {
            Some((x, y + 1))
        },
        FacingDirection::Left => if x == 0 {
            None
        } else {
            Some((x - 1, y))
        },
        FacingDirection::Right => if x == u32::MAX {
            None
        } else {
            Some((x + 1, y))
        },
    }
}

/// The NPC is active: it has no required state, or the flag has the
/// required value.
pub open spec fn npc_state_ok(n: NpcInstance, flags: Map<Seq<char>, Seq<char>>) -> bool {
    match n.required_state {
        Some((k, v)) => flags.contains_key(k@) && flags[k@] == v@,
        None => true,
    }
}

/// The NPC at index `i` reacts to the action key.
pub open spec fn interactable(map: MapData, i: int, flags: Map<Seq<char>, Seq<char>>) -> bool {
    &&& 0 <= i < map.npcs@.len()
    &&& map.npcs@[i].trigger_mode == TriggerMode::Interaction
    &&& npc_state_ok(map.npcs@[i], flags)
    &&& map.npcs@[i].event_triggers@.len() > 0
}

/// The first of the first `n` NPC positions that is on `(fx, fy)` and holds
/// an interactable NPC.
pub open spec fn first_interactable(
    p: Seq<(u32, u32, u32)>,
    map: MapData,
    fx: u32,
    fy: u32,
    flags: Map<Seq<char>, Seq<char>>,
    n: nat,
) -> Option<int>
    decreases n,
{
    if n == 0 {
        None
    } else {
        match first_interactable(p, map, fx, fy, flags, (n - 1) as nat) {
            Some(i) => Some(i),
            None => if p[n - 1].0 == fx && p[n - 1].1 == fy && interactable(map, n - 1, flags) {
                Some(n - 1)
            } else {
                None
            },
        }
    }
}

/// An NPC's event that starts: the NPC's index, its actions, and the facing
/// it turns to (toward the player) when talked to.
pub struct NpcTrigger {
    pub npc_index: usize,
    pub actions: VecDeque<EventAction>,
    pub turn_to: Option<FacingDirection>,
}

/// Which NPC event starts, if any: none while a sequence or dialog is in
/// progress or without a map. An NPC the player walked into starts its
/// events if it has collision triggers and is active. Otherwise, when the
/// action key was pressed, the first interactable NPC standing on the tile
/// the player faces (on the map) starts its events and turns to face the
/// player (a player without a sprite facing counts as facing down).
pub open spec fn npc_trigger_outcome(
    queue_active: bool,
    dialog_active: bool,
    map: Option<MapData>,
    collided: Option<int>,
    interaction: bool,
    player: Option<(u32, u32)>,
    player_facing: Option<FacingDirection>,
    positions: Seq<(u32, u32, u32)>,
    flags: Map<Seq<char>, Seq<char>>,
) -> Option<(int, Seq<ActionView>, Option<FacingDirection>)> {
    if queue_active || dialog_active || map is None {
        None
    } else {
        let m = map->0;
        if collided matches Some(i) && collision_npc(m, i) && npc_state_ok(m.npcs@[i], flags) {
            Some((collided->0, view_actions(m.npcs@[collided->0].event_triggers@), None))
        } else if !interaction || player is None {
            None
        } else {
            let facing = match player_facing {
                Some(f) => f,
                None => FacingDirection::Down,
            };
            match faced((player->0).0 as int, (player->0).1 as int, facing) {
                None => None,
                Some((fx, fy)) => if fx >= m.width || fy >= m.height {
                    None
                } else {
                    match first_interactable(positions, m, fx, fy, flags, positions.len()) {
                        Some(i) => Some((i, view_actions(m.npcs@[i].event_triggers@), Some(opposite(facing)))),
                        None => None,
                    }
                },
            }
        }
    }
}

pub(crate) fn npc_active(n: &NpcInstance, flags: &StrMap<String>) -> (r: bool)
    ensures
        r == npc_state_ok(*n, flag_view(flags.map())),
{
    match &n.required_state {
        Some((k, v)) => match flags.get(k.as_str()) {
            Some(cur) => crate::text::str_eq(cur.as_str(), v.as_str()),
            None => false,
        },
        None => true,
    }
}

pub open spec fn npc_trigger_view(r: Option<NpcTrigger>) -> Option<(int, Seq<ActionView>, Option<FacingDirection>)> {
    match r {
        Some(t) => Some((t.npc_index as int, view_actions(t.actions@), t.turn_to)),
        None => None,
    }
}

/// Decides which NPC event starts this frame (see `npc_trigger_outcome`).
pub fn npc_trigger_system(
    queue_active: bool,
    dialog_active: bool,
    map: Option<&MapData>,
    collided: Option<usize>,
    interaction: bool,
    player: Option<(u32, u32)>,
    player_facing: Option<FacingDirection>,
    npc_positions: &NpcPositions,
    flags: &StrMap<String>,
) -> (r: Option<NpcTrigger>)
    ensures
        npc_trigger_view(r) == npc_trigger_outcome(
            queue_active,
            dialog_active,
            opt_map(map),
            opt_usize(collided),
            interaction,
            player,
            player_facing,
            npc_positions.positions@,
            flag_view(flags.map()),
        ),
{
    if queue_active || dialog_active {
        return None;
    }
    let m = match map {
        Some(m) => m,
        None => return None,
    };
    match collided {
        Some(i) => {
            if i < m.npcs.len() {
                let npc = &m.npcs[i];
                let is_collision = match npc.trigger_mode {
                    TriggerMode::Collision => true,
                    TriggerMode::Interaction => false,
                };
                if is_collision && npc.event_triggers.len() > 0 && npc_active(npc, flags) {
                    return Some(
                        NpcTrigger {
                            npc_index: i,
                            actions: crate::actions::copy_to_queue(&npc.event_triggers),
                            turn_to: None,
                        },
                    );
                }
            }
        },
        None => {},
    }
    if !interaction {
        return None;
    }
    let (px, py) = match player {
        Some(p) => p,
        None => return None,
    };
    let facing = match player_facing {
        Some(f) => f,
        None => FacingDirection::Down,
    };
    let (fx, fy) = match faced_tile(px, py, facing) {
        Some(t) => t,
        None => return None,
    };
    if fx >= m.width || fy >= m.height {
        return None;
    }
    let ghost fv = flag_view(flags.map());
    let ghost p = npc_positions.positions@;
    let ghost outcome = npc_trigger_outcome(
        queue_active,
        dialog_active,
        opt_map(map),
        opt_usize(collided),
        interaction,
        player,
        player_facing,
        p,
        fv,
    );
    assert(outcome == match first_interactable(p, *m, fx, fy, fv, p.len()) {
        Some(i) => Some((i, view_actions(m.npcs@[i].event_triggers@), Some(opposite(facing)))),
        None => None,
    });
    let mut idx: usize = 0;
    while idx < npc_positions.positions.len()
        invariant
            outcome == match first_interactable(p, *m, fx, fy, fv, p.len()) {
                Some(i) => Some((i, view_actions(m.npcs@[i].event_triggers@), Some(opposite(facing)))),
                None => None,
            },
            outcome == npc_trigger_outcome(
                queue_active,
                dialog_active,
                opt_map(map),
                opt_usize(collided),
                interaction,
                player,
                player_facing,
                npc_positions.positions@,
                flag_view(flags.map()),
            ),
            idx <= p.len(),
            p == npc_positions.positions@,
            fv == flag_view(flags.map()),
            first_interactable(p, *m, fx, fy, fv, idx as nat) is None,
        decreases p.len() - idx,
    {
        let (nx, ny, _) = npc_positions.positions[idx];
        if nx == fx && ny == fy && idx < m.npcs.len() {
            let npc = &m.npcs[idx];
            let is_interaction = match npc.trigger_mode {
                TriggerMode::Interaction => true,
                TriggerMode::Collision => false,
            };
            if is_interaction && npc_active(npc, flags) && npc.event_triggers.len() > 0 {
                proof {
                    assert(first_interactable(p, *m, fx, fy, fv, (idx + 1) as nat) == Some(idx as int));
                    lemma_first_interactable_stable(p, *m, fx, fy, fv, (idx + 1) as nat, p.len());
                }
                return Some(
                    NpcTrigger {
                        npc_index: idx,
                        actions: crate::actions::copy_to_queue(&npc.event_triggers),
                        turn_to: Some(opposite_facing(facing)),
                    },
                );
            }
        }
        idx = idx + 1;
    }
    None
}

pub proof fn lemma_first_interactable_stable(
    p: Seq<(u32, u32, u32)>,
    map: MapData,
    fx: u32,
    fy: u32,
    flags: Map<Seq<char>, Seq<char>>,
    n: nat,
    m: nat,
)
    requires
        n <= m,
        first_interactable(p, map, fx, fy, flags, n) is Some,
    ensures
        first_interactable(p, map, fx, fy, flags, m) == first_interactable(p, map, fx, fy, flags, n),
    decreases m - n,
{
    if n < m {
        lemma_first_interactable_stable(p, map, fx, fy, flags, n, (m - 1) as nat);
    }
}

// ─── Map changes ─────────────────────────────────────────────────────────────

/// A completed map change: the maps left and entered, and where the player
/// stands on the new map (and the elevation to set, if one was requested).
pub struct MapArrival {
    pub previous_map_id: Option<String>,
    pub new_map_id: String,
    pub x: u32,
    pub y: u32,
    pub elevation: Option<u32>,
}

pub open spec fn clamp_to_size(v: u32, size: u32) -> u32 {
    if size == 0 {
        0
    } else if v < size {
        v
    } else {
        (size - 1) as u32
    }
}

/// Applies a pending map change: the pending request is consumed; if the
/// map exists it becomes the active map and the player is placed at the
/// requested tile (origin when none) clamped to the map.
pub fn handle_map_change(renderer_state: &mut crate::save::RendererState, maps: &StrMap<MapData>) -> (r: Option<MapArrival>)
    ensures
        match old(renderer_state).pending_map_change {
            None => {
                &&& r is None
                &&& crate::save::renderer_view(*final(renderer_state)) == crate::save::renderer_view(*old(renderer_state))
            },
            Some(id) => {
                &&& final(renderer_state).pending_map_change is None
                &&& final(renderer_state).pending_target_coords is None
                &&& final(renderer_state).pending_target_elevation is None
                &&& if maps.map().contains_key(id@) {
                    let m = maps.map()[id@];
                    let (tx, ty) = match old(renderer_state).pending_target_coords {
                        Some(c) => c,
                        None => (0u32, 0u32),
                    };
                    &&& crate::condition::opt_view(final(renderer_state).active_map_id) == Some(id@)
                    &&& r matches Some(a) && {
                        &&& crate::condition::opt_view(a.previous_map_id) == crate::condition::opt_view(
                            old(renderer_state).active_map_id,
                        )
                        &&& a.new_map_id@ == id@
                        &&& a.x == clamp_to_size(tx, m.width)
                        &&& a.y == clamp_to_size(ty, m.height)
                        &&& a.elevation == old(renderer_state).pending_target_elevation
                    }
                } else {
                    &&& r is None
                    &&& crate::condition::opt_view(final(renderer_state).active_map_id) == crate::condition::opt_view(
                        old(renderer_state).active_map_id,
                    )
                }
            },
        },
{
    let new_map_id = match renderer_state.pending_map_change.take() {
        Some(id) => id,
        None => return None,
    };
    let target = renderer_state.pending_target_coords.take();
    let elevation = renderer_state.pending_target_elevation.take();
    let m = match maps.get(new_map_id.as_str()) {
        Some(m) => m,
        None => return None,
    };
    let previous_map_id = match &renderer_state.active_map_id {
        Some(p) => Some(p.clone()),
        None => None,
    };
    renderer_state.active_map_id = Some(new_map_id.clone());
    let (tx, ty) = match target {
        Some(c) => c,
        None => (0, 0),
    };
    let max_x = m.width.saturating_sub(1);
    let max_y = m.height.saturating_sub(1);
    let x = if tx < max_x { tx } else { max_x };
    let y = if ty < max_y { ty } else { max_y };
    Some(MapArrival { previous_map_id, new_map_id, x, y, elevation })
}

// ─── Scripted entity moves ───────────────────────────────────────────────────

/// The next move of an entity walking to a target tile.
#[derive(Debug, Clone, Copy, PartialEq, Eq, Structural)]
pub enum EntityStep {
    /// Arrived, or no further progress can be made: the move is complete.
    Complete,
    /// Step onto this tile, facing this way.
    MoveTo { x: u32, y: u32, facing: FacingDirection },
}

/// The tile one step from `(x, y)` toward `(tx, ty)`, horizontal first.
pub open spec fn toward(x: u32, y: u32, tx: u32, ty: u32) -> (int, int) {
    if tx != x {
        (x + sign(tx - x), y as int)
    } else {
        (x as int, y + sign(ty - y))
    }
}

pub open spec fn facing_toward(x: u32, y: u32, tx: u32, ty: u32) -> FacingDirection {
    if tx > x {
        FacingDirection::Right
    } else if tx < x {
        FacingDirection::Left
    } else if ty > y {
        FacingDirection::Down
    } else {
        FacingDirection::Up
    }
}

/// The player's next step toward the target: complete when there, or when
/// the next tile is off the map or blocked at the player's elevation (by
/// an opaque tile or an NPC there).
pub open spec fn player_entity_step(
    map: MapData,
    positions: Seq<(u32, u32, u32)>,
    x: u32,
    y: u32,
    elevation: u32,
    tx: u32,
    ty: u32,
) -> EntityStep {
    let (dx, dy) = toward(x, y, tx, ty);
    if x == tx && y == ty {
        EntityStep::Complete
    } else if dx >= map.width || dy >= map.height {
        EntityStep::Complete
    } else if opacity_blocked(map.layers@, dx, dy, Some(elevation)) || occupied_at_elevation(
        positions,
        dx as u32,
        dy as u32,
        elevation,
    ) {
        EntityStep::Complete
    } else {
        EntityStep::MoveTo { x: dx as u32, y: dy as u32, facing: facing_toward(x, y, tx, ty) }
    }
}

/// An NPC's next step toward the target: complete when there, or when the
/// next tile is off the map, opaque at any elevation, or taken by another
/// NPC.
pub open spec fn npc_entity_step(
    map: MapData,
    positions: Seq<(u32, u32, u32)>,
    npc_index: int,
    x: u32,
    y: u32,
    tx: u32,
    ty: u32,
) -> EntityStep {
    let (dx, dy) = toward(x, y, tx, ty);
    if x == tx && y == ty {
        EntityStep::Complete
    } else if dx >= map.width || dy >= map.height {
        EntityStep::Complete
    } else if opacity_blocked(map.layers@, dx, dy, None) || occupied_by_other(
        positions,
        dx as u32,
        dy as u32,
        npc_index,
    ) {
        EntityStep::Complete
    } else {
        EntityStep::MoveTo { x: dx as u32, y: dy as u32, facing: facing_toward(x, y, tx, ty) }
    }
}

fn next_tile(x: u32, y: u32, tx: u32, ty: u32) -> (r: (u32, u32))
    requires
        x != tx || y != ty,
    ensures
        r.0 as int == toward(x, y, tx, ty).0,
        r.1 as int == toward(x, y, tx, ty).1,
{
    if tx > x {
        (x + 1, y)
    } else if tx < x {
        (x - 1, y)
    } else if ty > y {
        (x, y + 1)
    } else {
        (x, y - 1)
    }
}

/// Plans the player's next step of a scripted move (see `player_entity_step`).
pub fn plan_player_entity_step(
    map: &MapData,
    npc_positions: &NpcPositions,
    x: u32,
    y: u32,
    elevation: u32,
    target_x: u32,
    target_y: u32,
) -> (r: EntityStep)
    ensures
        r == player_entity_step(*map, npc_positions.positions@, x, y, elevation, target_x, target_y),
{
    if x == target_x && y == target_y {
        return EntityStep::Complete;
    }
    let (dx, dy) = next_tile(x, y, target_x, target_y);
    if dx >= map.width || dy >= map.height {
        return EntityStep::Complete;
    }
    if is_tile_blocked(map, dx, dy, Some(elevation), Some(npc_positions)) {
        return EntityStep::Complete;
    }
    let step = compute_step(x as i64, y as i64, target_x as i64, target_y as i64);
    EntityStep::MoveTo { x: dx, y: dy, facing: facing_from_step(step.0, step.1) }
}

/// Plans an NPC's next step of a scripted move (see `npc_entity_step`);
/// on a step the NPC's recorded position moves to the new tile at once,
/// keeping its elevation.
pub fn plan_npc_entity_step(
    map: &MapData,
    npc_positions: &mut NpcPositions,
    npc_index: usize,
    x: u32,
    y: u32,
    target_x: u32,
    target_y: u32,
) -> (r: EntityStep)
    ensures
        r == npc_entity_step(*map, old(npc_positions).positions@, npc_index as int, x, y, target_x, target_y),
        match r {
            EntityStep::MoveTo { x: nx, y: ny, .. } => final(npc_positions).positions@ == if npc_index < old(
                npc_positions,
            ).positions@.len() {
                old(npc_positions).positions@.update(
                    npc_index as int,
                    (nx, ny, old(npc_positions).positions@[npc_index as int].2),
                )
            } else {
                old(npc_positions).positions@
            },
            EntityStep::Complete => final(npc_positions).positions@ == old(npc_positions).positions@,
        },
{
    if x == target_x && y == target_y {
        return EntityStep::Complete;
    }
    let (dx, dy) = next_tile(x, y, target_x, target_y);
    if dx >= map.width || dy >= map.height {
        return EntityStep::Complete;
    }
    if is_tile_blocked(map, dx, dy, None, None) {
        return EntityStep::Complete;
    }
    if npc_positions.is_occupied_by_other(dx, dy, npc_index) {
        return EntityStep::Complete;
    }
    if npc_index < npc_positions.positions.len() {
        let e = npc_positions.positions[npc_index].2;
        npc_positions.positions.set(npc_index, (dx, dy, e));
    }
    let step = compute_step(x as i64, y as i64, target_x as i64, target_y as i64);
    EntityStep::MoveTo { x: dx, y: dy, facing: facing_from_step(step.0, step.1) }
}

/// A scripted NPC step goes to a tile next to the NPC, on the map, not
/// opaque and held by no other NPC, so NPCs on distinct tiles stay on
/// distinct tiles.
pub proof fn law_npc_entity_step_safe(
    map: MapData,
    positions: Seq<(u32, u32, u32)>,
    i: int,
    x: u32,
    y: u32,
    tx: u32,
    ty: u32,
)
    requires
        0 <= i < positions.len(),
        tiles_distinct(positions),
    ensures
        npc_entity_step(map, positions, i, x, y, tx, ty) matches EntityStep::MoveTo { x: nx, y: ny, .. } ==> {
            &&& nx < map.width && ny < map.height
            &&& tile_distance(x as int, y as int, nx as int, ny as int) == 1
            &&& !opacity_blocked(map.layers@, nx as int, ny as int, None)
            &&& tiles_distinct(positions.update(i, (nx, ny, positions[i].2)))
        },
{
    if let EntityStep::MoveTo { x: nx, y: ny, .. } = npc_entity_step(map, positions, i, x, y, tx, ty) {
        lemma_move_keeps_tiles_distinct(positions, i, nx, ny, positions[i].2);
    }
}

pub open spec fn tile_distance(x: int, y: int, tx: int, ty: int) -> int {
    (if x >= tx { x - tx } else { tx - x }) + (if y >= ty { y - ty } else { ty - y })
}

/// Every step of a scripted move brings the entity one tile closer to its
/// target, so a move ends after at most the starting distance in steps.
pub proof fn law_entity_step_progress(x: u32, y: u32, tx: u32, ty: u32)
    requires
        x != tx || y != ty,
    ensures
        tile_distance(toward(x, y, tx, ty).0, toward(x, y, tx, ty).1, tx as int, ty as int) == tile_distance(
            x as int,
            y as int,
            tx as int,
            ty as int,
        ) - 1,
{
}

/// A scripted move in progress: who walks, to which tile, and how fast
/// (tiles per second, as `f32` bits).
pub struct EntityMoveState {
    pub target: EntityTarget,
    pub target_x: u32,
    pub target_y: u32,
    pub speed_bits: u32,
}

/// The first of the first `n` NPCs of a map that is drawn with the
/// spritesheet `id`.
pub open spec fn npc_by_sheet(npcs: Seq<NpcInstance>, id: Seq<char>, n: nat) -> Option<int>
    decreases n,
{
    if n == 0 {
        None
    } else {
        match npc_by_sheet(npcs, id, (n - 1) as nat) {
            Some(i) => Some(i),
            None => if npcs[n - 1].spritesheet_id@ == id {
                Some(n - 1)
            } else {
                None
            },
        }
    }
}

pub proof fn lemma_npc_by_sheet_found(npcs: Seq<NpcInstance>, id: Seq<char>, n: nat)
    ensures
        match npc_by_sheet(npcs, id, n) {
            Some(i) => 0 <= i < n && npcs[i].spritesheet_id@ == id,
            None => true,
        },
    decreases n,
{
    if n > 0 {
        lemma_npc_by_sheet_found(npcs, id, (n - 1) as nat);
    }
}

pub proof fn lemma_npc_by_sheet_stable(npcs: Seq<NpcInstance>, id: Seq<char>, n: nat, m: nat)
    requires
        n <= m,
        npc_by_sheet(npcs, id, n) is Some,
    ensures
        npc_by_sheet(npcs, id, m) == npc_by_sheet(npcs, id, n),
    decreases m,
{
    if m > n {
        lemma_npc_by_sheet_stable(npcs, id, n, (m - 1) as nat);
    }
}

/// The index of the first NPC of the map drawn with the spritesheet `id`.
pub fn find_npc_by_spritesheet(map: &MapData, id: &str) -> (r: Option<usize>)
    ensures
        opt_usize(r) == npc_by_sheet(map.npcs@, id@, map.npcs@.len()),
{
    let mut i: usize = 0;
    while i < map.npcs.len()
        invariant
            i <= map.npcs@.len(),
            npc_by_sheet(map.npcs@, id@, i as nat) is None,
        decreases map.npcs@.len() - i,
    {
        if crate::text::str_eq(map.npcs[i].spritesheet_id.as_str(), id) {
            proof {
                lemma_npc_by_sheet_stable(map.npcs@, id@, (i + 1) as nat, map.npcs@.len());
            }
            return Some(i);
        }
        i = i + 1;
    }
    None
}

/// The tile an NPC entity stands on, by NPC index; `None` where the NPC
/// has no entity.
pub open spec fn npc_grid(grids: Seq<Option<(u32, u32)>>, i: int) -> Option<(u32, u32)> {
    if 0 <= i < grids.len() {
        grids[i]
    } else {
        None
    }
}

/// The NPC a scripted move walks, if the move is an NPC's and the map has it.
pub open spec fn moved_npc(map: MapData, target: EntityTargetView) -> Option<int> {
    match target {
        EntityTargetView::Player => None,
        EntityTargetView::Npc { npc_id } => npc_by_sheet(map.npcs@, npc_id, map.npcs@.len()),
    }
}

/// The next move of a scripted move: complete when the walker (the player,
/// or the first NPC drawn with the named spritesheet) is not there, else
/// its next step toward the target.
pub open spec fn scripted_step(
    map: MapData,
    positions: Seq<(u32, u32, u32)>,
    target: EntityTargetView,
    tx: u32,
    ty: u32,
    player: Option<(u32, u32, u32)>,
    grids: Seq<Option<(u32, u32)>>,
) -> EntityStep {
    match target {
        EntityTargetView::Player => match player {
            Some((x, y, e)) => player_entity_step(map, positions, x, y, e, tx, ty),
            None => EntityStep::Complete,
        },
        EntityTargetView::Npc { .. } => match moved_npc(map, target) {
            Some(i) => match npc_grid(grids, i) {
                Some((x, y)) => npc_entity_step(map, positions, i, x, y, tx, ty),
                None => EntityStep::Complete,
            },
            None => EntityStep::Complete,
        },
    }
}

/// Decides one frame of a scripted move, for a walker that is not in the
/// middle of a step. Nothing happens unless the queue waits for a move, a
/// move is in progress and the map is there. When the move is complete,
/// the move ends, the queue stops waiting and its front action (the move)
/// is dropped. Otherwise the walker steps to the next tile; an NPC's
/// recorded position moves there at once, keeping its elevation.
///
/// `player` is the player's tile and elevation, `npc_grids` the tile of
/// each NPC entity by NPC index.
pub fn entity_move_frame(
    queue: &mut ActionQueue,
    move_state: &mut Option<EntityMoveState>,
    map: Option<&MapData>,
    npc_positions: &mut NpcPositions,
    player: Option<(u32, u32, u32)>,
    npc_grids: &Vec<Option<(u32, u32)>>,
) -> (r: Option<EntityStep>)
    ensures
        ({
            let go = old(queue).waiting_for == WaitingFor::EntityMove && old(move_state).is_some()
                && map.is_some();
            &&& !go ==> {
                &&& r.is_none()
                &&& *final(queue) == *old(queue)
                &&& *final(move_state) == *old(move_state)
                &&& final(npc_positions).positions@ == old(npc_positions).positions@
            }
            &&& go ==> {
                let st = old(move_state).unwrap();
                let m = *map.unwrap();
                let target = entity_target_view(st.target);
                let step = scripted_step(
                    m,
                    old(npc_positions).positions@,
                    target,
                    st.target_x,
                    st.target_y,
                    player,
                    npc_grids@,
                );
                &&& r == Some(step)
                &&& step is Complete ==> {
                    &&& final(queue).waiting_for == WaitingFor::Nothing
                    &&& final(queue).actions@ == crate::queue::popped(old(queue).actions@)
                    &&& final(move_state).is_none()
                    &&& final(npc_positions).positions@ == old(npc_positions).positions@
                }
                &&& step matches EntityStep::MoveTo { x: nx, y: ny, .. } ==> {
                    &&& *final(queue) == *old(queue)
                    &&& *final(move_state) == *old(move_state)
                    &&& final(npc_positions).positions@ == match moved_npc(m, target) {
                        Some(i) => if i < old(npc_positions).positions@.len() {
                            old(npc_positions).positions@.update(
                                i,
                                (nx, ny, old(npc_positions).positions@[i].2),
                            )
                        } else {
                            old(npc_positions).positions@
                        },
                        None => old(npc_positions).positions@,
                    }
                }
            }
        }),
{
    if queue.waiting_for != WaitingFor::EntityMove {
        return None;
    }
    let m = match map {
        Some(m) => m,
        None => return None,
    };
    let (step, done) = match &*move_state {
        None => return None,
        Some(st) => {
            let (tx, ty) = (st.target_x, st.target_y);
            match &st.target {
                EntityTarget::Player => {
                    let step = match player {
                        Some((x, y, e)) => plan_player_entity_step(m, npc_positions, x, y, e, tx, ty),
                        None => EntityStep::Complete,
                    };
                    (step, matches!(step, EntityStep::Complete))
                },
                EntityTarget::Npc { npc_id } => {
                    let found = find_npc_by_spritesheet(m, npc_id.as_str());
                    proof {
                        lemma_npc_by_sheet_found(m.npcs@, npc_id@, m.npcs@.len());
                    }
                    let step = match found {
                        Some(i) => {
                            let grid = if i < npc_grids.len() {
                                npc_grids[i]
                            } else {
                                None
                            };
                            match grid {
                                Some((x, y)) => plan_npc_entity_step(m, npc_positions, i, x, y, tx, ty),
                                None => EntityStep::Complete,
                            }
                        },
                        None => EntityStep::Complete,
                    };
                    (step, matches!(step, EntityStep::Complete))
                },
            }
        },
    };
    if done {
        *move_state = None;
        crate::queue::complete_move(queue);
    }
    Some(step)
}

} // verus!
