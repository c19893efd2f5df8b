//! The game's persistent state, the save file built from it, and starting
//! a game from the title screen: a new game, or continuing from a save.
use vstd::prelude::*;
use crate::condition::{flag_view, opt_view};
use crate::rewards::{progress_entry_view, progress_view, texts_view, CharacterProgress};
use crate::strmap::StrMap;

verus! {

/// Persistent game flags.
pub struct GameState {
    pub flags: StrMap<String>,
}

/// The player's currency balance.
pub struct CurrencyState {
    pub balance: u64,
}

/// Item id to quantity held.
pub struct InventoryState {
    pub items: StrMap<u32>,
}

/// The active party, in order.
pub struct PartyState {
    pub members: Vec<String>,
}

/// Experience and learned abilities by character id.
pub struct CharacterProgressState {
    pub characters: StrMap<CharacterProgress>,
}

/// The active map and a pending transition.
pub struct RendererState {
    pub active_map_id: Option<String>,
    pub pending_map_change: Option<String>,
    pub pending_target_coords: Option<(u32, u32)>,
    pub pending_target_elevation: Option<u32>,
}

/// Where a new game starts.
pub struct SpawnPoint {
    pub map_id: String,
    pub x: u32,
    pub y: u32,
}

/// Everything a save holds.
pub struct SaveFile {
    pub state: StrMap<String>,
    pub currency: u64,
    pub inventory: StrMap<u32>,
    pub party: Vec<String>,
    pub character_progress: StrMap<CharacterProgress>,
    pub map_id: Option<String>,
    pub position: Option<(u32, u32)>,
    pub elevation: Option<u32>,
    /// Remaining shop stock by shop id, then item id.
    pub shop_stock: StrMap<StrMap<u32>>,
}

/// The persistent state as values: flags, balance, inventory, party and
/// progress.
pub struct GameView {
    pub flags: Map<Seq<char>, Seq<char>>,
    pub balance: u64,
    pub inventory: Map<Seq<char>, u32>,
    pub party: Seq<Seq<char>>,
    pub progress: Map<Seq<char>, (u64, Seq<Seq<char>>)>,
}

pub open spec fn game_view(
    g: GameState,
    c: CurrencyState,
    i: InventoryState,
    p: PartyState,
    cp: CharacterProgressState,
) -> GameView {
    GameView {
        flags: flag_view(g.flags.map()),
        balance: c.balance,
        inventory: i.items.map(),
        party: texts_view(p.members@),
        progress: progress_view(cp.characters.map()),
    }
}

pub open spec fn save_view(s: SaveFile) -> GameView {
    GameView {
        flags: flag_view(s.state.map()),
        balance: s.currency,
        inventory: s.inventory.map(),
        party: texts_view(s.party@),
        progress: progress_view(s.character_progress.map()),
    }
}

fn copy_text(s: &String) -> (r: String)
    ensures
        r == *s,
{
    s.clone()
}

fn copy_count(n: &u32) -> (r: u32)
    ensures
        r == *n,
{
    *n
}

fn copy_progress(p: &CharacterProgress) -> (r: CharacterProgress)
    ensures
        progress_entry_view(r) == progress_entry_view(*p),
{
    let abilities = p.learned_abilities.clone();
    assert(abilities@ =~= p.learned_abilities@);
    CharacterProgress { experience: p.experience, learned_abilities: abilities }
}

fn copy_texts(v: &Vec<String>) -> (r: Vec<String>)
    ensures
        texts_view(r@) == texts_view(v@),
{
    let r = v.clone();
    assert(r@ =~= v@);
    r
}

fn copy_flags(m: &StrMap<String>) -> (r: StrMap<String>)
    ensures
        flag_view(r.map()) == flag_view(m.map()),
{
    let r = m.copy_with(|s: &String| -> (c: String) ensures c == *s { copy_text(s) });
    proof {
        StrMap::lemma_maps_agree(&r, m, |s: String| s@);
    }
    assert(flag_view(r.map()) =~= r.map().map_values(|s: String| s@));
    assert(flag_view(m.map()) =~= m.map().map_values(|s: String| s@));
    r
}

fn copy_counts(m: &StrMap<u32>) -> (r: StrMap<u32>)
    ensures
        r.map() == m.map(),
{
    let r = m.copy_with(|n: &u32| -> (c: u32) ensures c == *n { copy_count(n) });
    proof {
        StrMap::lemma_maps_agree(&r, m, |n: u32| n);
    }
    assert(r.map() =~= r.map().map_values(|n: u32| n));
    assert(m.map() =~= m.map().map_values(|n: u32| n));
    r
}

fn copy_progress_map(m: &StrMap<CharacterProgress>) -> (r: StrMap<CharacterProgress>)
    ensures
        progress_view(r.map()) == progress_view(m.map()),
{
    let r = m.copy_with(
        |p: &CharacterProgress| -> (c: CharacterProgress)
            ensures progress_entry_view(c) == progress_entry_view(*p)
        { copy_progress(p) },
    );
    proof {
        StrMap::lemma_maps_agree(&r, m, |p: CharacterProgress| progress_entry_view(p));
    }
    assert(progress_view(r.map()) =~= r.map().map_values(|p: CharacterProgress| progress_entry_view(p)));
    assert(progress_view(m.map()) =~= m.map().map_values(|p: CharacterProgress| progress_entry_view(p)));
    r
}

/// The save file of the current state: flags, balance, inventory, party,
/// progress and the given position, with no shop stock recorded.
pub fn build_save_file(
    game_state: &GameState,
    currency: &CurrencyState,
    inventory: &InventoryState,
    party: &PartyState,
    character_progress: &CharacterProgressState,
    map_id: Option<&str>,
    position: Option<(u32, u32)>,
    elevation: Option<u32>,
) -> (r: SaveFile)
    ensures
        save_view(r) == game_view(*game_state, *currency, *inventory, *party, *character_progress),
        opt_view(r.map_id) == match map_id {
            Some(m) => Some(m@),
            None => None,
        },
        r.position == position,
        r.elevation == elevation,
        r.shop_stock.map() == Map::<Seq<char>, StrMap<u32>>::empty(),
{
    let map_id = match map_id {
        Some(m) => Some(m.to_string()),
        None => None,
    };
    SaveFile {
        state: copy_flags(&game_state.flags),
        currency: currency.balance,
        inventory: copy_counts(&inventory.items),
        party: copy_texts(&party.members),
        character_progress: copy_progress_map(&character_progress.characters),
        map_id,
        position,
        elevation,
        shop_stock: StrMap::new(),
    }
}

// ─── Starting a game ─────────────────────────────────────────────────────────

/// Why a game could not start.
#[derive(Debug, Clone, Copy, PartialEq, Eq, Structural)]
pub enum TitleError {
    /// The project defines no spawn point.
    NoSpawnPoint,
}

impl TitleError {
    /// The message the title screen shows.
    pub fn message(&self) -> (r: String)
        ensures
            r@ == "Error: No spawn point configured in project"@,
    {
        "Error: No spawn point configured in project".to_string()
    }
}

pub open spec fn renderer_view(r: RendererState) -> (
    Option<Seq<char>>,
    Option<Seq<char>>,
    Option<(u32, u32)>,
    Option<u32>,
) {
    (opt_view(r.active_map_id), opt_view(r.pending_map_change), r.pending_target_coords, r.pending_target_elevation)
}

pub open spec fn spawn_view(s: Option<&SpawnPoint>) -> Option<(Seq<char>, u32, u32)> {
    match s {
        Some(p) => Some((p.map_id@, p.x, p.y)),
        None => None,
    }
}

/// Starts a new game: without a spawn point nothing changes; otherwise all
/// state is cleared and the game starts at the spawn point, elevation 0.
pub fn new_game(
    spawn_point: Option<&SpawnPoint>,
    game_state: &mut GameState,
    currency: &mut CurrencyState,
    inventory: &mut InventoryState,
    party: &mut PartyState,
    progress: &mut CharacterProgressState,
    renderer_state: &mut RendererState,
) -> (r: Result<(), TitleError>)
    ensures
        match spawn_point {
            None => {
                &&& r == Err::<(), TitleError>(TitleError::NoSpawnPoint)
                &&& game_view(*final(game_state), *final(currency), *final(inventory), *final(party), *final(progress))
                    == game_view(*old(game_state), *old(currency), *old(inventory), *old(party), *old(progress))
                &&& renderer_view(*final(renderer_state)) == renderer_view(*old(renderer_state))
            },
            Some(sp) => {
                &&& r is Ok
                &&& game_view(*final(game_state), *final(currency), *final(inventory), *final(party), *final(progress))
                    == (GameView {
                    flags: Map::empty(),
                    balance: 0,
                    inventory: Map::empty(),
                    party: Seq::empty(),
                    progress: Map::empty(),
                })
                &&& renderer_view(*final(renderer_state)) == (Some(sp.map_id@), None::<Seq<char>>, Some((sp.x, sp.y)), Some(0u32))
            },
        },
{
    let sp = match spawn_point {
        Some(sp) => sp,
        None => return Err(TitleError::NoSpawnPoint),
    };
    game_state.flags.clear();
    currency.balance = 0;
    inventory.items.clear();
    party.members.clear();
    progress.characters.clear();
    renderer_state.active_map_id = Some(sp.map_id.clone());
    renderer_state.pending_map_change = None;
    renderer_state.pending_target_coords = Some((sp.x, sp.y));
    renderer_state.pending_target_elevation = Some(0);
    assert(flag_view(game_state.flags.map()) =~= Map::empty());
    assert(progress_view(progress.characters.map()) =~= Map::empty());
    assert(texts_view(party.members@) =~= Seq::empty());
    Ok(())
}

/// Where a continued game starts: the saved map and position with the saved
/// elevation, else the spawn point (elevation unset), else nowhere.
pub open spec fn continue_target(
    map_id: Option<Seq<char>>,
    position: Option<(u32, u32)>,
    elevation: Option<u32>,
    spawn: Option<(Seq<char>, u32, u32)>,
) -> Option<(Seq<char>, u32, u32, Option<u32>)> {
    match (map_id, position) {
        (Some(m), Some((x, y))) => Some((m, x, y, elevation)),
        _ => match spawn {
            Some((m, x, y)) => Some((m, x, y, None)),
            None => None,
        },
    }
}

/// Continues from a save: the state becomes the saved state; the game then
/// starts where `continue_target` says (the renderer is left as it was when
/// there is nowhere to start).
pub fn continue_game(
    save: SaveFile,
    spawn_point: Option<&SpawnPoint>,
    game_state: &mut GameState,
    currency: &mut CurrencyState,
    inventory: &mut InventoryState,
    party: &mut PartyState,
    progress: &mut CharacterProgressState,
    renderer_state: &mut RendererState,
) -> (r: Result<(), TitleError>)
    ensures
        game_view(*final(game_state), *final(currency), *final(inventory), *final(party), *final(progress))
            == save_view(save),
        match continue_target(opt_view(save.map_id), save.position, save.elevation, spawn_view(spawn_point)) {
            None => {
                &&& r == Err::<(), TitleError>(TitleError::NoSpawnPoint)
                &&& renderer_view(*final(renderer_state)) == renderer_view(*old(renderer_state))
            },
            Some((m, x, y, e)) => {
                &&& r is Ok
                &&& renderer_view(*final(renderer_state)) == (Some(m), None::<Seq<char>>, Some((x, y)), e)
            },
        },
{
    let SaveFile { state, currency: balance, inventory: items, party: members, character_progress, map_id, position, elevation, shop_stock: _ } = save;
    game_state.flags = state;
    currency.balance = balance;
    inventory.items = items;
    party.members = members;
    progress.characters = character_progress;
    let (m, x, y, e) = match (map_id, position) {
        (Some(mid), Some((sx, sy))) => (mid, sx, sy, elevation),
        _ => match spawn_point {
            Some(sp) => (sp.map_id.clone(), sp.x, sp.y, None),
            None => return Err(TitleError::NoSpawnPoint),
        },
    };
    renderer_state.active_map_id = Some(m);
    renderer_state.pending_map_change = None;
    renderer_state.pending_target_coords = Some((x, y));
    renderer_state.pending_target_elevation = e;
    Ok(())
}

/// Continuing from a save that records a map and a position starts there,
/// at the saved elevation, whatever the spawn point.
pub proof fn law_continue_starts_at_saved_position(
    map_id: Seq<char>,
    position: (u32, u32),
    elevation: Option<u32>,
    spawn: Option<(Seq<char>, u32, u32)>,
)
    ensures
        continue_target(Some(map_id), Some(position), elevation, spawn) == Some(
            (map_id, position.0, position.1, elevation),
        ),
{
}

/// A save built from a state gives back that state when continued: what
/// `build_save_file` records is what `continue_game` restores.
pub proof fn law_save_then_continue_restores(
    before: GameView,
    save: SaveFile,
    after: GameView,
)
    requires
        save_view(save) == before,
        after == save_view(save),
    ensures
        after == before,
{
}

// ─── Title menu ──────────────────────────────────────────────────────────────

/// The title menu: 0 is "New Game", 1 is "Continue" (offered only when a
/// readable save exists).
pub struct TitleScreenState {
    pub selected: usize,
    pub continue_available: bool,
}

/// Keys pressed on the title screen: up (arrow up or W), down (arrow down
/// or S), confirm (Enter or Space).
#[derive(Debug, Clone, Copy, PartialEq, Eq, Structural)]
pub struct TitleKeys {
    pub up: bool,
    pub down: bool,
    pub confirm: bool,
}

/// What the title screen starts.
#[derive(Debug, Clone, Copy, PartialEq, Eq, Structural)]
pub enum TitleChoice {
    Nothing,
    NewGame,
    Continue,
}

/// Handles one frame of title screen input: up and down move between the
/// two options (up first), confirm starts a new game or, if available,
/// continues.
pub fn title_screen_input(state: &mut TitleScreenState, keys: TitleKeys) -> (r: TitleChoice)
    ensures
        final(state).continue_available == old(state).continue_available,
        ({
            let after_up = if keys.up && old(state).selected > 0 {
                old(state).selected - 1
            } else {
                old(state).selected as int
            };
            let after_down = if keys.down && after_up < 1 {
                after_up + 1
            } else {
                after_up
            };
            &&& final(state).selected == after_down
            &&& r == if !keys.confirm {
                TitleChoice::Nothing
            } else if after_down == 0 {
                TitleChoice::NewGame
            } else if after_down == 1 && old(state).continue_available {
                TitleChoice::Continue
            } else {
                TitleChoice::Nothing
            }
        }),
{
    if keys.up && state.selected > 0 {
        state.selected = state.selected - 1;
    }
    if keys.down && state.selected < 1 {
        state.selected = state.selected + 1;
    }
    if keys.confirm {
        if state.selected == 0 {
            return TitleChoice::NewGame;
        }
        if state.selected == 1 && state.continue_available {
            return TitleChoice::Continue;
        }
    }
    TitleChoice::Nothing
}

} // verus!
