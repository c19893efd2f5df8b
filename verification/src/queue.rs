//! The action queue: runs a triggered sequence of event actions, one after
//! the other, pausing at actions that block (dialogs, selections, timed
//! shakes and fades, scripted moves, camera pans, waits and jumps) and
//! handing the presentation work to the caller.
use vstd::prelude::*;
use std::collections::VecDeque;
use crate::actions::{
    copy_actions, lemma_view_actions, lemma_view_actions_concat, view_action, action_size, config_view, f32_at_most_zero, lemma_seq_size_concat, seq_size, text_ref_view,
    view_actions, ActionView, ChoiceView, ConfigView, DialogConfigData, DialogTextData,
    entity_target_view, EntityTarget, EntityTargetView, EventAction, FadeType, ScreenShakeMode, TextRefView,
};
use crate::catalog::{AbilityRegistry, CharacterRegistry, ItemRegistry};
use crate::condition::{condition_view_holds, flag_matches, flag_view, opt_view};
use crate::rewards::{
    ability_outcome, currency_outcome, experience_outcome, item_outcome, party_outcome,
    apply_ability, apply_currency, apply_experience, apply_item, apply_party, progress_view,
    texts_view, CharacterProgress, TransferDirection,
};
use crate::strmap::StrMap;

verus! {

/// What the queue waits for before it continues with the next action.
#[derive(Debug, Clone, Copy, PartialEq, Eq, Structural)]
pub enum WaitingFor {
    Nothing,
    Dialog,
    ScreenShake,
    Fade,
    Selection,
    /// A scripted move; the move planner finishes it (see `complete_move`).
    EntityMove,
    /// A camera pan.
    CameraPan,
    /// A pause.
    Wait,
    /// A jump; the jump animation finishes it.
    Jump,
}

/// The remaining actions of the current trigger sequence (front = next).
pub struct ActionQueue {
    pub actions: VecDeque<EventAction>,
    pub waiting_for: WaitingFor,
}

/// The project data that actions consult.
pub struct ProjectCatalog {
    pub items: ItemRegistry,
    pub characters: CharacterRegistry,
    pub abilities: AbilityRegistry,
    /// Face portrait id to image path.
    pub face_portraits: StrMap<String>,
}

/// The game state that actions read and change. A component that is `None`
/// does not exist (yet); actions that need it are skipped.
pub struct GameWorld {
    pub flags: Option<StrMap<String>>,
    pub currency: Option<u64>,
    pub inventory: Option<StrMap<u32>>,
    pub party: Option<Vec<String>>,
    pub progress: Option<StrMap<CharacterProgress>>,
    pub pending_map_change: Option<String>,
    pub pending_target_coords: Option<(u32, u32)>,
    pub pending_target_elevation: Option<u32>,
}

/// The game state as values.
pub struct WorldView {
    pub flags: Option<Map<Seq<char>, Seq<char>>>,
    pub currency: Option<u64>,
    pub inventory: Option<Map<Seq<char>, u32>>,
    pub party: Option<Seq<Seq<char>>>,
    pub progress: Option<Map<Seq<char>, (u64, Seq<Seq<char>>)>>,
    pub pending_map_change: Option<Seq<char>>,
    pub pending_target_coords: Option<(u32, u32)>,
    pub pending_target_elevation: Option<u32>,
}

impl GameWorld {
    pub open spec fn view(&self) -> WorldView {
        WorldView {
            flags: match self.flags {
                Some(f) => Some(flag_view(f.map())),
                None => None,
            },
            currency: self.currency,
            inventory: match self.inventory {
                Some(i) => Some(i.map()),
                None => None,
            },
            party: match self.party {
                Some(p) => Some(texts_view(p@)),
                None => None,
            },
            progress: match self.progress {
                Some(p) => Some(progress_view(p.map())),
                None => None,
            },
            pending_map_change: opt_view(self.pending_map_change),
            pending_target_coords: self.pending_target_coords,
            pending_target_elevation: self.pending_target_elevation,
        }
    }
}

/// Presentation work that an action asks of the caller.
#[derive(Debug)]
pub enum Effect {
    /// Open a dialog box.
    ShowDialog { text: DialogTextData, config: DialogConfigData },
    /// Start shaking the camera.
    StartScreenShake { intensity_bits: u32, duration_bits: u32, mode: ScreenShakeMode },
    /// Stop any camera shake.
    StopScreenShake,
    /// Cover the screen with an overlay of this color, opaque or transparent.
    SpawnFadeOverlay { color_bits: (u32, u32, u32), opaque: bool },
    /// Remove the fade overlays.
    DespawnFadeOverlays,
    /// Animate the overlay's opacity.
    StartFade { fade_type: FadeType, duration_bits: u32, color_bits: (u32, u32, u32) },
    /// Show or hide the player character.
    SetPlayerVisible { visible: bool },
    /// Open the selection box with the resolved prompt and portrait.
    ShowSelection { prompt: String, config: DialogConfigData, portrait_path: Option<String> },
    /// Start walking an entity to a tile.
    StartEntityMove { target: EntityTarget, target_x: u32, target_y: u32, speed_bits: u32 },
    /// Make the camera follow an entity.
    FollowEntity { target: EntityTarget },
    /// Start panning the camera to a tile.
    StartCameraPan { target_x: u32, target_y: u32, duration_bits: u32 },
    /// Start a pause.
    StartWait { duration_bits: u32 },
    /// Start the player's jump.
    StartJump { distance: u32 },
    /// Set the movement speed multiplier.
    SetSpeed { multiplier_bits: u32 },
}

/// Presentation work as values.
pub enum EffectView {
    ShowDialog { text: TextRefView, config: ConfigView },
    StartScreenShake { intensity_bits: u32, duration_bits: u32, mode: ScreenShakeMode },
    StopScreenShake,
    SpawnFadeOverlay { color_bits: (u32, u32, u32), opaque: bool },
    DespawnFadeOverlays,
    StartFade { fade_type: FadeType, duration_bits: u32, color_bits: (u32, u32, u32) },
    SetPlayerVisible { visible: bool },
    ShowSelection { prompt: Seq<char>, config: ConfigView, portrait_path: Option<Seq<char>> },
    StartEntityMove { target: EntityTargetView, target_x: u32, target_y: u32, speed_bits: u32 },
    FollowEntity { target: EntityTargetView },
    StartCameraPan { target_x: u32, target_y: u32, duration_bits: u32 },
    StartWait { duration_bits: u32 },
    StartJump { distance: u32 },
    SetSpeed { multiplier_bits: u32 },
}

pub open spec fn effect_view(e: Effect) -> EffectView {
    match e {
        Effect::ShowDialog { text, config } => EffectView::ShowDialog {
            text: text_ref_view(text),
            config: config_view(config),
        },
        Effect::StartScreenShake { intensity_bits, duration_bits, mode } =>
            EffectView::StartScreenShake { intensity_bits, duration_bits, mode },
        Effect::StopScreenShake => EffectView::StopScreenShake,
        Effect::SpawnFadeOverlay { color_bits, opaque } => EffectView::SpawnFadeOverlay {
            color_bits,
            opaque,
        },
        Effect::DespawnFadeOverlays => EffectView::DespawnFadeOverlays,
        Effect::StartFade { fade_type, duration_bits, color_bits } => EffectView::StartFade {
            fade_type,
            duration_bits,
            color_bits,
        },
        Effect::SetPlayerVisible { visible } => EffectView::SetPlayerVisible { visible },
        Effect::ShowSelection { prompt, config, portrait_path } => EffectView::ShowSelection {
            prompt: prompt@,
            config: config_view(config),
            portrait_path: opt_view(portrait_path),
        },
        Effect::StartEntityMove { target, target_x, target_y, speed_bits } => EffectView::StartEntityMove {
            target: entity_target_view(target),
            target_x,
            target_y,
            speed_bits,
        },
        Effect::FollowEntity { target } => EffectView::FollowEntity { target: entity_target_view(target) },
        Effect::StartCameraPan { target_x, target_y, duration_bits } => EffectView::StartCameraPan {
            target_x,
            target_y,
            duration_bits,
        },
        Effect::StartWait { duration_bits } => EffectView::StartWait { duration_bits },
        Effect::StartJump { distance } => EffectView::StartJump { distance },
        Effect::SetSpeed { multiplier_bits } => EffectView::SetSpeed { multiplier_bits },
    }
}

pub open spec fn effects_view(s: Seq<Effect>) -> Seq<EffectView> {
    s.map_values(|e: Effect| effect_view(e))
}

/// A selection option whose label has been resolved to its text.
pub struct ResolvedChoice {
    pub label: String,
    pub actions: Vec<EventAction>,
}

/// An active selection prompt.
pub struct SelectionState {
    /// Index of the focused choice.
    pub cursor_index: usize,
    /// Number of choices.
    pub choice_count: usize,
    pub choices: Vec<ResolvedChoice>,
}

/// A selection prompt as values: cursor, count, and each choice's label
/// and actions.
pub struct SelectionView {
    pub cursor_index: nat,
    pub choice_count: nat,
    pub choices: Seq<(Seq<char>, Seq<ActionView>)>,
}

pub open spec fn resolved_choice_view(c: ResolvedChoice) -> (Seq<char>, Seq<ActionView>) {
    (c.label@, view_actions(c.actions@))
}

pub open spec fn resolved_views(s: Seq<ResolvedChoice>) -> Seq<(Seq<char>, Seq<ActionView>)> {
    s.map_values(|c: ResolvedChoice| resolved_choice_view(c))
}

pub open spec fn selection_view(s: SelectionState) -> SelectionView {
    SelectionView {
        cursor_index: s.cursor_index as nat,
        choice_count: s.choice_count as nat,
        choices: resolved_views(s.choices@),
    }
}

/// What is currently presented: these block the queue while it waits.
#[derive(Debug, Clone, Copy, PartialEq, Eq, Structural)]
pub struct ActiveEffects {
    pub dialog: bool,
    pub screen_shake: bool,
    pub fade: bool,
    pub selection: bool,
    pub camera_pan: bool,
    pub wait: bool,
}

/// The project data as values: item stacking rules, known characters and
/// abilities, portrait paths.
pub struct CatalogView {
    pub items: Map<Seq<char>, (bool, u32)>,
    pub characters: Set<Seq<char>>,
    pub abilities: Set<Seq<char>>,
    pub face_portraits: Map<Seq<char>, Seq<char>>,
}

pub open spec fn catalog_view(c: ProjectCatalog) -> CatalogView {
    CatalogView {
        items: c.items.items.map().map_values(|i: crate::catalog::Item| (i.stackable, i.stack_limit)),
        characters: c.characters.characters.map().dom(),
        abilities: c.abilities.abilities.map().dom(),
        face_portraits: flag_view(c.face_portraits.map()),
    }
}

pub open spec fn opt_catalog_view(c: Option<&ProjectCatalog>) -> Option<CatalogView> {
    match c {
        Some(p) => Some(catalog_view(*p)),
        None => None,
    }
}

pub open spec fn opt_texts_view(t: Option<&StrMap<String>>) -> Option<Map<Seq<char>, Seq<char>>> {
    match t {
        Some(m) => Some(flag_view(m.map())),
        None => None,
    }
}

// ─── One step ────────────────────────────────────────────────────────────────

/// The result of running the front action.
pub enum StepView {
    /// The action is done; continue with `queue`.
    Next { queue: Seq<ActionView>, world: WorldView, effects: Seq<EffectView> },
    /// Stop processing for this frame.
    Stop {
        queue: Seq<ActionView>,
        world: WorldView,
        waiting: WaitingFor,
        effects: Seq<EffectView>,
        selection: Option<SelectionView>,
    },
}

/// The branch that an outcome selects (none, success or failure).
pub open spec fn branch_for(
    outcome: Option<bool>,
    on_success: Seq<ActionView>,
    on_failure: Seq<ActionView>,
) -> Seq<ActionView> {
    match outcome {
        None => Seq::empty(),
        Some(true) => on_success,
        Some(false) => on_failure,
    }
}

/// Resolves dialog text against the registry: inline text as is, an id to
/// its registered text (none when the id is unknown).
pub open spec fn resolve_text(t: TextRefView, texts: Option<Map<Seq<char>, Seq<char>>>) -> Option<
    Seq<char>,
> {
    match t {
        TextRefView::Inline(s) => Some(s),
        TextRefView::Id(id) => match texts {
            Some(m) => if m.contains_key(id) {
                Some(m[id])
            } else {
                None
            },
            None => None,
        },
    }
}

/// All choice labels resolve.
pub open spec fn labels_resolve(choices: Seq<ChoiceView>, texts: Option<Map<Seq<char>, Seq<char>>>) -> bool {
    forall|i: int| 0 <= i < choices.len() ==> resolve_text((#[trigger] choices[i]).label, texts) is Some
}

/// The selection prompt built from resolved choices.
pub open spec fn resolved_choices(choices: Seq<ChoiceView>, texts: Option<Map<Seq<char>, Seq<char>>>) -> Seq<
    (Seq<char>, Seq<ActionView>),
> {
    choices.map_values(|c: ChoiceView| (resolve_text(c.label, texts)->0, c.actions))
}

/// The image path of the configured face portrait, if it is registered.
pub open spec fn portrait_path(config: ConfigView, catalog: Option<CatalogView>) -> Option<Seq<char>> {
    match config.face_portrait {
        Some(pid) => match catalog {
            Some(c) => if c.face_portraits.contains_key(pid) {
                Some(c.face_portraits[pid])
            } else {
                None
            },
            None => None,
        },
        None => None,
    }
}

/// Opening a selection prompt: `None` when the prompt or a choice label
/// does not resolve; otherwise the presentation effect and the prompt state
/// (cursor on the first choice).
pub open spec fn selection_outcome(
    prompt: TextRefView,
    config: ConfigView,
    choices: Seq<ChoiceView>,
    catalog: Option<CatalogView>,
    texts: Option<Map<Seq<char>, Seq<char>>>,
) -> Option<(EffectView, SelectionView)> {
    if resolve_text(prompt, texts) is None || !labels_resolve(choices, texts) {
        None
    } else {
        Some(
            (
                EffectView::ShowSelection {
                    prompt: resolve_text(prompt, texts)->0,
                    config,
                    portrait_path: portrait_path(config, catalog),
                },
                SelectionView {
                    cursor_index: 0,
                    choice_count: choices.len(),
                    choices: resolved_choices(choices, texts),
                },
            ),
        )
    }
}

pub open spec fn set_flag(flags: Option<Map<Seq<char>, Seq<char>>>, key: Seq<char>, value: Seq<char>) -> Map<
    Seq<char>,
    Seq<char>,
> {
    match flags {
        Some(f) => f.insert(key, value),
        None => Map::empty().insert(key, value),
    }
}

/// Runs the front action of `q` (which must be non-empty).
pub open spec fn step(
    q: Seq<ActionView>,
    w: WorldView,
    catalog: Option<CatalogView>,
    texts: Option<Map<Seq<char>, Seq<char>>>,
    selection_active: bool,
) -> StepView {
    let rest = q.drop_first();
    let none = Seq::<EffectView>::empty();
    match q[0] {
        ActionView::ShowDialog { text, config } => if text is Id && resolve_text(text, texts) is None {
            StepView::Next { queue: rest, world: w, effects: none }
        } else {
            StepView::Stop {
                queue: q,
                world: w,
                waiting: WaitingFor::Dialog,
                effects: seq![EffectView::ShowDialog { text, config }],
                selection: None,
            }
        },
        ActionView::JumpTo { target_map_id, target_x, target_y, target_elevation } => StepView::Stop {
            queue: rest,
            world: WorldView {
                pending_map_change: Some(target_map_id),
                pending_target_coords: Some((target_x, target_y)),
                pending_target_elevation: target_elevation,
                ..w
            },
            waiting: WaitingFor::Nothing,
            effects: none,
            selection: None,
        },
        ActionView::ScreenShake { intensity_bits, duration_bits, mode } => match mode {
            ScreenShakeMode::Timed => if f32_at_most_zero(duration_bits) {
                StepView::Next { queue: rest, world: w, effects: none }
            } else {
                StepView::Stop {
                    queue: q,
                    world: w,
                    waiting: WaitingFor::ScreenShake,
                    effects: seq![
                        EffectView::StartScreenShake { intensity_bits, duration_bits, mode },
                    ],
                    selection: None,
                }
            },
            ScreenShakeMode::Continuous => StepView::Next {
                queue: rest,
                world: w,
                effects: seq![EffectView::StartScreenShake { intensity_bits, duration_bits, mode }],
            },
        },
        ActionView::StopScreenShake => StepView::Next {
            queue: rest,
            world: w,
            effects: seq![EffectView::StopScreenShake],
        },
        ActionView::FadeTransition { fade_type, duration_bits, color_bits } => if f32_at_most_zero(
            duration_bits,
        ) {
            StepView::Next {
                queue: rest,
                world: w,
                effects: match fade_type {
                    FadeType::FadeOut => seq![EffectView::SpawnFadeOverlay { color_bits, opaque: true }],
                    FadeType::FadeIn => seq![EffectView::DespawnFadeOverlays],
                },
            }
        } else {
            StepView::Stop {
                queue: q,
                world: w,
                waiting: WaitingFor::Fade,
                effects: seq![
                    EffectView::SpawnFadeOverlay {
                        color_bits,
                        opaque: fade_type == FadeType::FadeIn,
                    },
                    EffectView::StartFade { fade_type, duration_bits, color_bits },
                ],
                selection: None,
            }
        },
        ActionView::SetState { key, value } => if key.len() == 0 {
            StepView::Next { queue: rest, world: w, effects: none }
        } else {
            StepView::Next {
                queue: rest,
                world: WorldView { flags: Some(set_flag(w.flags, key, value)), ..w },
                effects: none,
            }
        },
        ActionView::SetPlayerAppearance { appearance } => StepView::Next {
            queue: rest,
            world: w,
            effects: seq![EffectView::SetPlayerVisible { visible: !(appearance is Hidden) }],
        },
        ActionView::StateCheck { key, value, on_true, on_false } => {
            let matched = match w.flags {
                Some(f) => flag_matches(f, key, value),
                None => false,
            };
            StepView::Next {
                queue: (if matched {
                    on_true
                } else {
                    on_false
                }) + rest,
                world: w,
                effects: none,
            }
        },
        ActionView::Branch { condition, on_true, on_false } => {
            let flags = match w.flags {
                Some(f) => f,
                None => Map::empty(),
            };
            StepView::Next {
                queue: (if condition_view_holds(flags, condition) {
                    on_true
                } else {
                    on_false
                }) + rest,
                world: w,
                effects: none,
            }
        },
        ActionView::ShowSelection { prompt, config, choices } => if selection_active {
            StepView::Stop {
                queue: q,
                world: w,
                waiting: WaitingFor::Nothing,
                effects: none,
                selection: None,
            }
        } else {
            match selection_outcome(prompt, config, choices, catalog, texts) {
                None => StepView::Next { queue: rest, world: w, effects: none },
                Some((effect, selection)) => StepView::Stop {
                    queue: q,
                    world: w,
                    waiting: WaitingFor::Selection,
                    effects: seq![effect],
                    selection: Some(selection),
                },
            }
        },
        ActionView::GiveCurrency { amount, direction, on_success, on_failure } => match w.currency {
            Some(b) => {
                let (nb, outcome) = currency_outcome(b, amount, direction);
                StepView::Next {
                    queue: branch_for(outcome, on_success, on_failure) + rest,
                    world: WorldView { currency: Some(nb), ..w },
                    effects: none,
                }
            },
            None => StepView::Next { queue: rest, world: w, effects: none },
        },
        ActionView::LearnAbility { ability_id, target, direction, on_success, on_failure } => {
            let known = match catalog {
                Some(c) => c.abilities.contains(ability_id),
                None => false,
            };
            match w.progress {
                Some(p) => if known {
                    let (np, outcome) = ability_outcome(p, target, ability_id, direction);
                    StepView::Next {
                        queue: branch_for(outcome, on_success, on_failure) + rest,
                        world: WorldView { progress: Some(np), ..w },
                        effects: none,
                    }
                } else {
                    StepView::Next { queue: rest, world: w, effects: none }
                },
                None => StepView::Next { queue: rest, world: w, effects: none },
            }
        },
        ActionView::AddPartyMember { character_id, direction, on_success, on_failure } => {
            let known = match catalog {
                Some(c) => c.characters.contains(character_id),
                None => false,
            };
            match w.party {
                Some(p) => if known {
                    let (np, outcome) = party_outcome(p, character_id, direction);
                    StepView::Next {
                        queue: branch_for(outcome, on_success, on_failure) + rest,
                        world: WorldView { party: Some(np), ..w },
                        effects: none,
                    }
                } else {
                    StepView::Next { queue: rest, world: w, effects: none }
                },
                None => StepView::Next { queue: rest, world: w, effects: none },
            }
        },
        ActionView::GiveItem { item_id, quantity, direction, on_success, on_failure } => {
            match catalog {
                Some(c) => if c.items.contains_key(item_id) {
                    match w.inventory {
                        Some(inv) => {
                            let (stackable, limit) = c.items[item_id];
                            let (ni, ok) = item_outcome(inv, item_id, quantity, stackable, limit, direction);
                            StepView::Next {
                                queue: branch_for(Some(ok), on_success, on_failure) + rest,
                                world: WorldView { inventory: Some(ni), ..w },
                                effects: none,
                            }
                        },
                        None => StepView::Next { queue: rest, world: w, effects: none },
                    }
                } else {
                    StepView::Next { queue: rest, world: w, effects: none }
                },
                None => StepView::Next { queue: rest, world: w, effects: none },
            }
        },
        ActionView::GiveExperience { amount, target, direction, on_success, on_failure } => {
            match w.progress {
                Some(p) => {
                    let (np, outcome) = experience_outcome(p, w.party, target, amount, direction);
                    StepView::Next {
                        queue: branch_for(outcome, on_success, on_failure) + rest,
                        world: WorldView { progress: Some(np), ..w },
                        effects: none,
                    }
                },
                None => StepView::Next { queue: rest, world: w, effects: none },
            }
        },
        ActionView::MoveEntity { target, target_x, target_y, speed_bits } => StepView::Stop {
            queue: q,
            world: w,
            waiting: WaitingFor::EntityMove,
            effects: seq![EffectView::StartEntityMove { target, target_x, target_y, speed_bits }],
            selection: None,
        },
        ActionView::CameraFollow { target } => StepView::Next {
            queue: rest,
            world: w,
            effects: seq![EffectView::FollowEntity { target }],
        },
        ActionView::CameraPan { target_x, target_y, duration_bits } => StepView::Stop {
            queue: q,
            world: w,
            waiting: WaitingFor::CameraPan,
            effects: seq![EffectView::StartCameraPan { target_x, target_y, duration_bits }],
            selection: None,
        },
        ActionView::Wait { duration_bits } => StepView::Stop {
            queue: q,
            world: w,
            waiting: WaitingFor::Wait,
            effects: seq![EffectView::StartWait { duration_bits }],
            selection: None,
        },
        ActionView::Jump { distance } => StepView::Stop {
            queue: q,
            world: w,
            waiting: WaitingFor::Jump,
            effects: seq![EffectView::StartJump { distance }],
            selection: None,
        },
        ActionView::SetSpeed { multiplier_bits } => StepView::Next {
            queue: rest,
            world: w,
            effects: seq![EffectView::SetSpeed { multiplier_bits }],
        },
    }
}

/// Continuing after an action never grows the remaining work.
pub proof fn lemma_step_decreases(
    q: Seq<ActionView>,
    w: WorldView,
    catalog: Option<CatalogView>,
    texts: Option<Map<Seq<char>, Seq<char>>>,
    selection_active: bool,
)
    requires
        q.len() > 0,
    ensures
        step(q, w, catalog, texts, selection_active) matches StepView::Next { queue, .. } ==> seq_size(queue)
            < seq_size(q),
{
    let rest = q.drop_first();
    assert(seq_size(q) == action_size(q[0]) + seq_size(rest));
    match q[0] {
        ActionView::StateCheck { on_true, on_false, .. } => {
            lemma_seq_size_concat(on_true, rest);
            lemma_seq_size_concat(on_false, rest);
        },
        ActionView::Branch { on_true, on_false, .. } => {
            lemma_seq_size_concat(on_true, rest);
            lemma_seq_size_concat(on_false, rest);
        },
        ActionView::GiveCurrency { on_success, on_failure, .. } => {
            lemma_seq_size_concat(on_success, rest);
            lemma_seq_size_concat(on_failure, rest);
            lemma_seq_size_concat(Seq::empty(), rest);
        },
        ActionView::LearnAbility { on_success, on_failure, .. } => {
            lemma_seq_size_concat(on_success, rest);
            lemma_seq_size_concat(on_failure, rest);
            lemma_seq_size_concat(Seq::empty(), rest);
        },
        ActionView::AddPartyMember { on_success, on_failure, .. } => {
            lemma_seq_size_concat(on_success, rest);
            lemma_seq_size_concat(on_failure, rest);
            lemma_seq_size_concat(Seq::empty(), rest);
        },
        ActionView::GiveItem { on_success, on_failure, .. } => {
            lemma_seq_size_concat(on_success, rest);
            lemma_seq_size_concat(on_failure, rest);
        },
        ActionView::GiveExperience { on_success, on_failure, .. } => {
            lemma_seq_size_concat(on_success, rest);
            lemma_seq_size_concat(on_failure, rest);
            lemma_seq_size_concat(Seq::empty(), rest);
        },
        _ => {},
    }
}

// ─── Running until a pause ───────────────────────────────────────────────────

/// Where running the queue stops.
pub struct RunView {
    pub queue: Seq<ActionView>,
    pub world: WorldView,
    pub waiting: WaitingFor,
    pub effects: Seq<EffectView>,
    pub selection: Option<SelectionView>,
    /// The sequence is complete and the queue can be discarded.
    pub finished: bool,
}

/// Runs actions from the front of `q` until one blocks or none are left.
pub open spec fn run(
    q: Seq<ActionView>,
    w: WorldView,
    catalog: Option<CatalogView>,
    texts: Option<Map<Seq<char>, Seq<char>>>,
    selection_active: bool,
) -> RunView
    decreases seq_size(q),
{
    if q.len() == 0 {
        RunView {
            queue: q,
            world: w,
            waiting: WaitingFor::Nothing,
            effects: Seq::empty(),
            selection: None,
            finished: true,
        }
    } else {
        match step(q, w, catalog, texts, selection_active) {
            StepView::Next { queue, world, effects } => {
                proof {
                    lemma_step_decreases(q, w, catalog, texts, selection_active);
                }
                let r = run(queue, world, catalog, texts, selection_active);
                RunView { effects: effects + r.effects, ..r }
            },
            StepView::Stop { queue, world, waiting, effects, selection } => RunView {
                queue,
                world,
                waiting,
                effects,
                selection,
                finished: false,
            },
        }
    }
}

/// The queue without its front action (unchanged when empty).
pub open spec fn pop_front(q: Seq<ActionView>) -> Seq<ActionView> {
    if q.len() > 0 {
        q.drop_first()
    } else {
        q
    }
}

/// Whether the presentation the queue waits for is still active. A
/// scripted move and a jump are finished by their own planners, which drop
/// the action; until then the queue waits.
pub open spec fn still_waiting(waiting: WaitingFor, active: ActiveEffects) -> bool {
    match waiting {
        WaitingFor::Nothing => false,
        WaitingFor::Dialog => active.dialog,
        WaitingFor::ScreenShake => active.screen_shake,
        WaitingFor::Fade => active.fade,
        WaitingFor::Selection => active.selection,
        WaitingFor::EntityMove => true,
        WaitingFor::CameraPan => active.camera_pan,
        WaitingFor::Wait => active.wait,
        WaitingFor::Jump => true,
    }
}

/// One frame of the action queue: if the awaited presentation is still
/// active nothing happens; otherwise the awaited action is dropped and the
/// queue runs until an action blocks or the sequence is complete.
pub open spec fn advance(
    q: Seq<ActionView>,
    waiting: WaitingFor,
    w: WorldView,
    catalog: Option<CatalogView>,
    texts: Option<Map<Seq<char>, Seq<char>>>,
    active: ActiveEffects,
) -> RunView {
    if still_waiting(waiting, active) {
        RunView {
            queue: q,
            world: w,
            waiting,
            effects: Seq::empty(),
            selection: None,
            finished: false,
        }
    } else {
        run(
            if waiting == WaitingFor::Nothing {
                q
            } else {
                pop_front(q)
            },
            w,
            catalog,
            texts,
            active.selection,
        )
    }
}

// ─── Chaining ────────────────────────────────────────────────────────────────

/// The action never pauses the queue: flag, appearance and reward actions
/// (with all their branches), a continuous or zero-length shake, a
/// zero-length fade, stopping a shake, following with the camera and setting
/// the speed.
pub open spec fn runs_through(a: ActionView) -> bool
    decreases a,
{
    match a {
        ActionView::ScreenShake { duration_bits, mode, .. } => mode == ScreenShakeMode::Continuous
            || f32_at_most_zero(duration_bits),
        ActionView::StopScreenShake => true,
        ActionView::FadeTransition { duration_bits, .. } => f32_at_most_zero(duration_bits),
        ActionView::SetState { .. } => true,
        ActionView::SetPlayerAppearance { .. } => true,
        ActionView::StateCheck { on_true, on_false, .. } => seq_runs_through(on_true) && seq_runs_through(
            on_false,
        ),
        ActionView::Branch { on_true, on_false, .. } => seq_runs_through(on_true) && seq_runs_through(on_false),
        ActionView::GiveCurrency { on_success, on_failure, .. } => seq_runs_through(on_success)
            && seq_runs_through(on_failure),
        ActionView::LearnAbility { on_success, on_failure, .. } => seq_runs_through(on_success)
            && seq_runs_through(on_failure),
        ActionView::AddPartyMember { on_success, on_failure, .. } => seq_runs_through(on_success)
            && seq_runs_through(on_failure),
        ActionView::GiveItem { on_success, on_failure, .. } => seq_runs_through(on_success)
            && seq_runs_through(on_failure),
        ActionView::GiveExperience { on_success, on_failure, .. } => seq_runs_through(on_success)
            && seq_runs_through(on_failure),
        ActionView::CameraFollow { .. } => true,
        ActionView::SetSpeed { .. } => true,
        _ => false,
    }
}

/// Every action of the sequence runs through.
pub open spec fn seq_runs_through(s: Seq<ActionView>) -> bool
    decreases s,
{
    if s.len() == 0 {
        true
    } else {
        runs_through(s[0]) && seq_runs_through(s.drop_first())
    }
}

pub proof fn lemma_seq_runs_through_concat(a: Seq<ActionView>, b: Seq<ActionView>)
    requires
        seq_runs_through(a),
        seq_runs_through(b),
    ensures
        seq_runs_through(a + b),
    decreases a.len(),
{
    if a.len() > 0 {
        assert((a + b).drop_first() =~= a.drop_first() + b);
        assert((a + b)[0] == a[0]);
        lemma_seq_runs_through_concat(a.drop_first(), b);
    }
}

/// A step on an action that runs through continues with actions that all
/// run through.
proof fn lemma_step_runs_through(
    q: Seq<ActionView>,
    w: WorldView,
    catalog: Option<CatalogView>,
    texts: Option<Map<Seq<char>, Seq<char>>>,
    selection_active: bool,
)
    requires
        q.len() > 0,
        seq_runs_through(q),
    ensures
        step(q, w, catalog, texts, selection_active) matches StepView::Next { queue, .. } && seq_runs_through(queue),
{
    let rest = q.drop_first();
    assert(runs_through(q[0]) && seq_runs_through(rest));
    let e = Seq::<ActionView>::empty();
    assert(seq_runs_through(e));
    match q[0] {
        ActionView::StateCheck { on_true, on_false, .. } => {
            lemma_seq_runs_through_concat(on_true, rest);
            lemma_seq_runs_through_concat(on_false, rest);
        },
        ActionView::Branch { on_true, on_false, .. } => {
            lemma_seq_runs_through_concat(on_true, rest);
            lemma_seq_runs_through_concat(on_false, rest);
        },
        ActionView::GiveCurrency { on_success, on_failure, .. } => {
            lemma_seq_runs_through_concat(on_success, rest);
            lemma_seq_runs_through_concat(on_failure, rest);
            lemma_seq_runs_through_concat(e, rest);
        },
        ActionView::LearnAbility { on_success, on_failure, .. } => {
            lemma_seq_runs_through_concat(on_success, rest);
            lemma_seq_runs_through_concat(on_failure, rest);
            lemma_seq_runs_through_concat(e, rest);
        },
        ActionView::AddPartyMember { on_success, on_failure, .. } => {
            lemma_seq_runs_through_concat(on_success, rest);
            lemma_seq_runs_through_concat(on_failure, rest);
            lemma_seq_runs_through_concat(e, rest);
        },
        ActionView::GiveItem { on_success, on_failure, .. } => {
            lemma_seq_runs_through_concat(on_success, rest);
            lemma_seq_runs_through_concat(on_failure, rest);
        },
        ActionView::GiveExperience { on_success, on_failure, .. } => {
            lemma_seq_runs_through_concat(on_success, rest);
            lemma_seq_runs_through_concat(on_failure, rest);
            lemma_seq_runs_through_concat(e, rest);
        },
        _ => {},
    }
}

/// Actions that never pause chain within a single frame: running a queue
/// of them completes the whole sequence, branches included.
pub proof fn law_non_blocking_actions_chain(
    q: Seq<ActionView>,
    w: WorldView,
    catalog: Option<CatalogView>,
    texts: Option<Map<Seq<char>, Seq<char>>>,
    selection_active: bool,
)
    requires
        seq_runs_through(q),
    ensures
        run(q, w, catalog, texts, selection_active).finished,
        run(q, w, catalog, texts, selection_active).queue.len() == 0,
        run(q, w, catalog, texts, selection_active).waiting == WaitingFor::Nothing,
        run(q, w, catalog, texts, selection_active).selection is None,
    decreases seq_size(q),
{
    if q.len() > 0 {
        lemma_step_runs_through(q, w, catalog, texts, selection_active);
        lemma_step_decreases(q, w, catalog, texts, selection_active);
        match step(q, w, catalog, texts, selection_active) {
            StepView::Next { queue, world, .. } => {
                law_non_blocking_actions_chain(queue, world, catalog, texts, selection_active);
            },
            _ => {},
        }
    }
}

/// While the presentation that a blocking action waits for is still active,
/// a frame leaves the queue, the game state and the waiting state as they
/// were and produces no presentation work; once it is over, the awaited
/// action is dropped before the queue runs on.
pub proof fn law_waiting_frame_changes_nothing(
    q: Seq<ActionView>,
    waiting: WaitingFor,
    w: WorldView,
    catalog: Option<CatalogView>,
    texts: Option<Map<Seq<char>, Seq<char>>>,
    active: ActiveEffects,
)
    ensures
        still_waiting(waiting, active) ==> {
            let r = advance(q, waiting, w, catalog, texts, active);
            &&& r.queue == q
            &&& r.world == w
            &&& r.waiting == waiting
            &&& r.effects.len() == 0
            &&& !r.finished
        },
        !still_waiting(waiting, active) && waiting != WaitingFor::Nothing ==> advance(q, waiting, w, catalog, texts, active)
            == run(pop_front(q), w, catalog, texts, active.selection),
{
}

/// A scripted move holds up its sequence: the frame that reaches it starts
/// the move and waits with the move still at the front, every later frame
/// changes nothing while the queue waits for it, and once the move is
/// complete (dropped from the front, the queue no longer waiting) the next
/// frame goes on with the actions after it.
pub proof fn law_entity_move_blocks(
    target: EntityTargetView,
    target_x: u32,
    target_y: u32,
    speed_bits: u32,
    rest: Seq<ActionView>,
    w: WorldView,
    catalog: Option<CatalogView>,
    texts: Option<Map<Seq<char>, Seq<char>>>,
    active: ActiveEffects,
)
    ensures
        ({
            let q = seq![ActionView::MoveEntity { target, target_x, target_y, speed_bits }] + rest;
            let started = advance(q, WaitingFor::Nothing, w, catalog, texts, active);
            let waiting = advance(q, WaitingFor::EntityMove, w, catalog, texts, active);
            &&& started.queue == q
            &&& started.world == w
            &&& started.waiting == WaitingFor::EntityMove
            &&& started.effects == seq![EffectView::StartEntityMove { target, target_x, target_y, speed_bits }]
            &&& !started.finished
            &&& waiting.queue == q
            &&& waiting.world == w
            &&& waiting.waiting == WaitingFor::EntityMove
            &&& waiting.effects.len() == 0
            &&& !waiting.finished
            &&& advance(pop_front(q), WaitingFor::Nothing, w, catalog, texts, active) == run(
                rest,
                w,
                catalog,
                texts,
                active.selection,
            )
        }),
{
    let q = seq![ActionView::MoveEntity { target, target_x, target_y, speed_bits }] + rest;
    assert(q[0] == ActionView::MoveEntity { target, target_x, target_y, speed_bits });
    assert(pop_front(q) =~= rest);
}

/// Completing a move on the executable queue drops exactly the action that
/// the queue model drops when the awaited action is done.
pub proof fn law_complete_move_pops_front(actions: Seq<EventAction>)
    ensures
        view_actions(popped(actions)) == pop_front(view_actions(actions)),
{
    if actions.len() > 0 {
        lemma_view_actions_drop_first(actions);
    } else {
        lemma_view_actions(actions);
    }
}

/// A state check branches on one flag. With an expected value, the true
/// branch runs exactly when the flag is set to that value: a flag that is
/// missing, or set to any other value, runs the false branch. Without an
/// expected value, the true branch runs exactly when the flag is set. The
/// branch runs before the rest of the sequence, in the same frame, and the
/// game state is left as it was.
pub proof fn law_state_check_branches(
    key: Seq<char>,
    value: Option<Seq<char>>,
    on_true: Seq<ActionView>,
    on_false: Seq<ActionView>,
    rest: Seq<ActionView>,
    w: WorldView,
    catalog: Option<CatalogView>,
    texts: Option<Map<Seq<char>, Seq<char>>>,
    selection_active: bool,
)
    ensures
        ({
            let q = seq![ActionView::StateCheck { key, value, on_true, on_false }] + rest;
            let is_set = w.flags is Some && w.flags.unwrap().contains_key(key);
            let taken = match value {
                Some(v) => is_set && w.flags.unwrap()[key] == v,
                None => is_set,
            };
            step(q, w, catalog, texts, selection_active) == (StepView::Next {
                queue: (if taken {
                    on_true
                } else {
                    on_false
                }) + rest,
                world: w,
                effects: Seq::empty(),
            })
        }),
        ({
            let q = seq![ActionView::StateCheck { key, value, on_true, on_false }] + rest;
            (value is Some && w.flags is Some && w.flags.unwrap().contains_key(key) && w.flags.unwrap()[key]
                != value.unwrap()) ==> step(q, w, catalog, texts, selection_active) == (StepView::Next {
                queue: on_false + rest,
                world: w,
                effects: Seq::empty(),
            })
        }),
{
    let q = seq![ActionView::StateCheck { key, value, on_true, on_false }] + rest;
    assert(q[0] == ActionView::StateCheck { key, value, on_true, on_false });
    assert(q.drop_first() =~= rest);
}

/// A learn-ability action, for a known ability and a character with
/// progress that knows it at most once: learning leaves it known exactly
/// once and selects no branch, so the rest of the sequence follows; forgetting
/// leaves it unknown and runs the success branch when it was known, else
/// leaves the game state as it was and runs the failure branch, before the
/// rest. Nothing but the character's progress changes.
pub proof fn law_learn_ability_step(
    ability_id: Seq<char>,
    target: Seq<char>,
    direction: TransferDirection,
    on_success: Seq<ActionView>,
    on_failure: Seq<ActionView>,
    rest: Seq<ActionView>,
    w: WorldView,
    catalog: CatalogView,
    texts: Option<Map<Seq<char>, Seq<char>>>,
    selection_active: bool,
)
    requires
        catalog.abilities.contains(ability_id),
        w.progress is Some,
        w.progress.unwrap().contains_key(target),
        crate::rewards::at_most_once(w.progress.unwrap()[target].1, ability_id),
    ensures
        ({
            let p = w.progress.unwrap();
            let known = p[target].1.contains(ability_id);
            let q = seq![ActionView::LearnAbility { ability_id, target, direction, on_success, on_failure }] + rest;
            match step(q, w, Some(catalog), texts, selection_active) {
                StepView::Next { queue, world, effects } => {
                    &&& effects.len() == 0
                    &&& world == WorldView { progress: world.progress, ..w }
                    &&& world.progress is Some
                    &&& world.progress.unwrap().contains_key(target)
                    &&& world.progress.unwrap().remove(target) == p.remove(target)
                    &&& direction == TransferDirection::Give ==> {
                        &&& world.progress.unwrap()[target].1.contains(ability_id)
                        &&& crate::rewards::at_most_once(world.progress.unwrap()[target].1, ability_id)
                        &&& queue == rest
                    }
                    &&& direction == TransferDirection::Take ==> {
                        &&& !world.progress.unwrap()[target].1.contains(ability_id)
                        &&& queue == (if known {
                            on_success
                        } else {
                            on_failure
                        }) + rest
                        &&& !known ==> world == w
                    }
                },
                StepView::Stop { .. } => false,
            }
        }),
{
    let q = seq![ActionView::LearnAbility { ability_id, target, direction, on_success, on_failure }] + rest;
    assert(q[0] == ActionView::LearnAbility { ability_id, target, direction, on_success, on_failure });
    assert(q.drop_first() =~= rest);
    crate::rewards::law_ability_membership(w.progress.unwrap(), target, ability_id);
    assert(Seq::<ActionView>::empty() + rest =~= rest);
}

/// An add-party-member action, for a known character listed at most once:
/// adding leaves it a member exactly once and selects no branch, so the
/// rest of the sequence follows; removing leaves it out of the party and
/// runs the success branch when it was a member, else leaves the game
/// state as it was and runs the failure branch, before the rest. Nothing
/// but the party changes.
pub proof fn law_party_member_step(
    character_id: Seq<char>,
    direction: TransferDirection,
    on_success: Seq<ActionView>,
    on_failure: Seq<ActionView>,
    rest: Seq<ActionView>,
    w: WorldView,
    catalog: CatalogView,
    texts: Option<Map<Seq<char>, Seq<char>>>,
    selection_active: bool,
)
    requires
        catalog.characters.contains(character_id),
        w.party is Some,
        crate::rewards::at_most_once(w.party.unwrap(), character_id),
    ensures
        ({
            let p = w.party.unwrap();
            let member = p.contains(character_id);
            let q = seq![ActionView::AddPartyMember { character_id, direction, on_success, on_failure }] + rest;
            match step(q, w, Some(catalog), texts, selection_active) {
                StepView::Next { queue, world, effects } => {
                    &&& effects.len() == 0
                    &&& world == WorldView { party: world.party, ..w }
                    &&& world.party is Some
                    &&& direction == TransferDirection::Give ==> {
                        &&& world.party.unwrap().contains(character_id)
                        &&& crate::rewards::at_most_once(world.party.unwrap(), character_id)
                        &&& queue == rest
                    }
                    &&& direction == TransferDirection::Take ==> {
                        &&& !world.party.unwrap().contains(character_id)
                        &&& queue == (if member {
                            on_success
                        } else {
                            on_failure
                        }) + rest
                        &&& !member ==> world == w
                    }
                },
                StepView::Stop { .. } => false,
            }
        }),
{
    let q = seq![ActionView::AddPartyMember { character_id, direction, on_success, on_failure }] + rest;
    assert(q[0] == ActionView::AddPartyMember { character_id, direction, on_success, on_failure });
    assert(q.drop_first() =~= rest);
    crate::rewards::law_party_membership(w.party.unwrap(), character_id);
    assert(Seq::<ActionView>::empty() + rest =~= rest);
}

/// A frame whose next action is a reward runs it and continues, within the
/// same frame, with the branch it selects followed by the rest of the
/// sequence, on the changed game state.
proof fn lemma_reward_frame(
    a: ActionView,
    rest: Seq<ActionView>,
    w: WorldView,
    catalog: Option<CatalogView>,
    texts: Option<Map<Seq<char>, Seq<char>>>,
    active: ActiveEffects,
    next: Seq<ActionView>,
    w2: WorldView,
)
    requires
        step(seq![a] + rest, w, catalog, texts, active.selection) == (StepView::Next {
            queue: next,
            world: w2,
            effects: Seq::empty(),
        }),
    ensures
        advance(seq![a] + rest, WaitingFor::Nothing, w, catalog, texts, active) == run(
            next,
            w2,
            catalog,
            texts,
            active.selection,
        ),
{
    let r = run(next, w2, catalog, texts, active.selection);
    assert(Seq::<EffectView>::empty() + r.effects =~= r.effects);
}

/// When the rest of a frame never pauses, the sequence completes in it.
proof fn lemma_frame_completes(
    branch: Seq<ActionView>,
    rest: Seq<ActionView>,
    w: WorldView,
    catalog: Option<CatalogView>,
    texts: Option<Map<Seq<char>, Seq<char>>>,
    selection_active: bool,
)
    requires
        seq_runs_through(branch),
        seq_runs_through(rest),
    ensures
        run(branch + rest, w, catalog, texts, selection_active).finished,
        run(branch + rest, w, catalog, texts, selection_active).queue.len() == 0,
{
    lemma_seq_runs_through_concat(branch, rest);
    law_non_blocking_actions_chain(branch + rest, w, catalog, texts, selection_active);
}

/// Taking currency: when the balance covers the amount it is paid and the
/// success branch runs, then the rest of the sequence; otherwise the
/// balance stays and the failure branch runs, then the rest. When the
/// branches and the rest never pause, all of it happens in this frame.
pub proof fn law_currency_take_frame(
    amount: u64,
    on_success: Seq<ActionView>,
    on_failure: Seq<ActionView>,
    rest: Seq<ActionView>,
    w: WorldView,
    balance: u64,
    catalog: Option<CatalogView>,
    texts: Option<Map<Seq<char>, Seq<char>>>,
    active: ActiveEffects,
)
    requires
        w.currency == Some(balance),
    ensures
        ({
            let q = seq![
                ActionView::GiveCurrency {
                    amount,
                    direction: TransferDirection::Take,
                    on_success,
                    on_failure,
                },
            ] + rest;
            let paid = balance >= amount;
            let branch = if paid { on_success } else { on_failure };
            let after = WorldView {
                currency: Some(if paid { (balance - amount) as u64 } else { balance }),
                ..w
            };
            &&& advance(q, WaitingFor::Nothing, w, catalog, texts, active) == run(
                branch + rest,
                after,
                catalog,
                texts,
                active.selection,
            )
            &&& seq_runs_through(on_success) && seq_runs_through(on_failure) && seq_runs_through(rest)
                ==> advance(q, WaitingFor::Nothing, w, catalog, texts, active).finished
        }),
{
    let a = ActionView::GiveCurrency { amount, direction: TransferDirection::Take, on_success, on_failure };
    let q = seq![a] + rest;
    assert(q[0] == a);
    assert(q.drop_first() =~= rest);
    let paid = balance >= amount;
    let branch = if paid { on_success } else { on_failure };
    let after = WorldView { currency: Some(if paid { (balance - amount) as u64 } else { balance }), ..w };
    lemma_reward_frame(a, rest, w, catalog, texts, active, branch + rest, after);
    if seq_runs_through(on_success) && seq_runs_through(on_failure) && seq_runs_through(rest) {
        lemma_frame_completes(branch, rest, after, catalog, texts, active.selection);
    }
}

/// Giving a known item: a new entry receives the quantity up to the stack
/// limit; a held item that is not stackable or already at its limit is
/// left as it is and the failure branch runs; otherwise the held quantity
/// grows by the given one, up to the limit. The selected branch runs, then
/// the rest of the sequence; when none of it pauses, all in this frame.
pub proof fn law_item_give_frame(
    item_id: Seq<char>,
    quantity: u32,
    on_success: Seq<ActionView>,
    on_failure: Seq<ActionView>,
    rest: Seq<ActionView>,
    w: WorldView,
    inventory: Map<Seq<char>, u32>,
    catalog: CatalogView,
    texts: Option<Map<Seq<char>, Seq<char>>>,
    active: ActiveEffects,
)
    requires
        w.inventory == Some(inventory),
        catalog.items.contains_key(item_id),
    ensures
        ({
            let q = seq![
                ActionView::GiveItem {
                    item_id,
                    quantity,
                    direction: TransferDirection::Give,
                    on_success,
                    on_failure,
                },
            ] + rest;
            let (stackable, limit) = catalog.items[item_id];
            let held = inventory.contains_key(item_id);
            let refused = held && (!stackable || inventory[item_id] >= limit);
            let new_qty: int = if held { inventory[item_id] + quantity } else { quantity as int };
            let inv2 = if refused {
                inventory
            } else {
                inventory.insert(item_id, if new_qty < limit { new_qty as u32 } else { limit })
            };
            let branch = if refused { on_failure } else { on_success };
            &&& advance(q, WaitingFor::Nothing, w, Some(catalog), texts, active) == run(
                branch + rest,
                WorldView { inventory: Some(inv2), ..w },
                Some(catalog),
                texts,
                active.selection,
            )
            &&& seq_runs_through(on_success) && seq_runs_through(on_failure) && seq_runs_through(rest)
                ==> advance(q, WaitingFor::Nothing, w, Some(catalog), texts, active).finished
        }),
{
    let a = ActionView::GiveItem { item_id, quantity, direction: TransferDirection::Give, on_success, on_failure };
    let q = seq![a] + rest;
    assert(q[0] == a);
    assert(q.drop_first() =~= rest);
    let (stackable, limit) = catalog.items[item_id];
    let held = inventory.contains_key(item_id);
    let refused = held && (!stackable || inventory[item_id] >= limit);
    let new_qty: int = if held { inventory[item_id] + quantity } else { quantity as int };
    let inv2 = if refused {
        inventory
    } else {
        inventory.insert(item_id, if new_qty < limit { new_qty as u32 } else { limit })
    };
    let branch = if refused { on_failure } else { on_success };
    let after = WorldView { inventory: Some(inv2), ..w };
    lemma_reward_frame(a, rest, w, Some(catalog), texts, active, branch + rest, after);
    if seq_runs_through(on_success) && seq_runs_through(on_failure) && seq_runs_through(rest) {
        lemma_frame_completes(branch, rest, after, Some(catalog), texts, active.selection);
    }
}

/// Taking a known item: when at least the quantity is held it is removed
/// (the entry disappears when nothing is left) and the success branch runs;
/// otherwise the inventory stays and the failure branch runs. The selected
/// branch runs, then the rest of the sequence; when none of it pauses, all
/// in this frame.
pub proof fn law_item_take_frame(
    item_id: Seq<char>,
    quantity: u32,
    on_success: Seq<ActionView>,
    on_failure: Seq<ActionView>,
    rest: Seq<ActionView>,
    w: WorldView,
    inventory: Map<Seq<char>, u32>,
    catalog: CatalogView,
    texts: Option<Map<Seq<char>, Seq<char>>>,
    active: ActiveEffects,
)
    requires
        w.inventory == Some(inventory),
        catalog.items.contains_key(item_id),
    ensures
        ({
            let q = seq![
                ActionView::GiveItem {
                    item_id,
                    quantity,
                    direction: TransferDirection::Take,
                    on_success,
                    on_failure,
                },
            ] + rest;
            let ok = inventory.contains_key(item_id) && inventory[item_id] >= quantity;
            let inv2 = if !ok {
                inventory
            } else if inventory[item_id] == quantity {
                inventory.remove(item_id)
            } else {
                inventory.insert(item_id, (inventory[item_id] - quantity) as u32)
            };
            let branch = if ok { on_success } else { on_failure };
            &&& advance(q, WaitingFor::Nothing, w, Some(catalog), texts, active) == run(
                branch + rest,
                WorldView { inventory: Some(inv2), ..w },
                Some(catalog),
                texts,
                active.selection,
            )
            &&& seq_runs_through(on_success) && seq_runs_through(on_failure) && seq_runs_through(rest)
                ==> advance(q, WaitingFor::Nothing, w, Some(catalog), texts, active).finished
        }),
{
    let a = ActionView::GiveItem { item_id, quantity, direction: TransferDirection::Take, on_success, on_failure };
    let q = seq![a] + rest;
    assert(q[0] == a);
    assert(q.drop_first() =~= rest);
    let ok = inventory.contains_key(item_id) && inventory[item_id] >= quantity;
    let inv2 = if !ok {
        inventory
    } else if inventory[item_id] == quantity {
        inventory.remove(item_id)
    } else {
        inventory.insert(item_id, (inventory[item_id] - quantity) as u32)
    };
    let branch = if ok { on_success } else { on_failure };
    let after = WorldView { inventory: Some(inv2), ..w };
    lemma_reward_frame(a, rest, w, Some(catalog), texts, active, branch + rest, after);
    if seq_runs_through(on_success) && seq_runs_through(on_failure) && seq_runs_through(rest) {
        lemma_frame_completes(branch, rest, after, Some(catalog), texts, active.selection);
    }
}

// ─── Execution ───────────────────────────────────────────────────────────────

pub proof fn lemma_view_actions_drop_first(s: Seq<EventAction>)
    requires
        s.len() > 0,
    ensures
        view_actions(s).drop_first() == view_actions(s.drop_first()),
        view_actions(s)[0] == view_action(s[0]),
        view_actions(s).len() == s.len(),
{
    lemma_view_actions(s);
    assert(view_actions(s).drop_first() =~= view_actions(s.drop_first()));
}

/// Puts `branch` in front of the remaining actions, in order.
pub(crate) fn inject_front(actions: &mut VecDeque<EventAction>, branch: Vec<EventAction>)
    ensures
        view_actions(final(actions)@) == view_actions(branch@) + view_actions(old(actions)@),
{
    let ghost b0 = branch@;
    let ghost a0 = actions@;
    let mut branch = branch;
    while branch.len() > 0
        invariant
            branch@ == b0.take(branch@.len() as int),
            branch@.len() <= b0.len(),
            actions@ == b0.skip(branch@.len() as int) + a0,
        decreases branch@.len(),
    {
        let ghost k = branch@.len();
        let a = branch.pop().unwrap();
        actions.push_front(a);
        assert(actions@ =~= b0.skip(k - 1) + a0);
        assert(branch@ =~= b0.take(k - 1));
    }
    assert(b0.skip(0) =~= b0);
    proof {
        lemma_view_actions_concat(b0, a0);
    }
}

/// Looks up dialog text by id.
fn lookup_text(texts: Option<&StrMap<String>>, id: &String) -> (r: Option<String>)
    ensures
        opt_view(r) == resolve_text(TextRefView::Id(id@), opt_texts_view(texts)),
{
    match texts {
        Some(m) => match m.get(id.as_str()) {
            Some(t) => Some(t.clone()),
            None => None,
        },
        None => None,
    }
}

/// Resolves dialog text: inline text as is, an id through the registry.
fn resolve_dialog_text(t: &DialogTextData, texts: Option<&StrMap<String>>) -> (r: Option<String>)
    ensures
        opt_view(r) == resolve_text(text_ref_view(*t), opt_texts_view(texts)),
{
    match t {
        DialogTextData::Inline(s) => Some(s.clone()),
        DialogTextData::Id(id) => lookup_text(texts, id),
    }
}

/// What happened to the front action.
pub struct StepOutput {
    /// Processing stops for this frame.
    pub stop: bool,
    pub effects: Vec<Effect>,
    pub selection: Option<SelectionState>,
}

/// No party member is listed twice (actions keep a party so; a party read
/// from a save may still repeat a member).
pub open spec fn party_unique(w: WorldView) -> bool {
    w.party matches Some(p) ==> crate::rewards::no_duplicates(p)
}

/// The executable outcome of a step agrees with the step `sv`: `queue`,
/// `waiting` and `world` are what the step left behind.
pub open spec fn step_done(
    sv: StepView,
    out: StepOutput,
    queue: Seq<ActionView>,
    waiting: WaitingFor,
    world: WorldView,
) -> bool {
    match sv {
        StepView::Next { queue: nq, world: nw, effects } => {
            &&& !out.stop
            &&& queue == nq
            &&& waiting == WaitingFor::Nothing
            &&& world == nw
            &&& effects_view(out.effects@) == effects
            &&& out.selection is None
        },
        StepView::Stop { queue: nq, world: nw, waiting: nwait, effects, selection } => {
            &&& out.stop
            &&& queue == nq
            &&& waiting == nwait
            &&& world == nw
            &&& effects_view(out.effects@) == effects
            &&& match out.selection {
                Some(sel) => selection == Some(selection_view(sel)),
                None => selection is None,
            }
        },
    }
}

/// Resolves every choice label; `None` as soon as one does not resolve.
fn resolve_choices(choices: &Vec<crate::actions::SelectionChoice>, texts: Option<&StrMap<String>>) -> (r:
    Option<Vec<ResolvedChoice>>)
    ensures
        r is None <==> !labels_resolve(crate::actions::view_choices(choices@), opt_texts_view(texts)),
        r matches Some(v) ==> resolved_views(v@) == resolved_choices(
            crate::actions::view_choices(choices@),
            opt_texts_view(texts),
        ),
{
    let ghost cv = crate::actions::view_choices(choices@);
    let ghost t = opt_texts_view(texts);
    proof {
        crate::actions::lemma_view_choices(choices@);
    }
    let mut resolved: Vec<ResolvedChoice> = Vec::new();
    let mut i: usize = 0;
    while i < choices.len()
        invariant
            i <= choices@.len(),
            cv == crate::actions::view_choices(choices@),
            cv.len() == choices@.len(),
            t == opt_texts_view(texts),
            forall|k: int|
                0 <= k < choices@.len() ==> #[trigger] cv[k] == (ChoiceView {
                    label: text_ref_view(choices@[k].label),
                    actions: view_actions(choices@[k].actions@),
                }),
            resolved@.len() == i,
            forall|k: int| 0 <= k < i ==> resolve_text((#[trigger] cv[k]).label, t) is Some,
            forall|k: int|
                0 <= k < i ==> resolved_choice_view(#[trigger] resolved@[k]) == (
                    resolve_text(cv[k].label, t)->0,
                    cv[k].actions,
                ),
        decreases choices@.len() - i,
    {
        match resolve_dialog_text(&choices[i].label, texts) {
            Some(label) => {
                resolved.push(ResolvedChoice { label, actions: copy_actions(&choices[i].actions) });
            },
            None => {
                assert(resolve_text(cv[i as int].label, t) is None);
                return None;
            },
        }
        i = i + 1;
    }
    assert(resolved_views(resolved@) =~= resolved_choices(cv, t));
    Some(resolved)
}

/// The image path of a face portrait, if the project registers it.
fn lookup_portrait(face_portrait: &Option<String>, catalog: Option<&ProjectCatalog>) -> (r: Option<String>)
    ensures
        forall|c: ConfigView|
            c.face_portrait == opt_view(*face_portrait) ==> opt_view(r) == #[trigger] portrait_path(
                c,
                opt_catalog_view(catalog),
            ),
{
    match face_portrait {
        Some(pid) => match catalog {
            Some(c) => match c.face_portraits.get(pid.as_str()) {
                Some(path) => Some(path.clone()),
                None => None,
            },
            None => None,
        },
        None => None,
    }
}

/// Builds the selection prompt of a `ShowSelection` action.
fn open_selection(
    prompt: &DialogTextData,
    config: &DialogConfigData,
    choices: &Vec<crate::actions::SelectionChoice>,
    catalog: Option<&ProjectCatalog>,
    texts: Option<&StrMap<String>>,
) -> (r: (Vec<Effect>, Option<SelectionState>))
    ensures
        match selection_outcome(
            text_ref_view(*prompt),
            config_view(*config),
            crate::actions::view_choices(choices@),
            opt_catalog_view(catalog),
            opt_texts_view(texts),
        ) {
            None => r.0@.len() == 0 && r.1 is None,
            Some((effect, selection)) => {
                &&& effects_view(r.0@) == seq![effect]
                &&& r.1 matches Some(sel) && selection_view(sel) == selection
            },
        },
{
    let mut effects: Vec<Effect> = Vec::new();
    let resolved_prompt = resolve_dialog_text(prompt, texts);
    if resolved_prompt.is_none() {
        return (effects, None);
    }
    let resolved = resolve_choices(choices, texts);
    match resolved {
        None => (effects, None),
        Some(resolved) => {
            let portrait = lookup_portrait(&config.face_portrait, catalog);
            let count = resolved.len();
            let sel = SelectionState { cursor_index: 0, choice_count: count, choices: resolved };
            effects.push(
                Effect::ShowSelection {
                    prompt: resolved_prompt.unwrap(),
                    config: config.copy(),
                    portrait_path: portrait,
                },
            );
            assert(portrait_path(config_view(*config), opt_catalog_view(catalog)) == opt_view(
                effects@[0]->ShowSelection_portrait_path,
            ));
            assert(effects_view(effects@) =~= seq![effect_view(effects@[0])]);
            proof {
                crate::actions::lemma_view_choices(choices@);
                assert(resolved_views(sel.choices@).len() == sel.choices@.len());
            }
            (effects, Some(sel))
        },
    }
}

/// Actions that run in place at the front of the queue (they may block).
pub open spec fn runs_in_place(a: ActionView) -> bool {
    ||| a is ShowDialog
    ||| a is ScreenShake
    ||| a is FadeTransition
    ||| a is ShowSelection
    ||| a is MoveEntity
    ||| a is CameraPan
    ||| a is Wait
    ||| a is Jump
}

/// Runs a reward action that was taken off the front of the queue.
fn step_reward(
    action: EventAction,
    actions: &mut VecDeque<EventAction>,
    world: &mut GameWorld,
    catalog: Option<&ProjectCatalog>,
    texts: Option<&StrMap<String>>,
    selection_active: bool,
) -> (out: StepOutput)
    requires
        view_action(action) is GiveCurrency || view_action(action) is LearnAbility || view_action(
            action,
        ) is AddPartyMember || view_action(action) is GiveItem || view_action(action) is GiveExperience,
    ensures
        party_unique(old(world).view()) ==> party_unique(final(world).view()),
        step_done(
            step(
                seq![view_action(action)] + view_actions(old(actions)@),
                old(world).view(),
                opt_catalog_view(catalog),
                opt_texts_view(texts),
                selection_active,
            ),
            out,
            view_actions(final(actions)@),
            WaitingFor::Nothing,
            final(world).view(),
        ),
{
    let ghost q = seq![view_action(action)] + view_actions(actions@);
    assert(q.drop_first() =~= view_actions(actions@));
    assert(q[0] == view_action(action));
    let effects: Vec<Effect> = Vec::new();
    assert(effects_view(effects@) =~= Seq::<EffectView>::empty());
    match action {
        EventAction::GiveCurrency { amount, direction, on_success, on_failure } => {
            match world.currency {
                Some(balance) => {
                    let mut b = balance;
                    let outcome = apply_currency(&mut b, amount, direction);
                    world.currency = Some(b);
                    inject_front(actions, choose_branch(outcome, on_success, on_failure));
                },
                None => {},
            }
        },
        EventAction::LearnAbility { ability_id, target, direction, on_success, on_failure } => {
            let known = match catalog {
                Some(c) => c.abilities.abilities.contains_key(ability_id.as_str()),
                None => false,
            };
            if known {
                match world.progress.take() {
                    Some(mut p) => {
                        let outcome = apply_ability(&mut p, &target, &ability_id, direction);
                        world.progress = Some(p);
                        inject_front(actions, choose_branch(outcome, on_success, on_failure));
                    },
                    None => {},
                }
            }
        },
        EventAction::AddPartyMember { character_id, direction, on_success, on_failure } => {
            let known = match catalog {
                Some(c) => c.characters.characters.contains_key(character_id.as_str()),
                None => false,
            };
            if known {
                match world.party.take() {
                    Some(mut p) => {
                        proof {
                            crate::rewards::law_party_give_idempotent(texts_view(p@), character_id@);
                            crate::rewards::law_party_take_undoes_give(texts_view(p@), character_id@);
                        }
                        let outcome = apply_party(&mut p, &character_id, direction);
                        world.party = Some(p);
                        inject_front(actions, choose_branch(outcome, on_success, on_failure));
                    },
                    None => {},
                }
            }
        },
        EventAction::GiveItem { item_id, quantity, direction, on_success, on_failure } => {
            match catalog {
                Some(c) => match c.items.items.get(item_id.as_str()) {
                    Some(def) => {
                        let stackable = def.stackable;
                        let limit = def.stack_limit;
                        match world.inventory.take() {
                            Some(mut inv) => {
                                let ok = apply_item(&mut inv, &item_id, quantity, stackable, limit, direction);
                                world.inventory = Some(inv);
                                inject_front(actions, choose_branch(Some(ok), on_success, on_failure));
                            },
                            None => {},
                        }
                    },
                    None => {},
                },
                None => {},
            }
        },
        EventAction::GiveExperience { amount, target, direction, on_success, on_failure } => {
            match world.progress.take() {
                Some(mut p) => {
                    let outcome = apply_experience(&mut p, &world.party, &target, amount, direction);
                    world.progress = Some(p);
                    inject_front(actions, choose_branch(outcome, on_success, on_failure));
                },
                None => {},
            }
        },
        _ => {},
    }
    StepOutput { stop: false, effects, selection: None }
}

/// Runs a flag, branch, jump or appearance action that was taken off the
/// front of the queue.
fn step_plain(
    action: EventAction,
    actions: &mut VecDeque<EventAction>,
    world: &mut GameWorld,
    catalog: Option<&ProjectCatalog>,
    texts: Option<&StrMap<String>>,
    selection_active: bool,
) -> (out: StepOutput)
    requires
        !runs_in_place(view_action(action)),
        !(view_action(action) is GiveCurrency || view_action(action) is LearnAbility || view_action(
            action,
        ) is AddPartyMember || view_action(action) is GiveItem || view_action(action) is GiveExperience),
    ensures
        party_unique(old(world).view()) ==> party_unique(final(world).view()),
        step_done(
            step(
                seq![view_action(action)] + view_actions(old(actions)@),
                old(world).view(),
                opt_catalog_view(catalog),
                opt_texts_view(texts),
                selection_active,
            ),
            out,
            view_actions(final(actions)@),
            WaitingFor::Nothing,
            final(world).view(),
        ),
{
    let ghost q = seq![view_action(action)] + view_actions(actions@);
    assert(q.drop_first() =~= view_actions(actions@));
    assert(q[0] == view_action(action));
    let mut effects: Vec<Effect> = Vec::new();
    assert(effects_view(effects@) =~= Seq::<EffectView>::empty());
    match action {
        EventAction::JumpTo { target_map_id, target_x, target_y, target_elevation } => {
            world.pending_map_change = Some(target_map_id);
            world.pending_target_coords = Some((target_x, target_y));
            world.pending_target_elevation = target_elevation;
            return StepOutput { stop: true, effects, selection: None };
        },
        EventAction::StopScreenShake => {
            effects.push(Effect::StopScreenShake);
            assert(effects_view(effects@) =~= seq![effect_view(effects@[0])]);
        },
        EventAction::SetState { key, value } => {
            if !key.as_str().is_empty() {
                match world.flags.take() {
                    Some(mut f) => {
                        let ghost fm = f.map();
                        f.insert(key, value);
                        assert(flag_view(f.map()) =~= flag_view(fm).insert(key@, value@));
                        world.flags = Some(f);
                    },
                    None => {
                        let mut f = StrMap::new();
                        f.insert(key, value);
                        assert(flag_view(f.map()) =~= Map::<Seq<char>, Seq<char>>::empty().insert(
                            key@,
                            value@,
                        ));
                        world.flags = Some(f);
                    },
                }
            }
        },
        EventAction::CameraFollow { target } => {
            effects.push(Effect::FollowEntity { target });
            assert(effects_view(effects@) =~= seq![effect_view(effects@[0])]);
        },
        EventAction::SetSpeed { multiplier_bits } => {
            effects.push(Effect::SetSpeed { multiplier_bits });
            assert(effects_view(effects@) =~= seq![effect_view(effects@[0])]);
        },
        EventAction::SetPlayerAppearance { appearance } => {
            let visible = match appearance {
                crate::actions::PlayerAppearance::Hidden => false,
                _ => true,
            };
            effects.push(Effect::SetPlayerVisible { visible });
            assert(effects_view(effects@) =~= seq![effect_view(effects@[0])]);
        },
        EventAction::StateCheck { key, value, on_true, on_false } => {
            let matched = match &world.flags {
                Some(f) => crate::condition::flag_is(f, key.as_str(), &value),
                None => false,
            };
            inject_front(actions, if matched { on_true } else { on_false });
        },
        EventAction::Branch { condition, on_true, on_false } => {
            let matched = match &world.flags {
                Some(f) => condition.evaluate(f),
                None => {
                    let empty: StrMap<String> = StrMap::new();
                    assert(flag_view(empty.map()) =~= Map::<Seq<char>, Seq<char>>::empty());
                    condition.evaluate(&empty)
                },
            };
            inject_front(actions, if matched { on_true } else { on_false });
        },
        _ => {},
    }
    StepOutput { stop: false, effects, selection: None }
}

/// Runs the front action of the queue.
fn exec_step(
    queue: &mut ActionQueue,
    world: &mut GameWorld,
    catalog: Option<&ProjectCatalog>,
    texts: Option<&StrMap<String>>,
    selection_active: bool,
) -> (out: StepOutput)
    requires
        old(queue).actions@.len() > 0,
        old(queue).waiting_for == WaitingFor::Nothing,
    ensures
        party_unique(old(world).view()) ==> party_unique(final(world).view()),
        step_done(
            step(
                view_actions(old(queue).actions@),
                old(world).view(),
                opt_catalog_view(catalog),
                opt_texts_view(texts),
                selection_active,
            ),
            out,
            view_actions(final(queue).actions@),
            final(queue).waiting_for,
            final(world).view(),
        ),
{
    let ghost q0 = queue.actions@;
    proof {
        lemma_view_actions_drop_first(q0);
    }
    let mut effects: Vec<Effect> = Vec::new();
    assert(effects_view(effects@) =~= Seq::<EffectView>::empty());
    match &queue.actions[0] {
        EventAction::ShowDialog { text, config } => {
            let skip = match text {
                DialogTextData::Id(id) => lookup_text(texts, id).is_none(),
                DialogTextData::Inline(_) => false,
            };
            if skip {
                queue.actions.pop_front();
                return StepOutput { stop: false, effects, selection: None };
            }
            effects.push(Effect::ShowDialog { text: text.copy(), config: config.copy() });
            queue.waiting_for = WaitingFor::Dialog;
            assert(effects_view(effects@) =~= seq![effect_view(effects@[0])]);
            return StepOutput { stop: true, effects, selection: None };
        },
        EventAction::ScreenShake { intensity_bits, duration_bits, mode } => {
            let (i, d, m) = (*intensity_bits, *duration_bits, *mode);
            match m {
                ScreenShakeMode::Timed => {
                    if crate::actions::bits_at_most_zero(d) {
                        queue.actions.pop_front();
                        return StepOutput { stop: false, effects, selection: None };
                    }
                    effects.push(Effect::StartScreenShake { intensity_bits: i, duration_bits: d, mode: m });
                    queue.waiting_for = WaitingFor::ScreenShake;
                    assert(effects_view(effects@) =~= seq![effect_view(effects@[0])]);
                    return StepOutput { stop: true, effects, selection: None };
                },
                ScreenShakeMode::Continuous => {
                    effects.push(Effect::StartScreenShake { intensity_bits: i, duration_bits: d, mode: m });
                    queue.actions.pop_front();
                    assert(effects_view(effects@) =~= seq![effect_view(effects@[0])]);
                    return StepOutput { stop: false, effects, selection: None };
                },
            }
        },
        EventAction::FadeTransition { fade_type, duration_bits, color_bits } => {
            let (ft, d, c) = (*fade_type, *duration_bits, *color_bits);
            if crate::actions::bits_at_most_zero(d) {
                match ft {
                    FadeType::FadeOut => effects.push(Effect::SpawnFadeOverlay { color_bits: c, opaque: true }),
                    FadeType::FadeIn => effects.push(Effect::DespawnFadeOverlays),
                }
                queue.actions.pop_front();
                assert(effects_view(effects@) =~= seq![effect_view(effects@[0])]);
                return StepOutput { stop: false, effects, selection: None };
            }
            let opaque = match ft {
                FadeType::FadeOut => false,
                FadeType::FadeIn => true,
            };
            effects.push(Effect::SpawnFadeOverlay { color_bits: c, opaque });
            effects.push(Effect::StartFade { fade_type: ft, duration_bits: d, color_bits: c });
            queue.waiting_for = WaitingFor::Fade;
            assert(effects_view(effects@) =~= seq![effect_view(effects@[0]), effect_view(effects@[1])]);
            return StepOutput { stop: true, effects, selection: None };
        },
        EventAction::ShowSelection { prompt, config, choices } => {
            if selection_active {
                return StepOutput { stop: true, effects, selection: None };
            }
            let (sel_effects, sel) = open_selection(prompt, config, choices, catalog, texts);
            match sel {
                None => {
                    queue.actions.pop_front();
                    return StepOutput { stop: false, effects, selection: None };
                },
                Some(s) => {
                    queue.waiting_for = WaitingFor::Selection;
                    return StepOutput { stop: true, effects: sel_effects, selection: Some(s) };
                },
            }
        },
        EventAction::MoveEntity { target, target_x, target_y, speed_bits } => {
            effects.push(
                Effect::StartEntityMove {
                    target: target.copy(),
                    target_x: *target_x,
                    target_y: *target_y,
                    speed_bits: *speed_bits,
                },
            );
            queue.waiting_for = WaitingFor::EntityMove;
            assert(effects_view(effects@) =~= seq![effect_view(effects@[0])]);
            return StepOutput { stop: true, effects, selection: None };
        },
        EventAction::CameraPan { target_x, target_y, duration_bits } => {
            effects.push(
                Effect::StartCameraPan {
                    target_x: *target_x,
                    target_y: *target_y,
                    duration_bits: *duration_bits,
                },
            );
            queue.waiting_for = WaitingFor::CameraPan;
            assert(effects_view(effects@) =~= seq![effect_view(effects@[0])]);
            return StepOutput { stop: true, effects, selection: None };
        },
        EventAction::Wait { duration_bits } => {
            effects.push(Effect::StartWait { duration_bits: *duration_bits });
            queue.waiting_for = WaitingFor::Wait;
            assert(effects_view(effects@) =~= seq![effect_view(effects@[0])]);
            return StepOutput { stop: true, effects, selection: None };
        },
        EventAction::Jump { distance } => {
            effects.push(Effect::StartJump { distance: *distance });
            queue.waiting_for = WaitingFor::Jump;
            assert(effects_view(effects@) =~= seq![effect_view(effects@[0])]);
            return StepOutput { stop: true, effects, selection: None };
        },
        _ => {},
    }
    let action = queue.actions.pop_front().unwrap();
    assert(view_actions(q0) =~= seq![view_action(action)] + view_actions(queue.actions@));
    let reward = match &action {
        EventAction::GiveCurrency { .. } => true,
        EventAction::LearnAbility { .. } => true,
        EventAction::AddPartyMember { .. } => true,
        EventAction::GiveItem { .. } => true,
        EventAction::GiveExperience { .. } => true,
        _ => false,
    };
    if reward {
        step_reward(action, &mut queue.actions, world, catalog, texts, selection_active)
    } else {
        step_plain(action, &mut queue.actions, world, catalog, texts, selection_active)
    }
}

/// The branch an outcome selects.
fn choose_branch(outcome: Option<bool>, on_success: Vec<EventAction>, on_failure: Vec<EventAction>) -> (r:
    Vec<EventAction>)
    ensures
        view_actions(r@) == branch_for(outcome, view_actions(on_success@), view_actions(on_failure@)),
{
    match outcome {
        None => {
            let r: Vec<EventAction> = Vec::new();
            assert(view_actions(r@) =~= Seq::<ActionView>::empty());
            r
        },
        Some(true) => on_success,
        Some(false) => on_failure,
    }
}

/// What one frame of the action queue produced.
pub struct AdvanceOutput {
    /// Presentation work, in order.
    pub effects: Vec<Effect>,
    /// A selection prompt that was opened.
    pub selection: Option<SelectionState>,
    /// The sequence is complete; the caller discards the queue.
    pub finished: bool,
}

/// The executable outcome of a frame agrees with the run `r`.
pub open spec fn advance_done(
    r: RunView,
    out: AdvanceOutput,
    queue: Seq<ActionView>,
    waiting: WaitingFor,
    world: WorldView,
) -> bool {
    &&& queue == r.queue
    &&& waiting == r.waiting
    &&& world == r.world
    &&& effects_view(out.effects@) == r.effects
    &&& out.finished == r.finished
    &&& match out.selection {
        Some(sel) => r.selection == Some(selection_view(sel)),
        None => r.selection is None,
    }
}

fn is_still_waiting(waiting: WaitingFor, active: ActiveEffects) -> (r: bool)
    ensures
        r == still_waiting(waiting, active),
{
    match waiting {
        WaitingFor::Nothing => false,
        WaitingFor::Dialog => active.dialog,
        WaitingFor::ScreenShake => active.screen_shake,
        WaitingFor::Fade => active.fade,
        WaitingFor::Selection => active.selection,
        WaitingFor::EntityMove => true,
        WaitingFor::CameraPan => active.camera_pan,
        WaitingFor::Wait => active.wait,
        WaitingFor::Jump => true,
    }
}

/// The actions left once the front one is done.
pub open spec fn popped<A>(s: Seq<A>) -> Seq<A> {
    if s.len() > 0 {
        s.drop_first()
    } else {
        s
    }
}

/// Finishes the action that the queue waits on from outside it (a scripted
/// move or a jump): the queue stops waiting and its front action is dropped.
pub fn complete_move(queue: &mut ActionQueue)
    ensures
        final(queue).waiting_for == WaitingFor::Nothing,
        final(queue).actions@ == popped(old(queue).actions@),
{
    queue.waiting_for = WaitingFor::Nothing;
    queue.actions.pop_front();
    assert(queue.actions@ =~= popped(old(queue).actions@));
}

pub proof fn lemma_effects_view_concat(a: Seq<Effect>, b: Seq<Effect>)
    ensures
        effects_view(a + b) == effects_view(a) + effects_view(b),
{
    assert(effects_view(a + b) =~= effects_view(a) + effects_view(b));
}

/// Runs one frame of the action queue. If the presentation the queue waits
/// for is still active, nothing happens. Otherwise the awaited action is
/// done and dropped, and actions run from the front until one blocks or the
/// sequence is complete (`finished`; the caller then discards the queue).
/// Non-blocking actions therefore chain within a single frame, and the
/// branch an action selects runs before the actions that followed it.
pub fn advance_action_queue(
    queue: &mut ActionQueue,
    world: &mut GameWorld,
    catalog: Option<&ProjectCatalog>,
    texts: Option<&StrMap<String>>,
    active: ActiveEffects,
) -> (out: AdvanceOutput)
    ensures
        party_unique(old(world).view()) ==> party_unique(final(world).view()),
        advance_done(
            advance(
                view_actions(old(queue).actions@),
                old(queue).waiting_for,
                old(world).view(),
                opt_catalog_view(catalog),
                opt_texts_view(texts),
                active,
            ),
            out,
            view_actions(final(queue).actions@),
            final(queue).waiting_for,
            final(world).view(),
        ),
{
    if is_still_waiting(queue.waiting_for, active) {
        let effects: Vec<Effect> = Vec::new();
        assert(effects_view(effects@) =~= Seq::<EffectView>::empty());
        return AdvanceOutput { effects, selection: None, finished: false };
    }
    let ghost q_in = view_actions(queue.actions@);
    let ghost wait_in = queue.waiting_for;
    let ghost w_in = world.view();
    if queue.waiting_for != WaitingFor::Nothing {
        proof {
            if queue.actions@.len() > 0 {
                lemma_view_actions_drop_first(queue.actions@);
            }
        }
        queue.waiting_for = WaitingFor::Nothing;
        queue.actions.pop_front();
    }
    let ghost cat = opt_catalog_view(catalog);
    let ghost t = opt_texts_view(texts);
    let ghost q0 = view_actions(queue.actions@);
    let ghost w0 = world.view();
    let mut effects: Vec<Effect> = Vec::new();
    assert(effects_view(effects@) =~= Seq::<EffectView>::empty());
    assert(advance(q_in, wait_in, w_in, cat, t, active) == run(q0, w0, cat, t, active.selection));
    loop
        invariant
            advance(q_in, wait_in, w_in, cat, t, active) == run(q0, w0, cat, t, active.selection),
            q_in == view_actions(old(queue).actions@),
            wait_in == old(queue).waiting_for,
            w_in == old(world).view(),
            queue.waiting_for == WaitingFor::Nothing,
            party_unique(w_in) ==> party_unique(world.view()),
            cat == opt_catalog_view(catalog),
            t == opt_texts_view(texts),
            ({
                let r0 = run(q0, w0, cat, t, active.selection);
                let r = run(view_actions(queue.actions@), world.view(), cat, t, active.selection);
                &&& r0.queue == r.queue
                &&& r0.world == r.world
                &&& r0.waiting == r.waiting
                &&& r0.selection == r.selection
                &&& r0.finished == r.finished
                &&& r0.effects == effects_view(effects@) + r.effects
            }),
        decreases seq_size(view_actions(queue.actions@)),
    {
        if queue.actions.len() == 0 {
            proof {
                lemma_view_actions(queue.actions@);
            }
            assert(effects_view(effects@) + Seq::<EffectView>::empty() =~= effects_view(effects@));
            return AdvanceOutput { effects, selection: None, finished: true };
        }
        let ghost qc = view_actions(queue.actions@);
        let ghost wc = world.view();
        proof {
            lemma_view_actions(queue.actions@);
            lemma_step_decreases(qc, wc, cat, t, active.selection);
        }
        let mut step_out = exec_step(queue, world, catalog, texts, active.selection);
        let ghost e_before = effects@;
        let ghost e_step = step_out.effects@;
        effects.append(&mut step_out.effects);
        proof {
            lemma_effects_view_concat(e_before, e_step);
            assert(effects_view(e_before) + effects_view(e_step) + run(
                view_actions(queue.actions@),
                world.view(),
                cat,
                t,
                active.selection,
            ).effects =~= effects_view(e_before) + (effects_view(e_step) + run(
                view_actions(queue.actions@),
                world.view(),
                cat,
                t,
                active.selection,
            ).effects));
        }
        if step_out.stop {
            return AdvanceOutput { effects, selection: step_out.selection, finished: false };
        }
    }
}

} // verus!
