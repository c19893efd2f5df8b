//! Event actions: the scripted steps that map tiles, NPCs and choices run.
use vstd::prelude::*;
use crate::condition::{condition_view, opt_view, BranchCondition, ConditionView};
use crate::rewards::TransferDirection;

verus! {

/// Dialog text: inline, or the id of an entry of the dialog text registry.
#[derive(Debug, PartialEq, Eq)]
pub enum DialogTextData {
    Inline(String),
    Id(String),
}

/// Vertical placement of a dialog or selection box.
#[derive(Debug, Clone, Copy, PartialEq, Eq, Structural)]
pub enum DialogPositionData {
    Top,
    Center,
    Bottom,
}

/// How a dialog box is presented. `text_speed_bits` holds the bit pattern
/// of the characters-per-second rate (an `f32`), which the game only
/// forwards to the presentation layer.
#[derive(Debug, PartialEq, Eq)]
pub struct DialogConfigData {
    pub text_speed_bits: u32,
    pub position: DialogPositionData,
    pub movement_block: bool,
    pub attribute_dialog: bool,
    /// Id of a face portrait in the project's portrait registry.
    pub face_portrait: Option<String>,
}

/// Screen shake that ends by itself or runs until stopped.
#[derive(Debug, Clone, Copy, PartialEq, Eq, Structural)]
pub enum ScreenShakeMode {
    Timed,
    Continuous,
}

/// Fade towards an opaque overlay, or from it back to the scene.
#[derive(Debug, Clone, Copy, PartialEq, Eq, Structural)]
pub enum FadeType {
    FadeOut,
    FadeIn,
}

/// How the player character is shown.
#[derive(Debug, PartialEq, Eq)]
pub enum PlayerAppearance {
    Hidden,
    Spritesheet { path: String },
    Default,
}

/// One option of a selection prompt and the actions it runs.
#[derive(Debug, PartialEq, Eq)]
pub struct SelectionChoice {
    pub label: DialogTextData,
    pub actions: Vec<EventAction>,
}

/// A scripted event step. Durations, intensities and colors are `f32`
/// values carried as their bit patterns.
#[derive(Debug, PartialEq, Eq)]
pub enum EventAction {
    ShowDialog { text: DialogTextData, config: DialogConfigData },
    JumpTo { target_map_id: String, target_x: u32, target_y: u32, target_elevation: Option<u32> },
    ScreenShake { intensity_bits: u32, duration_bits: u32, mode: ScreenShakeMode },
    StopScreenShake,
    FadeTransition { fade_type: FadeType, duration_bits: u32, color_bits: (u32, u32, u32) },
    SetState { key: String, value: String },
    SetPlayerAppearance { appearance: PlayerAppearance },
    StateCheck {
        key: String,
        value: Option<String>,
        on_true: Vec<EventAction>,
        on_false: Vec<EventAction>,
    },
    Branch { condition: BranchCondition, on_true: Vec<EventAction>, on_false: Vec<EventAction> },
    ShowSelection {
        prompt: DialogTextData,
        config: DialogConfigData,
        choices: Vec<SelectionChoice>,
    },
    GiveCurrency {
        amount: u64,
        direction: TransferDirection,
        on_success: Vec<EventAction>,
        on_failure: Vec<EventAction>,
    },
    LearnAbility {
        ability_id: String,
        target: String,
        direction: TransferDirection,
        on_success: Vec<EventAction>,
        on_failure: Vec<EventAction>,
    },
    AddPartyMember {
        character_id: String,
        direction: TransferDirection,
        on_success: Vec<EventAction>,
        on_failure: Vec<EventAction>,
    },
    GiveItem {
        item_id: String,
        quantity: u32,
        direction: TransferDirection,
        on_success: Vec<EventAction>,
        on_failure: Vec<EventAction>,
    },
    GiveExperience {
        amount: u64,
        target: Option<String>,
        direction: TransferDirection,
        on_success: Vec<EventAction>,
        on_failure: Vec<EventAction>,
    },
    /// Walk the player or an NPC tile by tile to `(target_x, target_y)` at
    /// `speed_bits` tiles per second.
    MoveEntity { target: EntityTarget, target_x: u32, target_y: u32, speed_bits: u32 },
    /// Make the camera follow the player or an NPC.
    CameraFollow { target: EntityTarget },
    /// Pan the camera to a tile over `duration_bits` seconds.
    CameraPan { target_x: u32, target_y: u32, duration_bits: u32 },
    /// Pause the sequence for `duration_bits` seconds.
    Wait { duration_bits: u32 },
    /// Make the player jump `distance` tiles the way it faces.
    Jump { distance: u32 },
    /// Set the player's movement speed multiplier.
    SetSpeed { multiplier_bits: u32 },
}

/// Who a scripted move or the camera refers to: the player, or the first
/// NPC of the map that uses the given spritesheet.
#[derive(Debug, PartialEq, Eq)]
pub enum EntityTarget {
    Player,
    Npc { npc_id: String },
}

/// An entity target as a value.
pub enum EntityTargetView {
    Player,
    Npc { npc_id: Seq<char> },
}

pub open spec fn entity_target_view(t: EntityTarget) -> EntityTargetView {
    match t {
        EntityTarget::Player => EntityTargetView::Player,
        EntityTarget::Npc { npc_id } => EntityTargetView::Npc { npc_id: npc_id@ },
    }
}

impl EntityTarget {
    pub fn copy(&self) -> (r: Self)
        ensures
            entity_target_view(r) == entity_target_view(*self),
    {
        match self {
            EntityTarget::Player => EntityTarget::Player,
            EntityTarget::Npc { npc_id } => EntityTarget::Npc { npc_id: npc_id.clone() },
        }
    }
}

// ─── f32 bit patterns ────────────────────────────────────────────────────────

/// The `f32` with these bits is a NaN.
pub open spec fn f32_is_nan(bits: u32) -> bool {
    (bits & 0x7fff_ffffu32) > 0x7f80_0000u32
}

/// The `f32` with these bits is greater than zero.
pub open spec fn f32_positive(bits: u32) -> bool {
    (bits >> 31u32) == 0 && bits != 0 && !f32_is_nan(bits)
}

/// The `f32` with these bits is at most zero (NaN compares false).
pub open spec fn f32_at_most_zero(bits: u32) -> bool {
    !f32_is_nan(bits) && !f32_positive(bits)
}

/// Whether the `f32` with bit pattern `bits` is greater than zero.
pub fn bits_positive(bits: u32) -> (r: bool)
    ensures
        r == f32_positive(bits),
{
    (bits >> 31u32) == 0 && bits != 0 && !((bits & 0x7fff_ffffu32) > 0x7f80_0000u32)
}

/// Whether the `f32` with bit pattern `bits` is at most zero.
pub fn bits_at_most_zero(bits: u32) -> (r: bool)
    ensures
        r == f32_at_most_zero(bits),
{
    !((bits & 0x7fff_ffffu32) > 0x7f80_0000u32) && !bits_positive(bits)
}

// ─── Blocking ────────────────────────────────────────────────────────────────

/// Whether an action blocks the action queue until it completes: a timed
/// screen shake or a fade with positive duration, a dialog, a selection, a
/// scripted move, a camera pan, a wait or a jump. Following the camera,
/// setting the speed and every other action run through at once.
pub open spec fn spec_is_blocking(a: EventAction) -> bool {
    match a {
        EventAction::ScreenShake { mode, duration_bits, .. } => mode == ScreenShakeMode::Timed
            && f32_positive(duration_bits),
        EventAction::FadeTransition { duration_bits, .. } => f32_positive(duration_bits),
        EventAction::ShowDialog { .. } => true,
        EventAction::ShowSelection { .. } => true,
        EventAction::MoveEntity { .. } => true,
        EventAction::CameraFollow { .. } => false,
        EventAction::CameraPan { .. } => true,
        EventAction::Wait { .. } => true,
        EventAction::Jump { .. } => true,
        EventAction::SetSpeed { .. } => false,
        _ => false,
    }
}

/// Classifies an action as blocking or non-blocking.
pub fn is_blocking_action(action: &EventAction) -> (r: bool)
    ensures
        r == spec_is_blocking(*action),
{
    match action {
        EventAction::ScreenShake { mode, duration_bits, .. } => {
            *mode == ScreenShakeMode::Timed && bits_positive(*duration_bits)
        },
        EventAction::FadeTransition { duration_bits, .. } => bits_positive(*duration_bits),
        EventAction::ShowDialog { .. } => true,
        EventAction::ShowSelection { .. } => true,
        EventAction::MoveEntity { .. } => true,
        EventAction::CameraFollow { .. } => false,
        EventAction::CameraPan { .. } => true,
        EventAction::Wait { .. } => true,
        EventAction::Jump { .. } => true,
        EventAction::SetSpeed { .. } => false,
        _ => false,
    }
}

// ─── Copies ──────────────────────────────────────────────────────────────────

pub fn copy_text(s: &String) -> (r: String)
    ensures
        r == *s,
{
    s.clone()
}

pub fn copy_opt_text(s: &Option<String>) -> (r: Option<String>)
    ensures
        r == *s,
{
    match s {
        Some(t) => Some(t.clone()),
        None => None,
    }
}

impl DialogTextData {
    pub fn copy(&self) -> (r: Self)
        ensures
            r == *self,
    {
        match self {
            DialogTextData::Inline(s) => DialogTextData::Inline(s.clone()),
            DialogTextData::Id(s) => DialogTextData::Id(s.clone()),
        }
    }
}

impl DialogConfigData {
    pub fn copy(&self) -> (r: Self)
        ensures
            r == *self,
    {
        DialogConfigData {
            text_speed_bits: self.text_speed_bits,
            position: self.position,
            movement_block: self.movement_block,
            attribute_dialog: self.attribute_dialog,
            face_portrait: copy_opt_text(&self.face_portrait),
        }
    }
}

// ─── Views ───────────────────────────────────────────────────────────────────

/// Dialog text as values.
pub enum TextRefView {
    Inline(Seq<char>),
    Id(Seq<char>),
}

/// Dialog presentation as values.
pub struct ConfigView {
    pub text_speed_bits: u32,
    pub position: DialogPositionData,
    pub movement_block: bool,
    pub attribute_dialog: bool,
    pub face_portrait: Option<Seq<char>>,
}

/// Player appearance as values.
pub enum AppearanceView {
    Hidden,
    Spritesheet(Seq<char>),
    Default,
}

/// A selection option as values.
pub struct ChoiceView {
    pub label: TextRefView,
    pub actions: Seq<ActionView>,
}

/// An event action as values.
pub enum ActionView {
    ShowDialog { text: TextRefView, config: ConfigView },
    JumpTo { target_map_id: Seq<char>, target_x: u32, target_y: u32, target_elevation: Option<u32> },
    ScreenShake { intensity_bits: u32, duration_bits: u32, mode: ScreenShakeMode },
    StopScreenShake,
    FadeTransition { fade_type: FadeType, duration_bits: u32, color_bits: (u32, u32, u32) },
    SetState { key: Seq<char>, value: Seq<char> },
    SetPlayerAppearance { appearance: AppearanceView },
    StateCheck {
        key: Seq<char>,
        value: Option<Seq<char>>,
        on_true: Seq<ActionView>,
        on_false: Seq<ActionView>,
    },
    Branch { condition: ConditionView, on_true: Seq<ActionView>, on_false: Seq<ActionView> },
    ShowSelection { prompt: TextRefView, config: ConfigView, choices: Seq<ChoiceView> },
    GiveCurrency {
        amount: u64,
        direction: TransferDirection,
        on_success: Seq<ActionView>,
        on_failure: Seq<ActionView>,
    },
    LearnAbility {
        ability_id: Seq<char>,
        target: Seq<char>,
        direction: TransferDirection,
        on_success: Seq<ActionView>,
        on_failure: Seq<ActionView>,
    },
    AddPartyMember {
        character_id: Seq<char>,
        direction: TransferDirection,
        on_success: Seq<ActionView>,
        on_failure: Seq<ActionView>,
    },
    GiveItem {
        item_id: Seq<char>,
        quantity: u32,
        direction: TransferDirection,
        on_success: Seq<ActionView>,
        on_failure: Seq<ActionView>,
    },
    GiveExperience {
        amount: u64,
        target: Option<Seq<char>>,
        direction: TransferDirection,
        on_success: Seq<ActionView>,
        on_failure: Seq<ActionView>,
    },
    MoveEntity { target: EntityTargetView, target_x: u32, target_y: u32, speed_bits: u32 },
    CameraFollow { target: EntityTargetView },
    CameraPan { target_x: u32, target_y: u32, duration_bits: u32 },
    Wait { duration_bits: u32 },
    Jump { distance: u32 },
    SetSpeed { multiplier_bits: u32 },
}

pub open spec fn text_ref_view(t: DialogTextData) -> TextRefView {
    match t {
        DialogTextData::Inline(s) => TextRefView::Inline(s@),
        DialogTextData::Id(s) => TextRefView::Id(s@),
    }
}

pub open spec fn config_view(c: DialogConfigData) -> ConfigView {
    ConfigView {
        text_speed_bits: c.text_speed_bits,
        position: c.position,
        movement_block: c.movement_block,
        attribute_dialog: c.attribute_dialog,
        face_portrait: opt_view(c.face_portrait),
    }
}

pub open spec fn appearance_view(a: PlayerAppearance) -> AppearanceView {
    match a {
        PlayerAppearance::Hidden => AppearanceView::Hidden,
        PlayerAppearance::Spritesheet { path } => AppearanceView::Spritesheet(path@),
        PlayerAppearance::Default => AppearanceView::Default,
    }
}

/// The value of an action, with all nested branches.
pub open spec fn view_action(a: EventAction) -> ActionView
    decreases a,
{
    match a {
        EventAction::ShowDialog { text, config } => ActionView::ShowDialog {
            text: text_ref_view(text),
            config: config_view(config),
        },
        EventAction::JumpTo { target_map_id, target_x, target_y, target_elevation } =>
            ActionView::JumpTo {
            target_map_id: target_map_id@,
            target_x,
            target_y,
            target_elevation,
        },
        EventAction::ScreenShake { intensity_bits, duration_bits, mode } => ActionView::ScreenShake {
            intensity_bits,
            duration_bits,
            mode,
        },
        EventAction::StopScreenShake => ActionView::StopScreenShake,
        EventAction::FadeTransition { fade_type, duration_bits, color_bits } =>
            ActionView::FadeTransition { fade_type, duration_bits, color_bits },
        EventAction::SetState { key, value } => ActionView::SetState { key: key@, value: value@ },
        EventAction::SetPlayerAppearance { appearance } => ActionView::SetPlayerAppearance {
            appearance: appearance_view(appearance),
        },
        EventAction::StateCheck { key, value, on_true, on_false } => ActionView::StateCheck {
            key: key@,
            value: opt_view(value),
            on_true: view_actions(on_true@),
            on_false: view_actions(on_false@),
        },
        EventAction::Branch { condition, on_true, on_false } => ActionView::Branch {
            condition: condition_view(condition),
            on_true: view_actions(on_true@),
            on_false: view_actions(on_false@),
        },
        EventAction::ShowSelection { prompt, config, choices } => ActionView::ShowSelection {
            prompt: text_ref_view(prompt),
            config: config_view(config),
            choices: view_choices(choices@),
        },
        EventAction::GiveCurrency { amount, direction, on_success, on_failure } =>
            ActionView::GiveCurrency {
            amount,
            direction,
            on_success: view_actions(on_success@),
            on_failure: view_actions(on_failure@),
        },
        EventAction::LearnAbility { ability_id, target, direction, on_success, on_failure } =>
            ActionView::LearnAbility {
            ability_id: ability_id@,
            target: target@,
            direction,
            on_success: view_actions(on_success@),
            on_failure: view_actions(on_failure@),
        },
        EventAction::AddPartyMember { character_id, direction, on_success, on_failure } =>
            ActionView::AddPartyMember {
            character_id: character_id@,
            direction,
            on_success: view_actions(on_success@),
            on_failure: view_actions(on_failure@),
        },
        EventAction::GiveItem { item_id, quantity, direction, on_success, on_failure } =>
            ActionView::GiveItem {
            item_id: item_id@,
            quantity,
            direction,
            on_success: view_actions(on_success@),
            on_failure: view_actions(on_failure@),
        },
        EventAction::GiveExperience { amount, target, direction, on_success, on_failure } =>
            ActionView::GiveExperience {
            amount,
            target: opt_view(target),
            direction,
            on_success: view_actions(on_success@),
            on_failure: view_actions(on_failure@),
        },
        EventAction::MoveEntity { target, target_x, target_y, speed_bits } => ActionView::MoveEntity {
            target: entity_target_view(target),
            target_x,
            target_y,
            speed_bits,
        },
        EventAction::CameraFollow { target } => ActionView::CameraFollow { target: entity_target_view(target) },
        EventAction::CameraPan { target_x, target_y, duration_bits } => ActionView::CameraPan {
            target_x,
            target_y,
            duration_bits,
        },
        EventAction::Wait { duration_bits } => ActionView::Wait { duration_bits },
        EventAction::Jump { distance } => ActionView::Jump { distance },
        EventAction::SetSpeed { multiplier_bits } => ActionView::SetSpeed { multiplier_bits },
    }
}

/// The values of a sequence of actions.
pub open spec fn view_actions(s: Seq<EventAction>) -> Seq<ActionView>
    decreases s,
{
    if s.len() == 0 {
        Seq::empty()
    } else {
        seq![view_action(s[0])] + view_actions(s.drop_first())
    }
}

/// The values of a sequence of selection options.
pub open spec fn view_choices(s: Seq<SelectionChoice>) -> Seq<ChoiceView>
    decreases s,
{
    if s.len() == 0 {
        Seq::empty()
    } else {
        seq![ChoiceView { label: text_ref_view(s[0].label), actions: view_actions(s[0].actions@) }]
            + view_choices(s.drop_first())
    }
}

pub proof fn lemma_view_actions(s: Seq<EventAction>)
    ensures
        view_actions(s).len() == s.len(),
        forall|i: int| 0 <= i < s.len() ==> #[trigger] view_actions(s)[i] == view_action(s[i]),
    decreases s.len(),
{
    if s.len() > 0 {
        lemma_view_actions(s.drop_first());
        assert forall|i: int| 0 <= i < s.len() implies #[trigger] view_actions(s)[i] == view_action(
            s[i],
        ) by {
            if i > 0 {
                assert(view_actions(s)[i] == view_actions(s.drop_first())[i - 1]);
                assert(s.drop_first()[i - 1] == s[i]);
            }
        }
    }
}

/// Equal actions, element by element, have equal values.
pub proof fn lemma_view_actions_ext(a: Seq<EventAction>, b: Seq<EventAction>)
    requires
        a.len() == b.len(),
        forall|i: int| 0 <= i < a.len() ==> view_action(#[trigger] a[i]) == view_action(b[i]),
    ensures
        view_actions(a) == view_actions(b),
{
    lemma_view_actions(a);
    lemma_view_actions(b);
    assert(view_actions(a) =~= view_actions(b));
}

/// Values of a concatenation.
pub proof fn lemma_view_actions_concat(a: Seq<EventAction>, b: Seq<EventAction>)
    ensures
        view_actions(a + b) == view_actions(a) + view_actions(b),
{
    lemma_view_actions(a);
    lemma_view_actions(b);
    lemma_view_actions(a + b);
    assert(view_actions(a + b) =~= view_actions(a) + view_actions(b));
}

pub proof fn lemma_view_choices(s: Seq<SelectionChoice>)
    ensures
        view_choices(s).len() == s.len(),
        forall|i: int|
            0 <= i < s.len() ==> #[trigger] view_choices(s)[i] == (ChoiceView {
                label: text_ref_view(s[i].label),
                actions: view_actions(s[i].actions@),
            }),
    decreases s.len(),
{
    if s.len() > 0 {
        lemma_view_choices(s.drop_first());
        assert forall|i: int| 0 <= i < s.len() implies #[trigger] view_choices(s)[i] == (ChoiceView {
            label: text_ref_view(s[i].label),
            actions: view_actions(s[i].actions@),
        }) by {
            if i > 0 {
                assert(view_choices(s)[i] == view_choices(s.drop_first())[i - 1]);
                assert(s.drop_first()[i - 1] == s[i]);
            }
        }
    }
}

// ─── Copies of whole actions ─────────────────────────────────────────────────

impl PlayerAppearance {
    pub fn copy(&self) -> (r: Self)
        ensures
            appearance_view(r) == appearance_view(*self),
    {
        match self {
            PlayerAppearance::Hidden => PlayerAppearance::Hidden,
            PlayerAppearance::Spritesheet { path } => PlayerAppearance::Spritesheet { path: path.clone() },
            PlayerAppearance::Default => PlayerAppearance::Default,
        }
    }
}

/// Copies a list of actions with all their branches.
pub fn copy_actions(v: &Vec<EventAction>) -> (r: Vec<EventAction>)
    ensures
        view_actions(r@) == view_actions(v@),
    decreases v,
{
    let mut out: Vec<EventAction> = Vec::new();
    let mut i: usize = 0;
    while i < v.len()
        invariant
            i <= v@.len(),
            out@.len() == i,
            forall|k: int| 0 <= k < i ==> view_action(#[trigger] out@[k]) == view_action(v@[k]),
        decreases v@.len() - i,
    {
        assert(decreases_to!(v => v@[i as int]));
        out.push(v[i].copy());
        i = i + 1;
    }
    proof {
        lemma_view_actions_ext(out@, v@);
    }
    out
}

/// Copies a list of actions into a queue, in order.
pub fn copy_to_queue(v: &Vec<EventAction>) -> (r: std::collections::VecDeque<EventAction>)
    ensures
        view_actions(r@) == view_actions(v@),
{
    let mut out: std::collections::VecDeque<EventAction> = std::collections::VecDeque::new();
    let mut i: usize = 0;
    while i < v.len()
        invariant
            i <= v@.len(),
            out@.len() == i,
            forall|k: int| 0 <= k < i ==> view_action(#[trigger] out@[k]) == view_action(v@[k]),
        decreases v@.len() - i,
    {
        out.push_back(v[i].copy());
        i = i + 1;
    }
    proof {
        lemma_view_actions_ext(out@, v@);
    }
    out
}

/// Copies a list of selection options with their actions.
pub fn copy_choices(v: &Vec<SelectionChoice>) -> (r: Vec<SelectionChoice>)
    ensures
        view_choices(r@) == view_choices(v@),
    decreases v,
{
    let mut out: Vec<SelectionChoice> = Vec::new();
    let mut i: usize = 0;
    while i < v.len()
        invariant
            i <= v@.len(),
            out@.len() == i,
            forall|k: int|
                0 <= k < i ==> text_ref_view((#[trigger] out@[k]).label) == text_ref_view(v@[k].label)
                    && view_actions(out@[k].actions@) == view_actions(v@[k].actions@),
        decreases v@.len() - i,
    {
        assert(decreases_to!(v => v@[i as int]));
        let c = SelectionChoice { label: v[i].label.copy(), actions: copy_actions(&v[i].actions) };
        out.push(c);
        i = i + 1;
    }
    proof {
        lemma_view_choices(out@);
        lemma_view_choices(v@);
        assert(view_choices(out@) =~= view_choices(v@));
    }
    out
}

impl EventAction {
    /// Copies the action with all nested branches.
    pub fn copy(&self) -> (r: Self)
        ensures
            view_action(r) == view_action(*self),
        decreases self,
    {
        match self {
            EventAction::ShowDialog { text, config } => EventAction::ShowDialog {
                text: text.copy(),
                config: config.copy(),
            },
            EventAction::JumpTo { target_map_id, target_x, target_y, target_elevation } =>
                EventAction::JumpTo {
                target_map_id: target_map_id.clone(),
                target_x: *target_x,
                target_y: *target_y,
                target_elevation: *target_elevation,
            },
            EventAction::ScreenShake { intensity_bits, duration_bits, mode } =>
                EventAction::ScreenShake {
                intensity_bits: *intensity_bits,
                duration_bits: *duration_bits,
                mode: *mode,
            },
            EventAction::StopScreenShake => EventAction::StopScreenShake,
            EventAction::FadeTransition { fade_type, duration_bits, color_bits } =>
                EventAction::FadeTransition {
                fade_type: *fade_type,
                duration_bits: *duration_bits,
                color_bits: *color_bits,
            },
            EventAction::SetState { key, value } => EventAction::SetState {
                key: key.clone(),
                value: value.clone(),
            },
            EventAction::SetPlayerAppearance { appearance } => EventAction::SetPlayerAppearance {
                appearance: appearance.copy(),
            },
            EventAction::StateCheck { key, value, on_true, on_false } => EventAction::StateCheck {
                key: key.clone(),
                value: copy_opt_text(value),
                on_true: copy_actions(on_true),
                on_false: copy_actions(on_false),
            },
            EventAction::Branch { condition, on_true, on_false } => EventAction::Branch {
                condition: condition.copy(),
                on_true: copy_actions(on_true),
                on_false: copy_actions(on_false),
            },
            EventAction::ShowSelection { prompt, config, choices } => EventAction::ShowSelection {
                prompt: prompt.copy(),
                config: config.copy(),
                choices: copy_choices(choices),
            },
            EventAction::GiveCurrency { amount, direction, on_success, on_failure } =>
                EventAction::GiveCurrency {
                amount: *amount,
                direction: *direction,
                on_success: copy_actions(on_success),
                on_failure: copy_actions(on_failure),
            },
            EventAction::LearnAbility { ability_id, target, direction, on_success, on_failure } =>
                EventAction::LearnAbility {
                ability_id: ability_id.clone(),
                target: target.clone(),
                direction: *direction,
                on_success: copy_actions(on_success),
                on_failure: copy_actions(on_failure),
            },
            EventAction::AddPartyMember { character_id, direction, on_success, on_failure } =>
                EventAction::AddPartyMember {
                character_id: character_id.clone(),
                direction: *direction,
                on_success: copy_actions(on_success),
                on_failure: copy_actions(on_failure),
            },
            EventAction::GiveItem { item_id, quantity, direction, on_success, on_failure } =>
                EventAction::GiveItem {
                item_id: item_id.clone(),
                quantity: *quantity,
                direction: *direction,
                on_success: copy_actions(on_success),
                on_failure: copy_actions(on_failure),
            },
            EventAction::GiveExperience { amount, target, direction, on_success, on_failure } =>
                EventAction::GiveExperience {
                amount: *amount,
                target: copy_opt_text(target),
                direction: *direction,
                on_success: copy_actions(on_success),
                on_failure: copy_actions(on_failure),
            },
            EventAction::MoveEntity { target, target_x, target_y, speed_bits } => EventAction::MoveEntity {
                target: target.copy(),
                target_x: *target_x,
                target_y: *target_y,
                speed_bits: *speed_bits,
            },
            EventAction::CameraFollow { target } => EventAction::CameraFollow { target: target.copy() },
            EventAction::CameraPan { target_x, target_y, duration_bits } => EventAction::CameraPan {
                target_x: *target_x,
                target_y: *target_y,
                duration_bits: *duration_bits,
            },
            EventAction::Wait { duration_bits } => EventAction::Wait { duration_bits: *duration_bits },
            EventAction::Jump { distance } => EventAction::Jump { distance: *distance },
            EventAction::SetSpeed { multiplier_bits } => EventAction::SetSpeed { multiplier_bits: *multiplier_bits },
        }
    }
}

// ─── Size ────────────────────────────────────────────────────────────────────

/// The number of actions in an action and the branches that the action
/// queue may run in its place.
pub open spec fn action_size(a: ActionView) -> nat
    decreases a,
{
    match a {
        ActionView::StateCheck { on_true, on_false, .. } => 1 + seq_size(on_true) + seq_size(
            on_false,
        ),
        ActionView::Branch { on_true, on_false, .. } => 1 + seq_size(on_true) + seq_size(on_false),
        ActionView::GiveCurrency { on_success, on_failure, .. } => 1 + seq_size(on_success)
            + seq_size(on_failure),
        ActionView::LearnAbility { on_success, on_failure, .. } => 1 + seq_size(on_success)
            + seq_size(on_failure),
        ActionView::AddPartyMember { on_success, on_failure, .. } => 1 + seq_size(on_success)
            + seq_size(on_failure),
        ActionView::GiveItem { on_success, on_failure, .. } => 1 + seq_size(on_success) + seq_size(
            on_failure,
        ),
        ActionView::GiveExperience { on_success, on_failure, .. } => 1 + seq_size(on_success)
            + seq_size(on_failure),
        _ => 1,
    }
}

/// The total size of a sequence of actions.
pub open spec fn seq_size(s: Seq<ActionView>) -> nat
    decreases s,
{
    if s.len() == 0 {
        0
    } else {
        action_size(s[0]) + seq_size(s.drop_first())
    }
}

pub proof fn lemma_seq_size_concat(a: Seq<ActionView>, b: Seq<ActionView>)
    ensures
        seq_size(a + b) == seq_size(a) + seq_size(b),
    decreases a.len(),
{
    if a.len() > 0 {
        assert((a + b).drop_first() =~= a.drop_first() + b);
        assert((a + b)[0] == a[0]);
        lemma_seq_size_concat(a.drop_first(), b);
    }
}

} // verus!
