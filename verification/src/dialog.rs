//! Dialog text: the id-to-text registry, the dialog box's reveal state, and
//! how revealed characters spread over the styled segments of the text.
use vstd::prelude::*;
use crate::actions::{bits_at_most_zero, f32_at_most_zero, DialogConfigData, DialogPositionData, DialogTextData};
use crate::condition::flag_view;
use crate::markup::TextSegment;
use crate::strmap::StrMap;
use crate::text::chars_of;

verus! {

// ─── Text and placement ──────────────────────────────────────────────────────

/// The text of a dialog: given inline or by registry id.
#[derive(Debug, PartialEq, Eq)]
pub enum DialogText {
    Inline(String),
    Id(String),
}

/// Vertical placement of the dialog box.
#[derive(Debug, Clone, Copy, PartialEq, Eq, Structural)]
pub enum DialogPosition {
    Top,
    Center,
    Bottom,
}

/// The dialog text of an event's text data.
pub fn dialog_text_from_data(data: &DialogTextData) -> (r: DialogText)
    ensures
        match (data, r) {
            (DialogTextData::Inline(a), DialogText::Inline(b)) => a@ == b@,
            (DialogTextData::Id(a), DialogText::Id(b)) => a@ == b@,
            _ => false,
        },
{
    match data {
        DialogTextData::Inline(s) => DialogText::Inline(s.clone()),
        DialogTextData::Id(s) => DialogText::Id(s.clone()),
    }
}

/// The placement of an event's dialog configuration.
pub fn dialog_position_from_data(p: DialogPositionData) -> (r: DialogPosition)
    ensures
        r == match p {
            DialogPositionData::Top => DialogPosition::Top,
            DialogPositionData::Center => DialogPosition::Center,
            DialogPositionData::Bottom => DialogPosition::Bottom,
        },
{
    match p {
        DialogPositionData::Top => DialogPosition::Top,
        DialogPositionData::Center => DialogPosition::Center,
        DialogPositionData::Bottom => DialogPosition::Bottom,
    }
}

// ─── Configuration ───────────────────────────────────────────────────────────

/// How a dialog box behaves: its reveal rate (the bit pattern of an `f32`
/// in characters per second), placement, whether it blocks movement,
/// whether it uses the borderless attribute style, and its face portrait.
pub struct DialogConfig {
    pub text_speed_bits: u32,
    pub position: DialogPosition,
    pub movement_block: bool,
    pub attribute_dialog: bool,
    pub face_portrait: Option<String>,
}

/// The bit pattern of `30.0f32`, the default reveal rate.
pub const DEFAULT_TEXT_SPEED_BITS: u32 = 0x41f0_0000u32;

impl Default for DialogConfig {
    /// Thirty characters per second, at the bottom, blocking movement.
    fn default() -> (r: Self)
        ensures
            r.text_speed_bits == DEFAULT_TEXT_SPEED_BITS,
            r.position == DialogPosition::Bottom,
            r.movement_block,
            !r.attribute_dialog,
            r.face_portrait is None,
    {
        DialogConfig {
            text_speed_bits: DEFAULT_TEXT_SPEED_BITS,
            position: DialogPosition::Bottom,
            movement_block: true,
            attribute_dialog: false,
            face_portrait: None,
        }
    }
}

/// The dialog configuration that an event's configuration data describes.
pub fn dialog_config_from_data(data: &DialogConfigData) -> (r: DialogConfig)
    ensures
        r.text_speed_bits == data.text_speed_bits,
        r.position == match data.position {
            DialogPositionData::Top => DialogPosition::Top,
            DialogPositionData::Center => DialogPosition::Center,
            DialogPositionData::Bottom => DialogPosition::Bottom,
        },
        r.movement_block == data.movement_block,
        r.attribute_dialog == data.attribute_dialog,
        crate::condition::opt_view(r.face_portrait) == crate::condition::opt_view(data.face_portrait),
{
    DialogConfig {
        text_speed_bits: data.text_speed_bits,
        position: dialog_position_from_data(data.position),
        movement_block: data.movement_block,
        attribute_dialog: data.attribute_dialog,
        face_portrait: match &data.face_portrait {
            Some(p) => Some(p.clone()),
            None => None,
        },
    }
}

// ─── Registry ────────────────────────────────────────────────────────────────

/// Dialog texts by id; replaceable at runtime (for localization).
pub struct DialogTextRegistry {
    pub entries: StrMap<String>,
}

/// The id-to-text pairs that `serde_json` reads from a JSON object of
/// strings (`None` when the text is no such object).
pub uninterp spec fn json_text_map(json: Seq<char>) -> Option<Seq<(Seq<char>, Seq<char>)>>;

/// Calls `serde_json::from_str` to read a JSON object whose values are
/// strings, and lists its entries. The contract names the result: the
/// pairs read, a function of the text alone, or an error exactly when the
/// name gives none.
#[verifier::external_body]
fn parse_text_map(json: &str) -> (r: Result<Vec<(String, String)>, serde_json::Error>)
    ensures
        match r {
            Ok(v) => json_text_map(json@) == Some(v@.map_values(|e: (String, String)| (e.0@, e.1@))),
            Err(_) => json_text_map(json@) is None,
        },
{
    let m: std::collections::BTreeMap<String, String> = serde_json::from_str(json)?;
    Ok(m.into_iter().collect())
}

#[verifier::external_type_specification]
#[verifier::external_body]
pub struct ExJsonError(serde_json::Error);

/// The registry's JSON text could not be read; the parser's error says why.
#[derive(Debug)]
pub enum RegistryError {
    InvalidJson(serde_json::Error),
}

/// The mapping that inserting `pairs` in order into an empty map gives.
pub open spec fn pairs_map(pairs: Seq<(Seq<char>, Seq<char>)>) -> Map<Seq<char>, Seq<char>>
    decreases pairs.len(),
{
    if pairs.len() == 0 {
        Map::empty()
    } else {
        pairs_map(pairs.drop_last()).insert(pairs.last().0, pairs.last().1)
    }
}

pub open spec fn text_pairs(v: Seq<(String, String)>) -> Seq<(Seq<char>, Seq<char>)> {
    v.map_values(|e: (String, String)| (e.0@, e.1@))
}

impl DialogTextRegistry {
    /// The texts as a mapping.
    pub open spec fn texts(&self) -> Map<Seq<char>, Seq<char>> {
        flag_view(self.entries.map())
    }

    /// An empty registry.
    pub fn new() -> (r: Self)
        ensures
            r.texts() == Map::<Seq<char>, Seq<char>>::empty(),
    {
        let r = DialogTextRegistry { entries: StrMap::new() };
        assert(r.texts() =~= Map::<Seq<char>, Seq<char>>::empty());
        r
    }

    /// A registry of the given pairs (a later pair with the same id wins).
    pub fn from_map(entries: Vec<(String, String)>) -> (r: Self)
        ensures
            r.texts() == pairs_map(text_pairs(entries@)),
    {
        let mut reg = DialogTextRegistry::new();
        let mut entries = entries;
        let ghost all = text_pairs(entries@);
        let n0 = entries.len();
        let mut rest: Vec<(String, String)> = Vec::new();
        // take the pairs from the back, then insert them front to back
        while entries.len() > 0
            invariant
                text_pairs(entries@) + text_pairs(rest@).reverse() == all,
                entries@.len() + rest@.len() == n0,
                all.len() == n0,
            decreases entries@.len(),
        {
            let ghost before = entries@;
            let e = entries.pop().unwrap();
            rest.push(e);
            assert(text_pairs(entries@) + text_pairs(rest@).reverse() =~= all) by {
                assert(before =~= entries@.push(e));
                assert(text_pairs(rest@).reverse() =~= seq![(e.0@, e.1@)] + text_pairs(rest@.drop_last()).reverse());
            }
        }
        assert(text_pairs(rest@).reverse() =~= all);
        let ghost done: Seq<(Seq<char>, Seq<char>)> = Seq::empty();
        let mut done_len: usize = 0;
        while rest.len() > 0
            invariant
                text_pairs(rest@).reverse() == all.skip(done_len as int),
                done_len + rest@.len() == all.len(),
                all.len() == n0,
                reg.texts() == pairs_map(all.take(done_len as int)),
            decreases rest@.len(),
        {
            let ghost before = rest@;
            let (k, v) = rest.pop().unwrap();
            proof {
                assert(before =~= rest@.push((k, v)));
                assert(text_pairs(before).reverse() =~= seq![(k@, v@)] + text_pairs(rest@).reverse());
                assert(all.skip(done_len as int)[0] == (k@, v@));
                assert(all.skip(done_len as int).drop_first() =~= all.skip(done_len + 1));
                assert(all.take(done_len + 1).drop_last() =~= all.take(done_len as int));
                assert(all.take(done_len + 1).last() == (k@, v@));
            }
            reg.insert(k, v);
            done_len = done_len + 1;
        }
        assert(all.take(done_len as int) =~= all);
        reg
    }

    /// Stores `text` under `id`.
    pub fn insert(&mut self, id: String, text: String)
        ensures
            final(self).texts() == old(self).texts().insert(id@, text@),
    {
        let ghost before = self.entries.map();
        self.entries.insert(id, text);
        assert(self.texts() =~= flag_view(before).insert(id@, text@));
    }

    /// The text registered under `id`.
    pub fn get(&self, id: &str) -> (r: Option<&str>)
        ensures
            match r {
                Some(t) => self.texts().contains_key(id@) && t@ == self.texts()[id@],
                None => !self.texts().contains_key(id@),
            },
    {
        match self.entries.get(id) {
            Some(t) => Some(t.as_str()),
            None => None,
        }
    }

    /// Removes and returns the text under `id`.
    pub fn remove(&mut self, id: &str) -> (r: Option<String>)
        ensures
            final(self).texts() == old(self).texts().remove(id@),
            match r {
                Some(t) => old(self).texts().contains_key(id@) && t@ == old(self).texts()[id@],
                None => !old(self).texts().contains_key(id@),
            },
    {
        let ghost before = self.entries.map();
        let r = self.entries.remove(id);
        assert(self.texts() =~= flag_view(before).remove(id@));
        r
    }

    /// Reads a registry from a JSON object of strings.
    pub fn from_json(json: &str) -> (r: Result<Self, RegistryError>)
        ensures
            match json_text_map(json@) {
                Some(pairs) => r matches Ok(reg) && reg.texts() == pairs_map(pairs),
                None => r matches Err(RegistryError::InvalidJson(_)),
            },
    {
        match parse_text_map(json) {
            Ok(pairs) => Ok(DialogTextRegistry::from_map(pairs)),
            Err(e) => Err(RegistryError::InvalidJson(e)),
        }
    }
}

/// A later insertion of an id replaces an earlier one, and other ids keep
/// their texts.
pub proof fn law_registry_read_after_write(texts: Map<Seq<char>, Seq<char>>, id: Seq<char>, text: Seq<char>, other: Seq<char>)
    requires
        other != id,
    ensures
        texts.insert(id, text)[id] == text,
        texts.insert(id, text).contains_key(other) == texts.contains_key(other),
        texts.contains_key(other) ==> texts.insert(id, text)[other] == texts[other],
        !texts.insert(id, text).remove(id).contains_key(id),
{
}

// ─── The dialog box ──────────────────────────────────────────────────────────

/// The dialog on screen: its text and how much of it is revealed. The
/// reveal rate (characters per second) and elapsed time are `f32` values
/// carried as their bit patterns.
pub struct DialogState {
    pub full_text: String,
    pub total_chars: usize,
    pub chars_revealed: usize,
    pub fully_revealed: bool,
    pub elapsed_bits: u32,
    pub text_speed_bits: u32,
    pub movement_blocked: bool,
}

/// Opens a dialog box on resolved text: a rate of zero or less (or empty
/// text) shows everything at once; otherwise nothing is revealed yet.
pub fn open_dialog(text: String, text_speed_bits: u32, movement_block: bool) -> (r: DialogState)
    ensures
        r.full_text@ == text@,
        r.total_chars == text@.len(),
        r.fully_revealed == (f32_at_most_zero(text_speed_bits) || text@.len() == 0),
        r.chars_revealed == if r.fully_revealed { r.total_chars } else { 0 },
        r.elapsed_bits == 0,
        r.text_speed_bits == text_speed_bits,
        r.movement_blocked == movement_block,
{
    let total = chars_of(text.as_str()).len();
    let fully = bits_at_most_zero(text_speed_bits) || total == 0;
    DialogState {
        full_text: text,
        total_chars: total,
        chars_revealed: if fully { total } else { 0 },
        fully_revealed: fully,
        elapsed_bits: 0,
        text_speed_bits,
        movement_blocked: movement_block,
    }
}

/// What the action key did to the dialog.
#[derive(Debug, Clone, Copy, PartialEq, Eq, Structural)]
pub enum DialogInput {
    Nothing,
    /// The rest of the text was revealed at once.
    Revealed,
    /// The dialog was dismissed.
    Dismissed,
}

/// The action key (Space or Enter) on a dialog: a partly revealed text is
/// revealed completely; a complete one is dismissed.
pub fn handle_dialog_input(pressed: bool, dialog: &mut Option<DialogState>) -> (r: DialogInput)
    ensures
        !pressed || *old(dialog) is None ==> r == DialogInput::Nothing && *final(dialog) == *old(dialog),
        pressed && *old(dialog) is Some ==> {
            let s = (*old(dialog))->0;
            if s.fully_revealed {
                &&& r == DialogInput::Dismissed
                &&& *final(dialog) is None
            } else {
                &&& r == DialogInput::Revealed
                &&& *final(dialog) == Some(DialogState { chars_revealed: s.total_chars, fully_revealed: true, ..s })
            }
        },
{
    if !pressed {
        return DialogInput::Nothing;
    }
    match dialog {
        None => DialogInput::Nothing,
        Some(s) => {
            if !s.fully_revealed {
                s.chars_revealed = s.total_chars;
                s.fully_revealed = true;
                DialogInput::Revealed
            } else {
                *dialog = None;
                DialogInput::Dismissed
            }
        },
    }
}

/// Advances the typewriter to `computed` revealed characters (what the
/// reveal rate gives for the elapsed time); a rate of zero or less reveals
/// everything.
pub fn update_dialog_typewriter(state: &mut DialogState, computed: usize)
    ensures
        f32_at_most_zero(old(state).text_speed_bits) ==> {
            &&& final(state).chars_revealed == old(state).total_chars
            &&& final(state).fully_revealed
        },
        !f32_at_most_zero(old(state).text_speed_bits) ==> {
            &&& final(state).chars_revealed == computed
            &&& final(state).fully_revealed == (computed >= old(state).total_chars)
        },
        final(state).full_text == old(state).full_text,
        final(state).total_chars == old(state).total_chars,
        final(state).text_speed_bits == old(state).text_speed_bits,
        final(state).elapsed_bits == old(state).elapsed_bits,
        final(state).movement_blocked == old(state).movement_blocked,
{
    if bits_at_most_zero(state.text_speed_bits) {
        state.chars_revealed = state.total_chars;
        state.fully_revealed = true;
    } else {
        state.chars_revealed = computed;
        state.fully_revealed = computed >= state.total_chars;
    }
}

/// The most characters the dialog box shows without scrolling (about three
/// lines of eighty).
pub const ESTIMATED_CAPACITY: usize = 240;

/// Whether the text runs past what the dialog box shows.
pub fn detect_overflow(text: &str) -> (r: bool)
    ensures
        r == (text@.len() > ESTIMATED_CAPACITY),
{
    chars_of(text).len() > ESTIMATED_CAPACITY
}

// ─── Revealing styled segments ───────────────────────────────────────────────

/// The visible part of each segment when `n` characters of the whole text
/// are revealed: segments fill in order.
pub open spec fn visible_parts(n: nat, segs: Seq<Seq<char>>) -> Seq<Seq<char>>
    decreases segs.len(),
{
    if segs.len() == 0 {
        Seq::empty()
    } else {
        let first = segs[0];
        let shown = if n < first.len() {
            n
        } else {
            first.len()
        };
        seq![first.take(shown as int)] + visible_parts(
            if n > first.len() {
                (n - first.len()) as nat
            } else {
                0
            },
            segs.drop_first(),
        )
    }
}

pub open spec fn concat_all(segs: Seq<Seq<char>>) -> Seq<char>
    decreases segs.len(),
{
    if segs.len() == 0 {
        Seq::empty()
    } else {
        segs[0] + concat_all(segs.drop_first())
    }
}

pub open spec fn segment_texts(s: Seq<TextSegment>) -> Seq<Seq<char>> {
    s.map_values(|t: TextSegment| t.text@)
}

/// The visible parts, read in order, are exactly the first `n` characters
/// of the whole text (all of it when `n` is larger).
pub proof fn law_visible_parts_reveal_prefix(n: nat, segs: Seq<Seq<char>>)
    ensures
        visible_parts(n, segs).len() == segs.len(),
        concat_all(visible_parts(n, segs)) == concat_all(segs).take(
            if n < concat_all(segs).len() { n as int } else { concat_all(segs).len() as int },
        ),
    decreases segs.len(),
{
    if segs.len() > 0 {
        let first = segs[0];
        let rest_n: nat = if n > first.len() { (n - first.len()) as nat } else { 0 };
        law_visible_parts_reveal_prefix(rest_n, segs.drop_first());
        let vp = visible_parts(n, segs);
        assert(vp.drop_first() == visible_parts(rest_n, segs.drop_first()));
        let whole = concat_all(segs);
        assert(whole == first + concat_all(segs.drop_first()));
        if n <= first.len() {
            assert(rest_n == 0);
            assert(concat_all(visible_parts(0, segs.drop_first())) =~= Seq::<char>::empty());
            assert(concat_all(vp) =~= first.take(n as int));
            assert(whole.take(n as int) =~= first.take(n as int));
        } else {
            assert(concat_all(vp) =~= whole.take(
                if n < whole.len() { n as int } else { whole.len() as int },
            ));
        }
    }
}

/// The visible text of each styled segment when `chars_revealed` characters
/// are revealed.
pub fn reveal_text_spans(chars_revealed: usize, segments: &Vec<TextSegment>) -> (r: Vec<String>)
    ensures
        r@.map_values(|s: String| s@) == visible_parts(chars_revealed as nat, segment_texts(segments@)),
{
    let ghost all = segment_texts(segments@);
    let mut out: Vec<String> = Vec::new();
    let mut remaining: usize = chars_revealed;
    let mut i: usize = 0;
    assert(all.skip(0) =~= all);
    assert(out@.map_values(|s: String| s@) + visible_parts(remaining as nat, all.skip(0)) =~= visible_parts(
        chars_revealed as nat,
        all,
    ));
    while i < segments.len()
        invariant
            i <= segments@.len(),
            all == segment_texts(segments@),
            out@.map_values(|s: String| s@) + visible_parts(remaining as nat, all.skip(i as int))
                == visible_parts(chars_revealed as nat, all),
        decreases segments@.len() - i,
    {
        let chars = chars_of(segments[i].text.as_str());
        let seg_len = chars.len();
        let shown = if remaining < seg_len { remaining } else { seg_len };
        let mut visible = String::new();
        let mut k: usize = 0;
        while k < shown
            invariant
                k <= shown,
                shown <= chars@.len(),
                visible@ == chars@.take(k as int),
            decreases shown - k,
        {
            visible.push(chars[k]);
            assert(chars@.take(k + 1) =~= chars@.take(k as int).push(chars@[k as int]));
            k = k + 1;
        }
        proof {
            let rest = all.skip(i as int);
            assert(rest[0] == segments@[i as int].text@);
            assert(rest.drop_first() =~= all.skip(i + 1));
            let ghost before = out@.map_values(|s: String| s@);
            assert(visible_parts(remaining as nat, rest) == seq![chars@.take(shown as int)] + visible_parts(
                if remaining > seg_len { (remaining - seg_len) as nat } else { 0 },
                all.skip(i + 1),
            ));
        }
        let ghost before = out@;
        out.push(visible);
        proof {
            assert(out@.map_values(|s: String| s@) =~= before.map_values(|s: String| s@).push(chars@.take(shown as int)));
            let next_rem: nat = if remaining > seg_len { (remaining - seg_len) as nat } else { 0 };
            assert(out@.map_values(|s: String| s@) + visible_parts(next_rem, all.skip(i + 1)) =~= before.map_values(
                |s: String| s@,
            ) + (seq![chars@.take(shown as int)] + visible_parts(next_rem, all.skip(i + 1))));
        }
        remaining = if remaining > seg_len { remaining - seg_len } else { 0 };
        i = i + 1;
    }
    assert(visible_parts(remaining as nat, all.skip(i as int)) =~= Seq::<Seq<char>>::empty());
    out
}

} // verus!
