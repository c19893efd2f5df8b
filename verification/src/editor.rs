//! Editor bookkeeping: project-wide edits (spawn point, dialog texts, face
//! portraits) applied and reverted for undo and redo, the spritesheet
//! removal prompt, the shop deletion prompt, and short labels.
use vstd::prelude::*;
use crate::condition::{flag_view, opt_view};
use crate::catalog::ShopRegistry;
use crate::save::SpawnPoint;
use crate::strmap::StrMap;

verus! {

/// An edit of project-wide data, with what it replaced.
pub enum ProjectEdit {
    SetSpawnPoint { old_spawn: Option<SpawnPoint>, new_spawn: Option<SpawnPoint> },
    InsertDialogText { text_id: String, text: String },
    UpdateDialogText { text_id: String, old_text: String, new_text: String },
    RemoveDialogText { text_id: String, old_text: String },
    InsertFacePortrait { id: String, path: String },
    UpdateFacePortrait { id: String, old_path: String, new_path: String },
    RemoveFacePortrait { id: String, path: String },
}

/// The project-wide data that such edits change.
pub struct ProjectTexts {
    pub dialog_texts: StrMap<String>,
    pub face_portraits: StrMap<String>,
    pub spawn_point: Option<SpawnPoint>,
}

/// Project-wide data as values.
pub struct ProjectTextsView {
    pub dialog_texts: Map<Seq<char>, Seq<char>>,
    pub face_portraits: Map<Seq<char>, Seq<char>>,
    pub spawn_point: Option<(Seq<char>, u32, u32)>,
}

pub open spec fn spawn_value(s: Option<SpawnPoint>) -> Option<(Seq<char>, u32, u32)> {
    match s {
        Some(p) => Some((p.map_id@, p.x, p.y)),
        None => None,
    }
}

pub open spec fn project_texts_view(p: ProjectTexts) -> ProjectTextsView {
    ProjectTextsView {
        dialog_texts: flag_view(p.dialog_texts.map()),
        face_portraits: flag_view(p.face_portraits.map()),
        spawn_point: spawn_value(p.spawn_point),
    }
}

/// An edit as values.
pub enum EditView {
    SetSpawnPoint { old_spawn: Option<(Seq<char>, u32, u32)>, new_spawn: Option<(Seq<char>, u32, u32)> },
    InsertDialogText { text_id: Seq<char>, text: Seq<char> },
    UpdateDialogText { text_id: Seq<char>, old_text: Seq<char>, new_text: Seq<char> },
    RemoveDialogText { text_id: Seq<char>, old_text: Seq<char> },
    InsertFacePortrait { id: Seq<char>, path: Seq<char> },
    UpdateFacePortrait { id: Seq<char>, old_path: Seq<char>, new_path: Seq<char> },
    RemoveFacePortrait { id: Seq<char>, path: Seq<char> },
}

pub open spec fn edit_view(e: ProjectEdit) -> EditView {
    match e {
        ProjectEdit::SetSpawnPoint { old_spawn, new_spawn } => EditView::SetSpawnPoint {
            old_spawn: spawn_value(old_spawn),
            new_spawn: spawn_value(new_spawn),
        },
        ProjectEdit::InsertDialogText { text_id, text } => EditView::InsertDialogText {
            text_id: text_id@,
            text: text@,
        },
        ProjectEdit::UpdateDialogText { text_id, old_text, new_text } => EditView::UpdateDialogText {
            text_id: text_id@,
            old_text: old_text@,
            new_text: new_text@,
        },
        ProjectEdit::RemoveDialogText { text_id, old_text } => EditView::RemoveDialogText {
            text_id: text_id@,
            old_text: old_text@,
        },
        ProjectEdit::InsertFacePortrait { id, path } => EditView::InsertFacePortrait { id: id@, path: path@ },
        ProjectEdit::UpdateFacePortrait { id, old_path, new_path } => EditView::UpdateFacePortrait {
            id: id@,
            old_path: old_path@,
            new_path: new_path@,
        },
        ProjectEdit::RemoveFacePortrait { id, path } => EditView::RemoveFacePortrait { id: id@, path: path@ },
    }
}

/// The data after doing (or redoing) an edit.
pub open spec fn applied(p: ProjectTextsView, e: EditView) -> ProjectTextsView {
    match e {
        EditView::SetSpawnPoint { new_spawn, .. } => ProjectTextsView { spawn_point: new_spawn, ..p },
        EditView::InsertDialogText { text_id, text } => ProjectTextsView {
            dialog_texts: p.dialog_texts.insert(text_id, text),
            ..p
        },
        EditView::UpdateDialogText { text_id, new_text, .. } => ProjectTextsView {
            dialog_texts: p.dialog_texts.insert(text_id, new_text),
            ..p
        },
        EditView::RemoveDialogText { text_id, .. } => ProjectTextsView {
            dialog_texts: p.dialog_texts.remove(text_id),
            ..p
        },
        EditView::InsertFacePortrait { id, path } => ProjectTextsView {
            face_portraits: p.face_portraits.insert(id, path),
            ..p
        },
        EditView::UpdateFacePortrait { id, new_path, .. } => ProjectTextsView {
            face_portraits: p.face_portraits.insert(id, new_path),
            ..p
        },
        EditView::RemoveFacePortrait { id, .. } => ProjectTextsView {
            face_portraits: p.face_portraits.remove(id),
            ..p
        },
    }
}

/// The data after undoing an edit.
pub open spec fn reverted(p: ProjectTextsView, e: EditView) -> ProjectTextsView {
    match e {
        EditView::SetSpawnPoint { old_spawn, .. } => ProjectTextsView { spawn_point: old_spawn, ..p },
        EditView::InsertDialogText { text_id, .. } => ProjectTextsView {
            dialog_texts: p.dialog_texts.remove(text_id),
            ..p
        },
        EditView::UpdateDialogText { text_id, old_text, .. } => ProjectTextsView {
            dialog_texts: p.dialog_texts.insert(text_id, old_text),
            ..p
        },
        EditView::RemoveDialogText { text_id, old_text } => ProjectTextsView {
            dialog_texts: p.dialog_texts.insert(text_id, old_text),
            ..p
        },
        EditView::InsertFacePortrait { id, .. } => ProjectTextsView {
            face_portraits: p.face_portraits.remove(id),
            ..p
        },
        EditView::UpdateFacePortrait { id, old_path, .. } => ProjectTextsView {
            face_portraits: p.face_portraits.insert(id, old_path),
            ..p
        },
        EditView::RemoveFacePortrait { id, path } => ProjectTextsView {
            face_portraits: p.face_portraits.insert(id, path),
            ..p
        },
    }
}

/// The edit records what the data held before it: an inserted entry was
/// absent, an updated or removed one held the recorded old value, and the
/// old spawn point was the current one.
pub open spec fn recorded_against(p: ProjectTextsView, e: EditView) -> bool {
    match e {
        EditView::SetSpawnPoint { old_spawn, .. } => p.spawn_point == old_spawn,
        EditView::InsertDialogText { text_id, .. } => !p.dialog_texts.contains_key(text_id),
        EditView::UpdateDialogText { text_id, old_text, .. } => p.dialog_texts.contains_key(text_id)
            && p.dialog_texts[text_id] == old_text,
        EditView::RemoveDialogText { text_id, old_text } => p.dialog_texts.contains_key(text_id)
            && p.dialog_texts[text_id] == old_text,
        EditView::InsertFacePortrait { id, .. } => !p.face_portraits.contains_key(id),
        EditView::UpdateFacePortrait { id, old_path, .. } => p.face_portraits.contains_key(id)
            && p.face_portraits[id] == old_path,
        EditView::RemoveFacePortrait { id, path } => p.face_portraits.contains_key(id) && p.face_portraits[id]
            == path,
    }
}

fn copy_spawn(s: &Option<SpawnPoint>) -> (r: Option<SpawnPoint>)
    ensures
        spawn_value(r) == spawn_value(*s),
{
    match s {
        Some(p) => Some(SpawnPoint { map_id: p.map_id.clone(), x: p.x, y: p.y }),
        None => None,
    }
}

fn put_text(m: &mut StrMap<String>, key: &String, value: &String)
    ensures
        flag_view(final(m).map()) == flag_view(old(m).map()).insert(key@, value@),
{
    let ghost before = m.map();
    m.insert(key.clone(), value.clone());
    assert(flag_view(m.map()) =~= flag_view(before).insert(key@, value@));
}

fn drop_text(m: &mut StrMap<String>, key: &String)
    ensures
        flag_view(final(m).map()) == flag_view(old(m).map()).remove(key@),
{
    let ghost before = m.map();
    m.remove(key.as_str());
    assert(flag_view(m.map()) =~= flag_view(before).remove(key@));
}

/// Does (or redoes) an edit of project-wide data.
pub fn apply_project_edit(p: &mut ProjectTexts, e: &ProjectEdit)
    ensures
        project_texts_view(*final(p)) == applied(project_texts_view(*old(p)), edit_view(*e)),
{
    match e {
        ProjectEdit::SetSpawnPoint { new_spawn, .. } => p.spawn_point = copy_spawn(new_spawn),
        ProjectEdit::InsertDialogText { text_id, text } => put_text(&mut p.dialog_texts, text_id, text),
        ProjectEdit::UpdateDialogText { text_id, new_text, .. } => put_text(&mut p.dialog_texts, text_id, new_text),
        ProjectEdit::RemoveDialogText { text_id, .. } => drop_text(&mut p.dialog_texts, text_id),
        ProjectEdit::InsertFacePortrait { id, path } => put_text(&mut p.face_portraits, id, path),
        ProjectEdit::UpdateFacePortrait { id, new_path, .. } => put_text(&mut p.face_portraits, id, new_path),
        ProjectEdit::RemoveFacePortrait { id, .. } => drop_text(&mut p.face_portraits, id),
    }
}

/// Undoes an edit of project-wide data.
pub fn revert_project_edit(p: &mut ProjectTexts, e: &ProjectEdit)
    ensures
        project_texts_view(*final(p)) == reverted(project_texts_view(*old(p)), edit_view(*e)),
{
    match e {
        ProjectEdit::SetSpawnPoint { old_spawn, .. } => p.spawn_point = copy_spawn(old_spawn),
        ProjectEdit::InsertDialogText { text_id, .. } => drop_text(&mut p.dialog_texts, text_id),
        ProjectEdit::UpdateDialogText { text_id, old_text, .. } => put_text(&mut p.dialog_texts, text_id, old_text),
        ProjectEdit::RemoveDialogText { text_id, old_text } => put_text(&mut p.dialog_texts, text_id, old_text),
        ProjectEdit::InsertFacePortrait { id, .. } => drop_text(&mut p.face_portraits, id),
        ProjectEdit::UpdateFacePortrait { id, old_path, .. } => put_text(&mut p.face_portraits, id, old_path),
        ProjectEdit::RemoveFacePortrait { id, path } => put_text(&mut p.face_portraits, id, path),
    }
}

/// Undo after do restores the data the edit was recorded against; redo
/// after undo gives the edited data again.
pub proof fn law_undo_restores(p: ProjectTextsView, e: EditView)
    requires
        recorded_against(p, e),
    ensures
        reverted(applied(p, e), e) == p,
        applied(reverted(applied(p, e), e), e) == applied(p, e),
{
    match e {
        EditView::InsertDialogText { text_id, text } => {
            assert(p.dialog_texts.insert(text_id, text).remove(text_id) =~= p.dialog_texts);
        },
        EditView::UpdateDialogText { text_id, old_text, new_text } => {
            assert(p.dialog_texts.insert(text_id, new_text).insert(text_id, old_text) =~= p.dialog_texts);
        },
        EditView::RemoveDialogText { text_id, old_text } => {
            assert(p.dialog_texts.remove(text_id).insert(text_id, old_text) =~= p.dialog_texts);
        },
        EditView::InsertFacePortrait { id, path } => {
            assert(p.face_portraits.insert(id, path).remove(id) =~= p.face_portraits);
        },
        EditView::UpdateFacePortrait { id, old_path, new_path } => {
            assert(p.face_portraits.insert(id, new_path).insert(id, old_path) =~= p.face_portraits);
        },
        EditView::RemoveFacePortrait { id, path } => {
            assert(p.face_portraits.remove(id).insert(id, path) =~= p.face_portraits);
        },
        EditView::SetSpawnPoint { .. } => {},
    }
}

// ─── Spritesheet removal ─────────────────────────────────────────────────────

/// The confirmation prompt shown before removing a spritesheet that is
/// still referenced.
pub struct RemoveSpritesheetDialog {
    pub open: bool,
    pub spritesheet_id: Option<String>,
    pub npc_count: usize,
    pub player_reference: bool,
}

/// Removes a spritesheet, and clears the player's spritesheet if it was it.
fn remove_spritesheet<V>(spritesheets: &mut StrMap<V>, player_spritesheet: &mut Option<String>, id: &String)
    ensures
        final(spritesheets).map() == old(spritesheets).map().remove(id@),
        opt_view(*final(player_spritesheet)) == if opt_view(*old(player_spritesheet)) == Some(id@) {
            None
        } else {
            opt_view(*old(player_spritesheet))
        },
{
    spritesheets.remove(id.as_str());
    let clear = match player_spritesheet {
        Some(p) => crate::text::str_eq(p.as_str(), id.as_str()),
        None => false,
    };
    if clear {
        *player_spritesheet = None;
    }
}

/// A request to remove spritesheet `id`, which `npc_references` NPCs and
/// (if `player_reference`) the player use: unreferenced, it is removed at
/// once; otherwise the confirmation prompt opens.
pub fn request_spritesheet_remove<V>(
    dialog: &mut RemoveSpritesheetDialog,
    spritesheets: &mut StrMap<V>,
    player_spritesheet: &mut Option<String>,
    id: String,
    npc_references: usize,
    player_reference: bool,
)
    ensures
        if npc_references == 0 && !player_reference {
            &&& final(spritesheets).map() == old(spritesheets).map().remove(id@)
            &&& opt_view(*final(player_spritesheet)) == if opt_view(*old(player_spritesheet)) == Some(id@) {
                None
            } else {
                opt_view(*old(player_spritesheet))
            }
            &&& final(dialog).open == old(dialog).open
            &&& opt_view(final(dialog).spritesheet_id) == opt_view(old(dialog).spritesheet_id)
        } else {
            &&& final(spritesheets).map() == old(spritesheets).map()
            &&& *final(player_spritesheet) == *old(player_spritesheet)
            &&& final(dialog).open
            &&& opt_view(final(dialog).spritesheet_id) == Some(id@)
            &&& final(dialog).npc_count == npc_references
            &&& final(dialog).player_reference == player_reference
        },
{
    if npc_references == 0 && !player_reference {
        remove_spritesheet(spritesheets, player_spritesheet, &id);
    } else {
        dialog.open = true;
        dialog.spritesheet_id = Some(id);
        dialog.npc_count = npc_references;
        dialog.player_reference = player_reference;
    }
}

/// The answer to an open prompt: confirming removes the spritesheet (and
/// clears the player's if it was it); confirming, cancelling or closing
/// closes the prompt. A closed prompt ignores answers.
pub fn resolve_spritesheet_remove<V>(
    dialog: &mut RemoveSpritesheetDialog,
    spritesheets: &mut StrMap<V>,
    player_spritesheet: &mut Option<String>,
    confirm: bool,
    cancel_or_close: bool,
)
    ensures
        !old(dialog).open ==> {
            &&& final(spritesheets).map() == old(spritesheets).map()
            &&& *final(player_spritesheet) == *old(player_spritesheet)
            &&& !final(dialog).open
        },
        old(dialog).open && (confirm || cancel_or_close) ==> {
            &&& !final(dialog).open
            &&& final(dialog).spritesheet_id is None
        },
        old(dialog).open && !confirm && !cancel_or_close ==> {
            &&& final(dialog).open
            &&& opt_view(final(dialog).spritesheet_id) == opt_view(old(dialog).spritesheet_id)
        },
        old(dialog).open && confirm && !cancel_or_close && old(dialog).spritesheet_id is Some ==> {
            let id = old(dialog).spritesheet_id->0;
            &&& final(spritesheets).map() == old(spritesheets).map().remove(id@)
            &&& opt_view(*final(player_spritesheet)) == if opt_view(*old(player_spritesheet)) == Some(id@) {
                None
            } else {
                opt_view(*old(player_spritesheet))
            }
        },
        !(old(dialog).open && confirm && !cancel_or_close && old(dialog).spritesheet_id is Some) ==> {
            &&& final(spritesheets).map() == old(spritesheets).map()
            &&& *final(player_spritesheet) == *old(player_spritesheet)
        },
{
    if !dialog.open {
        return;
    }
    if cancel_or_close {
        dialog.open = false;
        dialog.spritesheet_id = None;
    }
    if confirm {
        match dialog.spritesheet_id.take() {
            Some(id) => remove_spritesheet(spritesheets, player_spritesheet, &id),
            None => {},
        }
        dialog.open = false;
        dialog.spritesheet_id = None;
    }
}

// ─── Shop deletion ───────────────────────────────────────────────────────────

/// The shop panel's selection and its pending delete confirmation.
pub struct ShopPanelSelection {
    pub selected_shop: Option<String>,
    pub name_edit_buffer: String,
    pub name_edit_error: Option<String>,
    /// The shop whose deletion awaits confirmation.
    pub delete_confirm_target: Option<String>,
}

/// The answer to the delete confirmation: deleting removes the shop and,
/// when it was the selected one, clears the selection, the name field and
/// its error; deleting, cancelling or closing ends the confirmation. Returns
/// whether the shops changed. Without a pending confirmation nothing
/// happens.
pub fn resolve_shop_delete(
    state: &mut ShopPanelSelection,
    shops: &mut ShopRegistry,
    delete: bool,
    cancel_or_close: bool,
) -> (changed: bool)
    ensures
        match old(state).delete_confirm_target {
            None => {
                &&& !changed
                &&& final(shops).shops.map() == old(shops).shops.map()
                &&& opt_view(final(state).selected_shop) == opt_view(old(state).selected_shop)
                &&& final(state).name_edit_buffer@ == old(state).name_edit_buffer@
                &&& opt_view(final(state).name_edit_error) == opt_view(old(state).name_edit_error)
                &&& final(state).delete_confirm_target is None
            },
            Some(t) => {
                &&& changed == delete
                &&& final(shops).shops.map() == if delete {
                    old(shops).shops.map().remove(t@)
                } else {
                    old(shops).shops.map()
                }
                &&& final(state).delete_confirm_target is Some == (!delete && !cancel_or_close)
                &&& (!delete && !cancel_or_close) ==> opt_view(final(state).delete_confirm_target) == Some(t@)
                &&& if delete && opt_view(old(state).selected_shop) == Some(t@) {
                    &&& final(state).selected_shop is None
                    &&& final(state).name_edit_buffer@ == Seq::<char>::empty()
                    &&& final(state).name_edit_error is None
                } else {
                    &&& opt_view(final(state).selected_shop) == opt_view(old(state).selected_shop)
                    &&& final(state).name_edit_buffer@ == old(state).name_edit_buffer@
                    &&& opt_view(final(state).name_edit_error) == opt_view(old(state).name_edit_error)
                }
            },
        },
{
    let target = match state.delete_confirm_target.take() {
        Some(t) => t,
        None => return false,
    };
    if !delete {
        if !cancel_or_close {
            state.delete_confirm_target = Some(target);
        }
        return false;
    }
    shops.shops.remove(target.as_str());
    let was_selected = match &state.selected_shop {
        Some(sel) => crate::text::str_eq(sel.as_str(), target.as_str()),
        None => false,
    };
    if was_selected {
        state.selected_shop = None;
        state.name_edit_buffer = String::new();
        state.name_edit_error = None;
    }
    true
}

// ─── Labels ──────────────────────────────────────────────────────────────────

/// The text `part` occurs in `text` at some position.
pub open spec fn occurs_in(part: Seq<char>, text: Seq<char>) -> bool {
    exists|i: int| 0 <= i && i + part.len() <= text.len() && #[trigger] text.subrange(i, i + part.len()) == part
}

/// A path whose meaning is the same on every platform: no `\\`, no `:`
/// (so no Windows drive or verbatim prefix), no leading `//`, and not made
/// of `.` components and separators alone after a leading `.` (such as `.`
/// or `./`, whose file name `Path::file_name` does not document).
pub open spec fn plain_path(p: Seq<char>) -> bool {
    &&& !p.contains('\\')
    &&& !p.contains(':')
    &&& !(p.len() >= 2 && p[0] == '/' && p[1] == '/')
    &&& !(p.len() > 0 && p[0] == '.' && strip_tail(p).len() == 0)
}

/// The path without trailing separators and trailing `.` components.
pub open spec fn strip_tail(p: Seq<char>) -> Seq<char>
    decreases p.len(),
{
    if p.len() > 0 && p.last() == '/' {
        strip_tail(p.drop_last())
    } else if p.len() > 0 && p.last() == '.' && (p.len() == 1 || p[p.len() - 2] == '/') {
        strip_tail(p.drop_last())
    } else {
        p
    }
}

/// The text after the last `/`.
pub open spec fn after_last_slash(p: Seq<char>) -> Seq<char>
    decreases p.len(),
{
    if p.len() == 0 {
        p
    } else if p.last() == '/' {
        Seq::empty()
    } else {
        after_last_slash(p.drop_last()).push(p.last())
    }
}

/// The final component of a plain path: what follows the last `/` once
/// trailing separators and `.` components are dropped; none when that is
/// empty (the root, or no component) or `..`.
pub open spec fn file_name_of(p: Seq<char>) -> Option<Seq<char>> {
    let n = after_last_slash(strip_tail(p));
    if n.len() == 0 || n == seq!['.', '.'] {
        None
    } else {
        Some(n)
    }
}

/// Calls `Path::file_name` on the path and converts the name to text. The
/// final component of a path is a piece of the path's own text. Which
/// characters separate components, and which prefixes a path may have,
/// depends on the platform; for a plain path (see `plain_path`) every
/// platform splits at `/`, ignores repeated and trailing separators and `.`
/// components, and has no name when the path ends in `..` or is the root,
/// as `Path::components` and `Path::file_name` document. Nothing is said
/// of other paths beyond the first clause.
#[verifier::external_body]
fn file_name(path: &str) -> (r: Option<String>)
    ensures
        r matches Some(n) ==> occurs_in(n@, path@),
        plain_path(path@) ==> crate::condition::opt_view(r) == file_name_of(path@),
{
    match std::path::Path::new(path).file_name() {
        Some(os) => match os.to_str() {
            Some(s) => Some(s.to_string()),
            None => None,
        },
        None => None,
    }
}

/// A short label for a spritesheet: the file name of its path ("Unknown"
/// when the path has none), or "Invalid" when it has no path.
pub fn short_spritesheet_label(file_path: Option<&str>) -> (r: String)
    ensures
        file_path is None ==> r@ == "Invalid"@,
        file_path matches Some(p) ==> (r@ == "Unknown"@ || occurs_in(r@, p@)),
        file_path matches Some(p) ==> (plain_path(p@) ==> r@ == (match file_name_of(p@) {
            Some(n) => n,
            None => "Unknown"@,
        })),
{
    match file_path {
        Some(path) => match file_name(path) {
            Some(name) => name,
            None => "Unknown".to_string(),
        },
        None => "Invalid".to_string(),
    }
}

} // verus!
