//! Reward actions: currency, items, experience, abilities and party members.
//!
//! Each operation either gives or takes. A take that cannot be satisfied
//! leaves the state unchanged and reports failure; a give reports nothing or
//! success as described per operation.
use vstd::prelude::*;
use crate::strmap::StrMap;
use crate::text::str_eq;

verus! {

/// Whether a reward action adds to or removes from the player's state.
#[derive(Debug, Clone, Copy, PartialEq, Eq, Structural)]
pub enum TransferDirection {
    Give,
    Take,
}

/// Per-character experience and learned abilities.
#[derive(Debug)]
pub struct CharacterProgress {
    pub experience: u64,
    pub learned_abilities: Vec<String>,
}

/// Texts as character sequences.
pub open spec fn texts_view(v: Seq<String>) -> Seq<Seq<char>> {
    v.map_values(|s: String| s@)
}

/// A character's progress as values.
pub open spec fn progress_entry_view(p: CharacterProgress) -> (u64, Seq<Seq<char>>) {
    (p.experience, texts_view(p.learned_abilities@))
}

/// All characters' progress as values.
pub open spec fn progress_view(m: Map<Seq<char>, CharacterProgress>) -> Map<
    Seq<char>,
    (u64, Seq<Seq<char>>),
> {
    m.map_values(|p: CharacterProgress| progress_entry_view(p))
}

/// `a + b`, capped at `u64::MAX`.
pub open spec fn sat_add_u64(a: u64, b: u64) -> u64 {
    if a + b > u64::MAX {
        u64::MAX
    } else {
        (a + b) as u64
    }
}

// ─── Currency ────────────────────────────────────────────────────────────────

/// The balance after a currency action and its outcome (`None`: no branch).
/// A give adds with saturation and reports nothing; a take succeeds only
/// when the balance covers the amount.
pub open spec fn currency_outcome(balance: u64, amount: u64, direction: TransferDirection) -> (
    u64,
    Option<bool>,
) {
    match direction {
        TransferDirection::Give => (sat_add_u64(balance, amount), None),
        TransferDirection::Take => if balance >= amount {
            ((balance - amount) as u64, Some(true))
        } else {
            (balance, Some(false))
        },
    }
}

/// Applies a currency reward to `balance`.
pub fn apply_currency(balance: &mut u64, amount: u64, direction: TransferDirection) -> (r: Option<bool>)
    ensures
        (*final(balance), r) == currency_outcome(*old(balance), amount, direction),
{
    match direction {
        TransferDirection::Give => {
            *balance = balance.saturating_add(amount);
            None
        },
        TransferDirection::Take => {
            if *balance >= amount {
                *balance = *balance - amount;
                Some(true)
            } else {
                Some(false)
            }
        },
    }
}

// ─── Items ───────────────────────────────────────────────────────────────────

pub open spec fn min_u32(a: int, b: u32) -> u32 {
    if a < b { a as u32 } else { b }
}

/// The inventory after an item action, and whether it succeeded.
///
/// Giving an item not yet held adds `min(quantity, stack_limit)` units.
/// Giving a held item fails when it is not stackable or already at its
/// stack limit, and otherwise raises the count to at most the stack limit.
/// Taking fails unless at least `quantity` units are held; an entry that
/// reaches zero is removed.
pub open spec fn item_outcome(
    inv: Map<Seq<char>, u32>,
    id: Seq<char>,
    quantity: u32,
    stackable: bool,
    stack_limit: u32,
    direction: TransferDirection,
) -> (Map<Seq<char>, u32>, bool) {
    match direction {
        TransferDirection::Give => if inv.contains_key(id) {
            let cur = inv[id];
            if !stackable || cur >= stack_limit {
                (inv, false)
            } else {
                (inv.insert(id, min_u32(cur + quantity, stack_limit)), true)
            }
        } else {
            (inv.insert(id, min_u32(quantity as int, stack_limit)), true)
        },
        TransferDirection::Take => if inv.contains_key(id) && inv[id] >= quantity {
            if inv[id] - quantity == 0 {
                (inv.remove(id), true)
            } else {
                (inv.insert(id, (inv[id] - quantity) as u32), true)
            }
        } else {
            (inv, false)
        },
    }
}

/// Applies an item reward to the inventory, returning whether it succeeded.
pub fn apply_item(
    inventory: &mut StrMap<u32>,
    item_id: &String,
    quantity: u32,
    stackable: bool,
    stack_limit: u32,
    direction: TransferDirection,
) -> (r: bool)
    ensures
        (final(inventory).map(), r) == item_outcome(
            old(inventory).map(),
            item_id@,
            quantity,
            stackable,
            stack_limit,
            direction,
        ),
{
    match direction {
        TransferDirection::Give => {
            match inventory.get(item_id.as_str()) {
                Some(cur) => {
                    let cur = *cur;
                    if !stackable {
                        false
                    } else if cur >= stack_limit {
                        false
                    } else {
                        let sum: u64 = cur as u64 + quantity as u64;
                        let capped: u32 = if sum < stack_limit as u64 {
                            sum as u32
                        } else {
                            stack_limit
                        };
                        inventory.insert(item_id.clone(), capped);
                        true
                    }
                },
                None => {
                    let capped = if quantity < stack_limit {
                        quantity
                    } else {
                        stack_limit
                    };
                    inventory.insert(item_id.clone(), capped);
                    true
                },
            }
        },
        TransferDirection::Take => {
            match inventory.get(item_id.as_str()) {
                Some(cur) => {
                    let cur = *cur;
                    if cur >= quantity {
                        let new_qty = cur - quantity;
                        if new_qty == 0 {
                            inventory.remove(item_id.as_str());
                        } else {
                            inventory.insert(item_id.clone(), new_qty);
                        }
                        true
                    } else {
                        false
                    }
                },
                None => false,
            }
        },
    }
}

// ─── Party ───────────────────────────────────────────────────────────────────

/// Position of the first occurrence of `x` in `s`, or `s.len()`.
pub open spec fn first_pos(s: Seq<Seq<char>>, x: Seq<char>) -> int
    decreases s.len(),
{
    if s.len() == 0 {
        0
    } else if s[0] == x {
        0
    } else {
        1 + first_pos(s.drop_first(), x)
    }
}

pub proof fn lemma_first_pos(s: Seq<Seq<char>>, x: Seq<char>)
    ensures
        0 <= first_pos(s, x) <= s.len(),
        first_pos(s, x) < s.len() ==> s[first_pos(s, x)] == x,
        forall|i: int| 0 <= i < first_pos(s, x) ==> s[i] != x,
        s.contains(x) <==> first_pos(s, x) < s.len(),
    decreases s.len(),
{
    if s.len() > 0 && s[0] != x {
        lemma_first_pos(s.drop_first(), x);
        assert forall|i: int| 0 <= i < first_pos(s, x) implies s[i] != x by {
            if i > 0 {
                assert(s[i] == s.drop_first()[i - 1]);
            }
        }
        if s.contains(x) {
            let k = choose|k: int| 0 <= k < s.len() && s[k] == x;
            assert(s.drop_first()[k - 1] == x);
        }
    }
}

/// Finds the first position of `x` among `v`.
fn position_of(v: &Vec<String>, x: &String) -> (r: Option<usize>)
    ensures
        match r {
            Some(i) => i == first_pos(texts_view(v@), x@) && i < v@.len(),
            None => !texts_view(v@).contains(x@) && first_pos(texts_view(v@), x@) == v@.len(),
        },
        r is Some <==> texts_view(v@).contains(x@),
{
    let ghost tv = texts_view(v@);
    proof {
        lemma_first_pos(tv, x@);
    }
    let mut i: usize = 0;
    while i < v.len()
        invariant
            tv == texts_view(v@),
            i <= v@.len(),
            forall|j: int| 0 <= j < i ==> tv[j] != x@,
            0 <= first_pos(tv, x@) <= tv.len(),
            first_pos(tv, x@) < tv.len() ==> tv[first_pos(tv, x@)] == x@,
            forall|j: int| 0 <= j < first_pos(tv, x@) ==> tv[j] != x@,
            tv.contains(x@) <==> first_pos(tv, x@) < tv.len(),
        decreases v@.len() - i,
    {
        if str_eq(v[i].as_str(), x.as_str()) {
            assert(tv[i as int] == x@);
            return Some(i);
        }
        i = i + 1;
    }
    None
}

/// The party after a party action, and its outcome (`None`: no branch).
/// Giving appends the member unless already present and reports nothing;
/// taking removes the first occurrence, or fails when absent.
pub open spec fn party_outcome(party: Seq<Seq<char>>, id: Seq<char>, direction: TransferDirection) -> (
    Seq<Seq<char>>,
    Option<bool>,
) {
    match direction {
        TransferDirection::Give => if party.contains(id) {
            (party, None)
        } else {
            (party.push(id), None)
        },
        TransferDirection::Take => if party.contains(id) {
            (party.remove(first_pos(party, id)), Some(true))
        } else {
            (party, Some(false))
        },
    }
}

/// Applies a party-membership action.
pub fn apply_party(party: &mut Vec<String>, character_id: &String, direction: TransferDirection) -> (r:
    Option<bool>)
    ensures
        (texts_view(final(party)@), r) == party_outcome(texts_view(old(party)@), character_id@, direction),
{
    let ghost before = texts_view(party@);
    match direction {
        TransferDirection::Give => {
            if position_of(party, character_id).is_none() {
                party.push(character_id.clone());
                assert(texts_view(party@) =~= before.push(character_id@));
            }
            None
        },
        TransferDirection::Take => {
            match position_of(party, character_id) {
                Some(pos) => {
                    party.remove(pos);
                    assert(texts_view(party@) =~= before.remove(pos as int));
                    Some(true)
                },
                None => Some(false),
            }
        },
    }
}

// ─── Abilities ───────────────────────────────────────────────────────────────

/// Progress after an ability action on `target`, and its outcome (`None`:
/// no branch). Learning adds the ability once (a missing target is skipped);
/// forgetting removes it, or fails when the target is missing or does not
/// know it.
pub open spec fn ability_outcome(
    progress: Map<Seq<char>, (u64, Seq<Seq<char>>)>,
    target: Seq<char>,
    ability: Seq<char>,
    direction: TransferDirection,
) -> (Map<Seq<char>, (u64, Seq<Seq<char>>)>, Option<bool>) {
    if !progress.contains_key(target) {
        match direction {
            TransferDirection::Give => (progress, None),
            TransferDirection::Take => (progress, Some(false)),
        }
    } else {
        let (exp, known) = progress[target];
        match direction {
            TransferDirection::Give => if known.contains(ability) {
                (progress, None)
            } else {
                (progress.insert(target, (exp, known.push(ability))), None)
            },
            TransferDirection::Take => if known.contains(ability) {
                (progress.insert(target, (exp, known.remove(first_pos(known, ability)))), Some(true))
            } else {
                (progress, Some(false))
            },
        }
    }
}

/// Applies an ability action to a character's progress.
pub fn apply_ability(
    progress: &mut StrMap<CharacterProgress>,
    target: &String,
    ability_id: &String,
    direction: TransferDirection,
) -> (r: Option<bool>)
    ensures
        (progress_view(final(progress).map()), r) == ability_outcome(
            progress_view(old(progress).map()),
            target@,
            ability_id@,
            direction,
        ),
{
    let ghost before = progress_view(progress.map());
    match progress.remove(target.as_str()) {
        None => {
            match direction {
                TransferDirection::Give => None,
                TransferDirection::Take => Some(false),
            }
        },
        Some(entry) => {
            let CharacterProgress { experience, learned_abilities } = entry;
            let mut known = learned_abilities;
            let ghost kv = texts_view(known@);
            let r = match direction {
                TransferDirection::Give => {
                    if position_of(&known, ability_id).is_none() {
                        known.push(ability_id.clone());
                        assert(texts_view(known@) =~= kv.push(ability_id@));
                    }
                    None
                },
                TransferDirection::Take => {
                    match position_of(&known, ability_id) {
                        Some(pos) => {
                            known.remove(pos);
                            assert(texts_view(known@) =~= kv.remove(pos as int));
                            Some(true)
                        },
                        None => Some(false),
                    }
                },
            };
            progress.insert(target.clone(), CharacterProgress { experience, learned_abilities: known });
            proof {
                assert(progress_view(progress.map()) =~= before.insert(
                    target@,
                    (experience, texts_view(known@)),
                ));
                if !(r == Some(true)) && kv =~= texts_view(known@) {
                    assert(before.insert(target@, (experience, kv)) =~= before);
                }
            }
            r
        },
    }
}

// ─── Experience ──────────────────────────────────────────────────────────────

/// Adds `amount` (saturating) to each listed character that has progress,
/// once per listing.
pub open spec fn exp_give_each(
    progress: Map<Seq<char>, (u64, Seq<Seq<char>>)>,
    ids: Seq<Seq<char>>,
    amount: u64,
) -> Map<Seq<char>, (u64, Seq<Seq<char>>)>
    decreases ids.len(),
{
    if ids.len() == 0 {
        progress
    } else {
        let p = exp_give_each(progress, ids.drop_last(), amount);
        let id = ids.last();
        if p.contains_key(id) {
            p.insert(id, (sat_add_u64(p[id].0, amount), p[id].1))
        } else {
            p
        }
    }
}

/// How many times `id` is listed.
pub open spec fn times_listed(ids: Seq<Seq<char>>, id: Seq<char>) -> nat
    decreases ids.len(),
{
    if ids.len() == 0 {
        0
    } else {
        times_listed(ids.drop_last(), id) + if ids.last() == id {
            1nat
        } else {
            0nat
        }
    }
}

/// Every listed character has progress with enough experience to pay
/// `amount` once for each time it is listed.
pub open spec fn all_can_pay(
    progress: Map<Seq<char>, (u64, Seq<Seq<char>>)>,
    ids: Seq<Seq<char>>,
    amount: u64,
) -> bool {
    forall|i: int|
        0 <= i < ids.len() ==> progress.contains_key(#[trigger] ids[i]) && progress[ids[i]].0
            >= amount * times_listed(ids, ids[i])
}

/// Subtracts `amount` from each listed character.
pub open spec fn exp_take_each(
    progress: Map<Seq<char>, (u64, Seq<Seq<char>>)>,
    ids: Seq<Seq<char>>,
    amount: u64,
) -> Map<Seq<char>, (u64, Seq<Seq<char>>)>
    decreases ids.len(),
{
    if ids.len() == 0 {
        progress
    } else {
        let p = exp_take_each(progress, ids.drop_last(), amount);
        let id = ids.last();
        if p.contains_key(id) {
            p.insert(id, ((p[id].0 - amount) as u64, p[id].1))
        } else {
            p
        }
    }
}

/// No character is listed twice.
pub open spec fn no_duplicates(ids: Seq<Seq<char>>) -> bool {
    forall|i: int, j: int| 0 <= i < j < ids.len() ==> #[trigger] ids[i] != #[trigger] ids[j]
}

/// Progress after an experience action, and its outcome (`None`: no
/// branch). Without a target the whole party is affected, a member listed
/// twice twice over; giving never branches, taking is all-or-nothing: it
/// succeeds only when every affected character has enough experience for
/// every time it is listed.
pub open spec fn experience_outcome(
    progress: Map<Seq<char>, (u64, Seq<Seq<char>>)>,
    party: Option<Seq<Seq<char>>>,
    target: Option<Seq<char>>,
    amount: u64,
    direction: TransferDirection,
) -> (Map<Seq<char>, (u64, Seq<Seq<char>>)>, Option<bool>) {
    let affected = match target {
        Some(t) => seq![t],
        None => match party {
            Some(p) => p,
            None => Seq::empty(),
        },
    };
    match direction {
        TransferDirection::Give => (exp_give_each(progress, affected, amount), None),
        TransferDirection::Take => {
            let sufficient = match target {
                Some(t) => progress.contains_key(t) && progress[t].0 >= amount,
                None => party is Some && all_can_pay(progress, affected, amount),
            };
            if sufficient {
                (exp_take_each(progress, affected, amount), Some(true))
            } else {
                (progress, Some(false))
            }
        },
    }
}

/// Adds (saturating) or subtracts experience of one character with progress.
fn change_experience(progress: &mut StrMap<CharacterProgress>, id: &String, amount: u64, add: bool)
    requires
        !add ==> progress_view(old(progress).map()).contains_key(id@) ==> progress_view(
            old(progress).map(),
        )[id@].0 >= amount,
    ensures
        progress_view(final(progress).map()) == if progress_view(old(progress).map()).contains_key(
            id@,
        ) {
            let e = progress_view(old(progress).map())[id@];
            progress_view(old(progress).map()).insert(
                id@,
                (if add {
                    sat_add_u64(e.0, amount)
                } else {
                    (e.0 - amount) as u64
                }, e.1),
            )
        } else {
            progress_view(old(progress).map())
        },
{
    let ghost before = progress_view(progress.map());
    match progress.remove(id.as_str()) {
        Some(entry) => {
            let CharacterProgress { experience, learned_abilities } = entry;
            let e = if add {
                experience.saturating_add(amount)
            } else {
                experience - amount
            };
            progress.insert(id.clone(), CharacterProgress { experience: e, learned_abilities });
            assert(progress_view(progress.map()) =~= before.insert(
                id@,
                (e, texts_view(learned_abilities@)),
            ));
        },
        None => {},
    }
}

proof fn lemma_times_listed_step(ids: Seq<Seq<char>>, n: int, id: Seq<char>)
    requires
        0 <= n < ids.len(),
    ensures
        times_listed(ids.take(n + 1), id) == times_listed(ids.take(n), id) + if ids[n] == id {
            1nat
        } else {
            0nat
        },
{
    assert(ids.take(n + 1).drop_last() =~= ids.take(n));
}

proof fn lemma_times_listed_prefix(ids: Seq<Seq<char>>, n: int, id: Seq<char>)
    requires
        0 <= n <= ids.len(),
    ensures
        times_listed(ids.take(n), id) <= times_listed(ids, id),
    decreases ids.len() - n,
{
    if n < ids.len() {
        lemma_times_listed_step(ids, n, id);
        lemma_times_listed_prefix(ids, n + 1, id);
    } else {
        assert(ids.take(n) =~= ids);
    }
}

/// After the first `n` subtractions each character has paid once per
/// listing so far, and still has enough for the rest.
proof fn lemma_take_each_paid(
    progress: Map<Seq<char>, (u64, Seq<Seq<char>>)>,
    ids: Seq<Seq<char>>,
    amount: u64,
    n: int,
)
    requires
        0 <= n <= ids.len(),
        all_can_pay(progress, ids, amount),
    ensures
        forall|key: Seq<char>|
            #[trigger] exp_take_each(progress, ids.take(n), amount).contains_key(key)
                <==> progress.contains_key(key),
        forall|key: Seq<char>|
            #[trigger] progress.contains_key(key) ==> {
                &&& progress[key].0 >= amount * times_listed(ids.take(n), key)
                &&& exp_take_each(progress, ids.take(n), amount)[key] == (
                    (progress[key].0 - amount * times_listed(ids.take(n), key)) as u64,
                    progress[key].1,
                )
            },
    decreases n,
{
    if n == 0 {
        assert(ids.take(0) =~= Seq::<Seq<char>>::empty());
        assert forall|key: Seq<char>| #[trigger] progress.contains_key(key) implies {
            &&& progress[key].0 >= amount * times_listed(ids.take(n), key)
            &&& exp_take_each(progress, ids.take(n), amount)[key] == (
                (progress[key].0 - amount * times_listed(ids.take(n), key)) as u64,
                progress[key].1,
            )
        } by {
            assert(times_listed(ids.take(0), key) == 0);
            assert(amount * 0 == 0);
        }
    } else {
        lemma_take_each_paid(progress, ids, amount, n - 1);
        assert(ids.take(n).drop_last() =~= ids.take(n - 1));
        assert(ids.take(n).last() == ids[n - 1]);
        let p = exp_take_each(progress, ids.take(n - 1), amount);
        let id = ids[n - 1];
        assert(progress.contains_key(id));
        assert forall|key: Seq<char>| #[trigger] progress.contains_key(key) implies {
            &&& progress[key].0 >= amount * times_listed(ids.take(n), key)
            &&& exp_take_each(progress, ids.take(n), amount)[key] == (
                (progress[key].0 - amount * times_listed(ids.take(n), key)) as u64,
                progress[key].1,
            )
        } by {
            lemma_times_listed_step(ids, n - 1, key);
            let t = times_listed(ids.take(n - 1), key);
            let tn = times_listed(ids.take(n), key);
            assert(p.contains_key(key));
            assert(progress[key].0 >= amount * t);
            assert(p[key] == ((progress[key].0 - amount * t) as u64, progress[key].1));
            if key == id {
                assert(tn == t + 1);
                lemma_times_listed_prefix(ids, n, key);
                let total = times_listed(ids, key);
                assert(progress[id].0 >= amount * times_listed(ids, ids[n - 1]));
                assert(amount * tn <= amount * total) by (nonlinear_arith)
                    requires
                        tn <= total,
                ;
                assert(amount * tn == amount * t + amount) by (nonlinear_arith)
                    requires
                        tn == t + 1,
                ;
                assert(exp_take_each(progress, ids.take(n), amount) == p.insert(id, ((p[id].0 - amount) as u64, p[id].1)));
            } else {
                assert(tn == t);
                assert(exp_take_each(progress, ids.take(n), amount) == p.insert(id, ((p[id].0 - amount) as u64, p[id].1)));
            }
        }
    }
}

fn listed_times(members: &Vec<String>, id: &String) -> (c: usize)
    ensures
        c == times_listed(texts_view(members@), id@),
{
    let ghost ids = texts_view(members@);
    let mut c: usize = 0;
    let mut j: usize = 0;
    assert(ids.take(0) =~= Seq::<Seq<char>>::empty());
    while j < members.len()
        invariant
            j <= members@.len(),
            ids == texts_view(members@),
            c <= j,
            c == times_listed(ids.take(j as int), id@),
        decreases members@.len() - j,
    {
        proof {
            lemma_times_listed_step(ids, j as int, id@);
        }
        assert(ids[j as int] == members@[j as int]@);
        if str_eq(members[j].as_str(), id.as_str()) {
            c = c + 1;
        }
        j = j + 1;
    }
    assert(ids.take(members@.len() as int) =~= ids);
    c
}

/// Whether every party member can pay `amount` once for each time it is
/// listed (see `all_can_pay`).
fn party_can_pay(progress: &StrMap<CharacterProgress>, members: &Vec<String>, amount: u64) -> (ok: bool)
    ensures
        ok == all_can_pay(progress_view(progress.map()), texts_view(members@), amount),
{
    let ghost ids = texts_view(members@);
    let ghost pv = progress_view(progress.map());
    let mut i: usize = 0;
    while i < members.len()
        invariant
            i <= members@.len(),
            ids == texts_view(members@),
            pv == progress_view(progress.map()),
            forall|k: int|
                0 <= k < i ==> pv.contains_key(#[trigger] ids[k]) && pv[ids[k]].0 >= amount * times_listed(
                    ids,
                    ids[k],
                ),
        decreases members@.len() - i,
    {
        assert(ids[i as int] == members@[i as int]@);
        let times = listed_times(members, &members[i]);
        let enough = match progress.get(members[i].as_str()) {
            Some(e) => {
                assert((amount as u128) * (times as u128) <= 0xffff_ffff_ffff_ffff_ffff_ffff_ffff_ffffu128)
                    by (nonlinear_arith)
                    requires
                        amount <= 0xffff_ffff_ffff_ffffu64,
                        times as int <= 0xffff_ffff_ffff_ffff,
                ;
                let need: u128 = amount as u128 * times as u128;
                assert(need == amount * times) by (nonlinear_arith)
                    requires
                        need == amount as u128 * times as u128,
                ;
                e.experience as u128 >= need
            },
            None => false,
        };
        if !enough {
            return false;
        }
        i = i + 1;
    }
    true
}

/// Applies an experience action. `party` lists the active party, if the
/// game has one.
pub fn apply_experience(
    progress: &mut StrMap<CharacterProgress>,
    party: &Option<Vec<String>>,
    target: &Option<String>,
    amount: u64,
    direction: TransferDirection,
) -> (r: Option<bool>)
    ensures
        (progress_view(final(progress).map()), r) == experience_outcome(
            progress_view(old(progress).map()),
            match party {
                Some(p) => Some(texts_view(p@)),
                None => None,
            },
            match target {
                Some(t) => Some(t@),
                None => None,
            },
            amount,
            direction,
        ),
{
    let ghost before = progress_view(progress.map());
    let ghost affected: Seq<Seq<char>> = match target {
        Some(t) => seq![t@],
        None => match party {
            Some(p) => texts_view(p@),
            None => Seq::empty(),
        },
    };
    match direction {
        TransferDirection::Give => {
            match target {
                Some(id) => {
                    change_experience(progress, id, amount, true);
                    assert(affected.drop_last() =~= Seq::<Seq<char>>::empty());
                    assert(exp_give_each(before, affected.drop_last(), amount) == before);
                    assert(affected.last() == id@);
                },
                None => {
                    match party {
                        Some(members) => {
                            let mut i: usize = 0;
                            while i < members.len()
                                invariant
                                    i <= members@.len(),
                                    affected == texts_view(members@),
                                    progress_view(progress.map()) == exp_give_each(
                                        before,
                                        affected.take(i as int),
                                        amount,
                                    ),
                                decreases members@.len() - i,
                            {
                                assert(affected.take(i + 1).drop_last() =~= affected.take(i as int));
                                change_experience(progress, &members[i], amount, true);
                                i = i + 1;
                            }
                            assert(affected.take(members@.len() as int) =~= affected);
                        },
                        None => {},
                    }
                },
            }
            None
        },
        TransferDirection::Take => {
            let sufficient = match target {
                Some(id) => match progress.get(id.as_str()) {
                    Some(e) => e.experience >= amount,
                    None => false,
                },
                None => match party {
                    Some(members) => party_can_pay(progress, members, amount),
                    None => false,
                },
            };
            if sufficient {
                match target {
                    Some(id) => {
                        change_experience(progress, id, amount, false);
                        assert(affected.drop_last() =~= Seq::<Seq<char>>::empty());
                        assert(exp_take_each(before, affected.drop_last(), amount) == before);
                        assert(affected.last() == id@);
                    },
                    None => {
                        match party {
                            Some(members) => {
                                let mut i: usize = 0;
                                while i < members.len()
                                    invariant
                                        i <= members@.len(),
                                        affected == texts_view(members@),
                                        all_can_pay(before, affected, amount),
                                        progress_view(progress.map()) == exp_take_each(
                                            before,
                                            affected.take(i as int),
                                            amount,
                                        ),
                                    decreases members@.len() - i,
                                {
                                    proof {
                                        let id = affected[i as int];
                                        assert(id == members@[i as int]@);
                                        lemma_take_each_paid(before, affected, amount, i as int);
                                        lemma_times_listed_step(affected, i as int, id);
                                        lemma_times_listed_prefix(affected, i + 1, id);
                                        assert(before.contains_key(id));
                                        let t = times_listed(affected.take(i as int), id);
                                        let total = times_listed(affected, id);
                                        assert(before[id].0 >= amount * total);
                                        assert(t + 1 <= total);
                                        assert(amount * total >= amount * t + amount) by (nonlinear_arith)
                                            requires
                                                t + 1 <= total,
                                        ;
                                    }
                                    assert(affected.take(i + 1).drop_last() =~= affected.take(
                                        i as int,
                                    ));
                                    change_experience(progress, &members[i], amount, false);
                                    i = i + 1;
                                }
                                assert(affected.take(members@.len() as int) =~= affected);
                            },
                            None => {},
                        }
                    },
                }
                Some(true)
            } else {
                Some(false)
            }
        },
    }
}

// ─── Laws ────────────────────────────────────────────────────────────────────

/// Taking back currency that was just given restores the balance, as long as
/// the gift did not saturate.
pub proof fn law_currency_take_undoes_give(balance: u64, amount: u64)
    requires
        balance + amount <= u64::MAX,
    ensures
        currency_outcome(currency_outcome(balance, amount, TransferDirection::Give).0, amount, TransferDirection::Take)
            == (balance, Some(true)),
{
}

/// A take that fails leaves the balance unchanged, and a take fails exactly
/// when the balance is below the amount.
pub proof fn law_currency_failed_take_is_noop(balance: u64, amount: u64)
    ensures
        currency_outcome(balance, amount, TransferDirection::Take).1 == Some(balance >= amount),
        balance < amount ==> currency_outcome(balance, amount, TransferDirection::Take).0 == balance,
{
}

/// Taking the quantity of an item that was just given as a new entry removes
/// it again, leaving the inventory as it was.
pub proof fn law_item_take_undoes_give_new(
    inv: Map<Seq<char>, u32>,
    id: Seq<char>,
    quantity: u32,
    stackable: bool,
    stack_limit: u32,
)
    requires
        !inv.contains_key(id),
        0 < quantity <= stack_limit,
    ensures
        item_outcome(
            item_outcome(inv, id, quantity, stackable, stack_limit, TransferDirection::Give).0,
            id,
            quantity,
            stackable,
            stack_limit,
            TransferDirection::Take,
        ) == (inv, true),
{
    assert(inv.insert(id, quantity).remove(id) =~= inv);
}

/// Taking back what was just added to a held stackable item restores its
/// count, when the stack limit was not reached.
pub proof fn law_item_take_undoes_give_held(
    inv: Map<Seq<char>, u32>,
    id: Seq<char>,
    quantity: u32,
    stack_limit: u32,
)
    requires
        inv.contains_key(id),
        inv[id] > 0,
        inv[id] + quantity <= stack_limit,
    ensures
        item_outcome(
            item_outcome(inv, id, quantity, true, stack_limit, TransferDirection::Give).0,
            id,
            quantity,
            true,
            stack_limit,
            TransferDirection::Take,
        ) == (inv, true),
{
    assert(inv.insert(id, (inv[id] + quantity) as u32).insert(id, inv[id]) =~= inv);
}

/// A failed item action leaves the inventory unchanged.
pub proof fn law_item_failure_is_noop(
    inv: Map<Seq<char>, u32>,
    id: Seq<char>,
    quantity: u32,
    stackable: bool,
    stack_limit: u32,
    direction: TransferDirection,
)
    ensures
        !item_outcome(inv, id, quantity, stackable, stack_limit, direction).1 ==> item_outcome(
            inv,
            id,
            quantity,
            stackable,
            stack_limit,
            direction,
        ).0 == inv,
{
}

/// Adding a party member twice is the same as adding it once, and adding
/// never creates a duplicate member.
pub proof fn law_party_give_idempotent(party: Seq<Seq<char>>, id: Seq<char>)
    ensures
        party_outcome(party_outcome(party, id, TransferDirection::Give).0, id, TransferDirection::Give).0
            == party_outcome(party, id, TransferDirection::Give).0,
        no_duplicates(party) ==> no_duplicates(party_outcome(party, id, TransferDirection::Give).0),
{
    let p1 = party_outcome(party, id, TransferDirection::Give).0;
    if !party.contains(id) {
        assert(p1[p1.len() - 1] == id);
        assert(p1.contains(id));
        if no_duplicates(party) {
            assert forall|i: int, j: int| 0 <= i < j < p1.len() implies #[trigger] p1[i] != #[trigger] p1[j] by {
                if j == p1.len() - 1 {
                    assert(p1[i] == party[i]);
                }
            }
        }
    }
}

/// Removing a member keeps the party free of duplicates, and removing a
/// member that was just added (and was absent before) restores the party.
pub proof fn law_party_take_undoes_give(party: Seq<Seq<char>>, id: Seq<char>)
    ensures
        !party.contains(id) ==> party_outcome(
            party_outcome(party, id, TransferDirection::Give).0,
            id,
            TransferDirection::Take,
        ) == (party, Some(true)),
        no_duplicates(party) ==> no_duplicates(party_outcome(party, id, TransferDirection::Take).0),
{
    let p1 = party.push(id);
    lemma_first_pos(p1, id);
    if !party.contains(id) {
        assert(p1[p1.len() - 1] == id);
        assert(p1.contains(id));
        assert(first_pos(p1, id) == party.len()) by {
            if first_pos(p1, id) < party.len() {
                assert(party[first_pos(p1, id)] == p1[first_pos(p1, id)]);
            }
        }
        assert(p1.remove(party.len() as int) =~= party);
    }
    if no_duplicates(party) && party.contains(id) {
        lemma_first_pos(party, id);
        let r = party.remove(first_pos(party, id));
        assert forall|i: int, j: int| 0 <= i < j < r.len() implies #[trigger] r[i] != #[trigger] r[j] by {
            let k = first_pos(party, id);
            let i2 = if i < k { i } else { i + 1 };
            let j2 = if j < k { j } else { j + 1 };
            assert(r[i] == party[i2] && r[j] == party[j2]);
        }
    }
}

/// `x` occurs at most once in `s`.
pub open spec fn at_most_once(s: Seq<Seq<char>>, x: Seq<char>) -> bool {
    forall|i: int, j: int| 0 <= i < s.len() && 0 <= j < s.len() && s[i] == x && s[j] == x ==> i == j
}

proof fn lemma_membership_outcome(s: Seq<Seq<char>>, x: Seq<char>)
    requires
        at_most_once(s, x),
    ensures
        s.contains(x) ==> !s.remove(first_pos(s, x)).contains(x),
        !s.contains(x) ==> s.push(x).contains(x) && at_most_once(s.push(x), x),
{
    lemma_first_pos(s, x);
    if s.contains(x) {
        let k = first_pos(s, x);
        let r = s.remove(k);
        if r.contains(x) {
            let j = choose|j: int| 0 <= j < r.len() && r[j] == x;
            let j2 = if j < k { j } else { j + 1 };
            assert(s[j2] == x && s[k] == x);
        }
    } else {
        let t = s.push(x);
        assert(t[s.len() as int] == x);
        assert forall|i: int, j: int| 0 <= i < t.len() && 0 <= j < t.len() && t[i] == x && t[j] == x implies i == j by {
            if i < s.len() {
                assert(s[i] == t[i]);
            }
            if j < s.len() {
                assert(s[j] == t[j]);
            }
        }
    }
}

/// Party membership for a character listed at most once: adding leaves it
/// a member exactly once and selects no branch; removing leaves it out of
/// the party and succeeds exactly when it was a member, the party staying
/// as it was otherwise.
pub proof fn law_party_membership(party: Seq<Seq<char>>, id: Seq<char>)
    requires
        at_most_once(party, id),
    ensures
        party_outcome(party, id, TransferDirection::Give).0.contains(id),
        at_most_once(party_outcome(party, id, TransferDirection::Give).0, id),
        party_outcome(party, id, TransferDirection::Give).1 is None,
        !party_outcome(party, id, TransferDirection::Take).0.contains(id),
        party_outcome(party, id, TransferDirection::Take).1 == Some(party.contains(id)),
        !party.contains(id) ==> party_outcome(party, id, TransferDirection::Take).0 == party,
{
    lemma_membership_outcome(party, id);
}

/// Abilities of a character with progress that knows the ability at most
/// once: learning leaves it known exactly once and selects no branch;
/// forgetting leaves it unknown and succeeds exactly when it was known,
/// the progress staying as it was otherwise. Experience and the other
/// characters never change.
pub proof fn law_ability_membership(
    progress: Map<Seq<char>, (u64, Seq<Seq<char>>)>,
    target: Seq<char>,
    ability: Seq<char>,
)
    requires
        progress.contains_key(target),
        at_most_once(progress[target].1, ability),
    ensures
        ({
            let (g, go) = ability_outcome(progress, target, ability, TransferDirection::Give);
            let (t, to) = ability_outcome(progress, target, ability, TransferDirection::Take);
            let known = progress[target].1.contains(ability);
            &&& g.contains_key(target) && t.contains_key(target)
            &&& g[target].0 == progress[target].0 && t[target].0 == progress[target].0
            &&& g[target].1.contains(ability) && at_most_once(g[target].1, ability)
            &&& go is None
            &&& !t[target].1.contains(ability)
            &&& to == Some(known)
            &&& !known ==> t == progress
            &&& g.remove(target) == progress.remove(target)
            &&& t.remove(target) == progress.remove(target)
        }),
{
    lemma_membership_outcome(progress[target].1, ability);
    let (exp, known) = progress[target];
    assert(progress.insert(target, (exp, known.push(ability))).remove(target) =~= progress.remove(target));
    if known.contains(ability) {
        assert(progress.insert(target, (exp, known.remove(first_pos(known, ability)))).remove(target)
            =~= progress.remove(target));
    }
}

/// Learning an ability twice is the same as learning it once; forgetting
/// an ability that was just learned (and unknown before) restores the
/// character's progress.
pub proof fn law_ability_learn_forget(
    progress: Map<Seq<char>, (u64, Seq<Seq<char>>)>,
    target: Seq<char>,
    ability: Seq<char>,
)
    ensures
        ability_outcome(ability_outcome(progress, target, ability, TransferDirection::Give).0, target, ability, TransferDirection::Give).0
            == ability_outcome(progress, target, ability, TransferDirection::Give).0,
        progress.contains_key(target) && !progress[target].1.contains(ability) ==> ability_outcome(
            ability_outcome(progress, target, ability, TransferDirection::Give).0,
            target,
            ability,
            TransferDirection::Take,
        ) == (progress, Some(true)),
{
    if progress.contains_key(target) {
        let (exp, known) = progress[target];
        let k1 = known.push(ability);
        assert(k1[k1.len() - 1] == ability);
        assert(k1.contains(ability));
        if !known.contains(ability) {
            lemma_first_pos(k1, ability);
            assert(first_pos(k1, ability) == known.len()) by {
                if first_pos(k1, ability) < known.len() {
                    assert(known[first_pos(k1, ability)] == k1[first_pos(k1, ability)]);
                }
            }
            assert(k1.remove(known.len() as int) =~= known);
            assert(progress.insert(target, (exp, k1)).insert(target, (exp, known)) =~= progress);
        }
    }
}

/// Taking experience is all-or-nothing: when it fails, no character's
/// progress changes.
pub proof fn law_experience_take_atomic(
    progress: Map<Seq<char>, (u64, Seq<Seq<char>>)>,
    party: Option<Seq<Seq<char>>>,
    target: Option<Seq<char>>,
    amount: u64,
)
    ensures
        experience_outcome(progress, party, target, amount, TransferDirection::Take).1 == Some(false)
            ==> experience_outcome(progress, party, target, amount, TransferDirection::Take).0 == progress,
        experience_outcome(progress, party, target, amount, TransferDirection::Take).1 is Some,
{
}

/// Taking experience from the whole party charges each member once for
/// every time it is listed: it succeeds exactly when every member can pay
/// all of that, and then each member's experience drops by the amount times
/// its listings, nothing else changing.
pub proof fn law_experience_take_charges_each_listing(
    progress: Map<Seq<char>, (u64, Seq<Seq<char>>)>,
    party: Seq<Seq<char>>,
    amount: u64,
)
    ensures
        ({
            let (after, ok) = experience_outcome(progress, Some(party), None, amount, TransferDirection::Take);
            &&& ok == Some(all_can_pay(progress, party, amount))
            &&& ok == Some(true) ==> {
                &&& forall|key: Seq<char>| #[trigger] after.contains_key(key) <==> progress.contains_key(key)
                &&& forall|key: Seq<char>|
                    #[trigger] progress.contains_key(key) ==> after[key] == (
                        (progress[key].0 - amount * times_listed(party, key)) as u64,
                        progress[key].1,
                    )
            }
        }),
{
    if all_can_pay(progress, party, amount) {
        lemma_take_each_paid(progress, party, amount, party.len() as int);
        assert(party.take(party.len() as int) =~= party);
    }
}

} // verus!
