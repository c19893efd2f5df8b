//! A visit to a shop: the offers and sale list shown, the remaining limited
//! stock, and the buy and sell screen's input.
use vstd::prelude::*;
use crate::catalog::{Item, ItemRegistry, ShopDefinition, ShopEntry};
use crate::condition::flag_view;
use crate::shop::{
    buy_outcome, execute_buy, execute_sell, initial_stock, max_buy_quantity, offer_view, sell_outcome,
    sellable_items, sellable_prefix, spec_max_buy_quantity, visible_entries, visible_prefix, BuyResult,
    SellResult, ShopError,
};
use crate::strmap::StrMap;

verus! {

/// Whether the screen buys or sells.
#[derive(Debug, Clone, Copy, PartialEq, Eq, Structural)]
pub enum ShopMode {
    Buy,
    Sell,
}

/// The mode line of the shop screen, the current mode in brackets.
pub fn mode_label(mode: ShopMode) -> (r: &'static str)
    ensures
        r@ == match mode {
            ShopMode::Buy => "[Buy]  Sell  (Tab to switch)"@,
            ShopMode::Sell => " Buy  [Sell] (Tab to switch)"@,
        },
{
    match mode {
        ShopMode::Buy => "[Buy]  Sell  (Tab to switch)",
        ShopMode::Sell => " Buy  [Sell] (Tab to switch)",
    }
}

/// An offer on the buy list.
pub struct ShopBuyItem {
    pub item_id: String,
    pub display_name: String,
    pub buy_price: u32,
    pub stock_limit: Option<u32>,
    pub is_stackable: bool,
    pub stack_limit: u32,
}

/// Remaining stock of the limited offers, by item id.
pub struct ShopStockState {
    pub remaining: StrMap<u32>,
}

/// The shop screen.
pub struct ShopUiState {
    pub mode: ShopMode,
    pub selected_index: usize,
    pub quantity: u32,
    pub buy_items: Vec<ShopBuyItem>,
    /// `(item_id, quantity_held, sell_price)` of each sellable item.
    pub sell_items: Vec<(String, u32, u32)>,
    pub error_message: Option<String>,
    pub shop_name: String,
}

/// An offer as values.
pub struct BuyItemView {
    pub item_id: Seq<char>,
    pub display_name: Seq<char>,
    pub buy_price: u32,
    pub stock_limit: Option<u32>,
    pub is_stackable: bool,
    pub stack_limit: u32,
}

pub open spec fn buy_item_view(b: ShopBuyItem) -> BuyItemView {
    BuyItemView {
        item_id: b.item_id@,
        display_name: b.display_name@,
        buy_price: b.buy_price,
        stock_limit: b.stock_limit,
        is_stackable: b.is_stackable,
        stack_limit: b.stack_limit,
    }
}

pub open spec fn buy_item_views(s: Seq<ShopBuyItem>) -> Seq<BuyItemView> {
    s.map_values(|b: ShopBuyItem| buy_item_view(b))
}

pub open spec fn offer_views(s: Seq<(String, u32, u32)>) -> Seq<(Seq<char>, u32, u32)> {
    s.map_values(|o: (String, u32, u32)| offer_view(o))
}

/// The offer of a visible entry.
pub open spec fn offer_of(e: ShopEntry, items: Map<Seq<char>, Item>) -> BuyItemView {
    BuyItemView {
        item_id: e.item_id@,
        display_name: items[e.item_id@].display_name@,
        buy_price: e.buy_price,
        stock_limit: e.stock_limit,
        is_stackable: items[e.item_id@].stackable,
        stack_limit: items[e.item_id@].stack_limit,
    }
}

/// The count stored for `id` (zero when absent).
pub open spec fn count_of(m: Map<Seq<char>, u32>, id: Seq<char>) -> u32 {
    if m.contains_key(id) {
        m[id]
    } else {
        0
    }
}

/// The stock at the start of a visit, from the first `n` entries: each
/// limited entry starts at its saved remainder clamped to the limit, or at
/// the limit when nothing was saved.
pub open spec fn opening_stock(entries: Seq<ShopEntry>, saved: Option<Map<Seq<char>, u32>>, n: int) -> Map<
    Seq<char>,
    u32,
>
    decreases n,
{
    if n <= 0 {
        Map::empty()
    } else {
        let before = opening_stock(entries, saved, n - 1);
        let e = entries[n - 1];
        match e.stock_limit {
            None => before,
            Some(limit) => {
                let s = match saved {
                    Some(m) => if m.contains_key(e.item_id@) {
                        Some(m[e.item_id@])
                    } else {
                        None
                    },
                    None => None,
                };
                before.insert(
                    e.item_id@,
                    match s {
                        Some(v) => if v < limit { v } else { limit },
                        None => limit,
                    },
                )
            },
        }
    }
}

pub open spec fn opt_counts(m: Option<&StrMap<u32>>) -> Option<Map<Seq<char>, u32>> {
    match m {
        Some(x) => Some(x.map()),
        None => None,
    }
}

/// Opens the shop screen: buying, first offer selected, quantity 1; the
/// offers are the visible entries, the sale list the sellable inventory,
/// and the stock of limited offers what was saved (clamped) or full.
pub fn open_shop(
    shop: &ShopDefinition,
    flags: &StrMap<String>,
    item_registry: &ItemRegistry,
    inventory: &StrMap<u32>,
    saved_stock: Option<&StrMap<u32>>,
) -> (r: (ShopUiState, ShopStockState))
    ensures
        r.0.mode == ShopMode::Buy,
        r.0.selected_index == 0,
        r.0.quantity == 1,
        r.0.error_message is None,
        r.0.shop_name@ == shop.display_name@,
        buy_item_views(r.0.buy_items@) == visible_prefix(
            shop.entries@,
            flag_view(flags.map()),
            item_registry.items.map(),
            shop.entries@.len() as int,
        ).map_values(|e: ShopEntry| offer_of(e, item_registry.items.map())),
        offer_views(r.0.sell_items@) == sellable_prefix(
            inventory.entries(),
            item_registry.items.map(),
            shop.entries@,
            inventory.entries().len() as int,
        ),
        r.1.remaining.map() == opening_stock(shop.entries@, opt_counts(saved_stock), shop.entries@.len() as int),
{
    let ghost items = item_registry.items.map();
    let ghost vis = visible_prefix(shop.entries@, flag_view(flags.map()), items, shop.entries@.len() as int);
    let visible = visible_entries(shop.entries.as_slice(), flags, item_registry);
    proof {
        lemma_visible_known(shop.entries@, flag_view(flags.map()), items, shop.entries@.len() as int);
    }
    let mut buy_items: Vec<ShopBuyItem> = Vec::new();
    let mut i: usize = 0;
    while i < visible.len()
        invariant
            i <= visible@.len(),
            items == item_registry.items.map(),
            visible@.len() == vis.len(),
            forall|k: int| 0 <= k < visible@.len() ==> *visible@[k] == #[trigger] vis[k],
            forall|k: int| 0 <= k < vis.len() ==> items.contains_key((#[trigger] vis[k]).item_id@),
            buy_item_views(buy_items@) == vis.take(i as int).map_values(|e: ShopEntry| offer_of(e, items)),
        decreases visible@.len() - i,
    {
        let e = visible[i];
        assert(*e == vis[i as int]);
        match item_registry.items.get(e.item_id.as_str()) {
            Some(item) => {
                let ghost before = buy_items@;
                buy_items.push(
                    ShopBuyItem {
                        item_id: e.item_id.clone(),
                        display_name: item.display_name.clone(),
                        buy_price: e.buy_price,
                        stock_limit: e.stock_limit,
                        is_stackable: item.stackable,
                        stack_limit: item.stack_limit,
                    },
                );
                assert(vis.take(i + 1) =~= vis.take(i as int).push(vis[i as int]));
                assert(buy_item_views(buy_items@) =~= buy_item_views(before).push(offer_of(vis[i as int], items)));
            },
            None => {
                assert(false);
            },
        }
        i = i + 1;
    }
    assert(vis.take(vis.len() as int) =~= vis);
    let sell_items = sellable_items(inventory, item_registry, shop.entries.as_slice());
    let mut stock: StrMap<u32> = StrMap::new();
    let mut j: usize = 0;
    while j < shop.entries.len()
        invariant
            j <= shop.entries@.len(),
            stock.map() == opening_stock(shop.entries@, opt_counts(saved_stock), j as int),
        decreases shop.entries@.len() - j,
    {
        let e = &shop.entries[j];
        match e.stock_limit {
            Some(limit) => {
                let saved = match saved_stock {
                    Some(m) => match m.get(e.item_id.as_str()) {
                        Some(v) => Some(*v),
                        None => None,
                    },
                    None => None,
                };
                stock.insert(e.item_id.clone(), initial_stock(limit, saved));
            },
            None => {},
        }
        j = j + 1;
    }
    (
        ShopUiState {
            mode: ShopMode::Buy,
            selected_index: 0,
            quantity: 1,
            buy_items,
            sell_items,
            error_message: None,
            shop_name: shop.display_name.clone(),
        },
        ShopStockState { remaining: stock },
    )
}

/// Visible entries have known items.
pub proof fn lemma_visible_known(
    entries: Seq<ShopEntry>,
    flags: Map<Seq<char>, Seq<char>>,
    items: Map<Seq<char>, Item>,
    n: int,
)
    ensures
        forall|k: int|
            0 <= k < visible_prefix(entries, flags, items, n).len() ==> items.contains_key(
                (#[trigger] visible_prefix(entries, flags, items, n)[k]).item_id@,
            ),
    decreases n,
{
    if n > 0 {
        lemma_visible_known(entries, flags, items, n - 1);
    }
}

// ─── Quantities ──────────────────────────────────────────────────────────────

/// The remaining stock passed to the buy rules: the tracked count of a
/// limited offer (zero when untracked), none for unlimited ones.
pub open spec fn offer_stock(b: BuyItemView, stock: Map<Seq<char>, u32>) -> Option<u32> {
    match b.stock_limit {
        Some(_) => Some(count_of(stock, b.item_id)),
        None => None,
    }
}

/// The largest quantity the quantity selector allows for the selection.
pub open spec fn max_quantity(
    mode: ShopMode,
    selected: int,
    buys: Seq<BuyItemView>,
    sells: Seq<(Seq<char>, u32, u32)>,
    balance: u64,
    inventory: Map<Seq<char>, u32>,
    stock: Map<Seq<char>, u32>,
) -> int {
    match mode {
        ShopMode::Buy => if selected >= buys.len() {
            0
        } else {
            let b = buys[selected];
            spec_max_buy_quantity(
                balance,
                b.buy_price,
                offer_stock(b, stock),
                b.is_stackable,
                b.stack_limit,
                count_of(inventory, b.item_id),
            )
        },
        ShopMode::Sell => if selected >= sells.len() {
            0
        } else {
            count_of(inventory, sells[selected].0) as int
        },
    }
}

/// Selling: the quantity selector's maximum for a row is the number of
/// units of that item the player holds (zero when none), so every quantity
/// from 1 up to it can be sold and one more cannot.
pub proof fn law_sell_maximum_is_held(
    selected: int,
    buys: Seq<BuyItemView>,
    sells: Seq<(Seq<char>, u32, u32)>,
    balance: u64,
    inventory: Map<Seq<char>, u32>,
    stock: Map<Seq<char>, u32>,
)
    requires
        0 <= selected < sells.len(),
    ensures
        ({
            let id = sells[selected].0;
            let m = max_quantity(ShopMode::Sell, selected, buys, sells, balance, inventory, stock);
            &&& inventory.contains_key(id) ==> m == inventory[id]
            &&& !inventory.contains_key(id) ==> m == 0
            &&& forall|q: u32| 1 <= q <= m ==> #[trigger] sell_confirm(selected, q, sells, balance, inventory) is Sold
            &&& m < u32::MAX ==> sell_confirm(selected, (m + 1) as u32, sells, balance, inventory) is Rejected
        }),
{
}

fn count_in(m: &StrMap<u32>, id: &str) -> (r: u32)
    ensures
        r == count_of(m.map(), id@),
{
    match m.get(id) {
        Some(v) => *v,
        None => 0,
    }
}

/// The largest quantity the selector allows (see `max_quantity`).
pub fn compute_max_quantity(state: &ShopUiState, balance: u64, inventory: &StrMap<u32>, stock: &ShopStockState) -> (r: u32)
    ensures
        r == max_quantity(
            state.mode,
            state.selected_index as int,
            buy_item_views(state.buy_items@),
            offer_views(state.sell_items@),
            balance,
            inventory.map(),
            stock.remaining.map(),
        ),
{
    match state.mode {
        ShopMode::Buy => {
            if state.selected_index >= state.buy_items.len() {
                return 0;
            }
            let item = &state.buy_items[state.selected_index];
            let remaining = match item.stock_limit {
                Some(_) => Some(count_in(&stock.remaining, item.item_id.as_str())),
                None => None,
            };
            let held = count_in(inventory, item.item_id.as_str());
            max_buy_quantity(balance, item.buy_price, remaining, item.is_stackable, item.stack_limit, held)
        },
        ShopMode::Sell => {
            if state.selected_index >= state.sell_items.len() {
                return 0;
            }
            count_in(inventory, state.sell_items[state.selected_index].0.as_str())
        },
    }
}

// ─── Confirming ──────────────────────────────────────────────────────────────

/// What confirming on the buy list does.
pub enum BuyConfirm {
    /// No offer is selected.
    NoOffer,
    /// The limited offer has no stock left.
    SoldOut,
    Rejected(ShopError),
    Bought(Seq<char>, BuyResult),
}

pub open spec fn buy_confirm(
    selected: int,
    quantity: u32,
    buys: Seq<BuyItemView>,
    balance: u64,
    inventory: Map<Seq<char>, u32>,
    stock: Map<Seq<char>, u32>,
) -> BuyConfirm {
    if selected >= buys.len() {
        BuyConfirm::NoOffer
    } else {
        let b = buys[selected];
        if b.stock_limit is Some && count_of(stock, b.item_id) == 0 {
            BuyConfirm::SoldOut
        } else {
            match buy_outcome(
                balance,
                count_of(inventory, b.item_id),
                b.buy_price,
                quantity,
                offer_stock(b, stock),
                b.is_stackable,
                b.stack_limit,
            ) {
                Ok(r) => BuyConfirm::Bought(b.item_id, r),
                Err(e) => BuyConfirm::Rejected(e),
            }
        }
    }
}

pub open spec fn buy_error_text(e: ShopError) -> Seq<char> {
    match e {
        ShopError::InsufficientFunds => "Insufficient funds!"@,
        ShopError::InventoryFull => "Inventory full!"@,
        ShopError::InsufficientStock => "Insufficient stock!"@,
        ShopError::InsufficientInventory => "Transaction failed!"@,
    }
}

pub open spec fn opt_text(s: Option<String>) -> Option<Seq<char>> {
    crate::condition::opt_view(s)
}

/// Confirms a purchase of the selected offer at the selected quantity: a
/// sold-out or rejected purchase shows its error; a purchase updates the
/// balance, the held quantity and the remaining stock, and resets the
/// quantity to 1.
pub fn handle_buy_confirm(
    state: &mut ShopUiState,
    balance: &mut u64,
    inventory: &mut StrMap<u32>,
    stock: &mut ShopStockState,
)
    ensures
        final(state).mode == old(state).mode,
        final(state).selected_index == old(state).selected_index,
        final(state).buy_items == old(state).buy_items,
        final(state).sell_items == old(state).sell_items,
        final(state).shop_name == old(state).shop_name,
        match buy_confirm(
            old(state).selected_index as int,
            old(state).quantity,
            buy_item_views(old(state).buy_items@),
            *old(balance),
            old(inventory).map(),
            old(stock).remaining.map(),
        ) {
            BuyConfirm::Bought(id, r) => {
                &&& *final(balance) == r.new_balance
                &&& final(inventory).map() == old(inventory).map().insert(id, r.new_inventory_qty)
                &&& final(stock).remaining.map() == match r.new_stock {
                    Some(n) => old(stock).remaining.map().insert(id, n),
                    None => old(stock).remaining.map(),
                }
                &&& final(state).quantity == 1
                &&& opt_text(final(state).error_message) == opt_text(old(state).error_message)
            },
            outcome => {
                &&& *final(balance) == *old(balance)
                &&& final(inventory).map() == old(inventory).map()
                &&& final(stock).remaining.map() == old(stock).remaining.map()
                &&& final(state).quantity == old(state).quantity
                &&& opt_text(final(state).error_message) == match outcome {
                    BuyConfirm::SoldOut => Some("Sold Out!"@),
                    BuyConfirm::Rejected(e) => Some(buy_error_text(e)),
                    _ => opt_text(old(state).error_message),
                }
            },
        },
{
    if state.selected_index >= state.buy_items.len() {
        return;
    }
    let ghost bv = buy_item_views(state.buy_items@);
    let item = &state.buy_items[state.selected_index];
    assert(buy_item_view(*item) == bv[state.selected_index as int]);
    let tracked_left = count_in(&stock.remaining, item.item_id.as_str());
    if item.stock_limit.is_some() && tracked_left == 0 {
        state.error_message = Some("Sold Out!".to_string());
        return;
    }
    let remaining = match item.stock_limit {
        Some(_) => Some(tracked_left),
        None => None,
    };
    let held = count_in(inventory, item.item_id.as_str());
    let id = item.item_id.clone();
    let result = execute_buy(
        *balance,
        held,
        item.buy_price,
        state.quantity,
        remaining,
        item.is_stackable,
        item.stack_limit,
    );
    match result {
        Ok(r) => {
            *balance = r.new_balance;
            inventory.insert(id.clone(), r.new_inventory_qty);
            match r.new_stock {
                Some(n) => stock.remaining.insert(id, n),
                None => {},
            }
            state.quantity = 1;
        },
        Err(e) => {
            let msg = match e {
                ShopError::InsufficientFunds => "Insufficient funds!",
                ShopError::InventoryFull => "Inventory full!",
                ShopError::InsufficientStock => "Insufficient stock!",
                ShopError::InsufficientInventory => "Transaction failed!",
            };
            state.error_message = Some(msg.to_string());
        },
    }
}

/// What confirming on the sale list does.
pub enum SellConfirm {
    NoItem,
    Rejected(ShopError),
    Sold(Seq<char>, SellResult),
}

pub open spec fn sell_confirm(
    selected: int,
    quantity: u32,
    sells: Seq<(Seq<char>, u32, u32)>,
    balance: u64,
    inventory: Map<Seq<char>, u32>,
) -> SellConfirm {
    if selected >= sells.len() {
        SellConfirm::NoItem
    } else {
        let (id, _, price) = sells[selected];
        match sell_outcome(balance, count_of(inventory, id), price, quantity) {
            Ok(r) => SellConfirm::Sold(id, r),
            Err(e) => SellConfirm::Rejected(e),
        }
    }
}

pub open spec fn sell_error_text(e: ShopError) -> Seq<char> {
    match e {
        ShopError::InsufficientInventory => "Insufficient inventory!"@,
        _ => "Transaction failed!"@,
    }
}

/// The inventory after a sale: a sold-out item leaves it.
pub open spec fn after_sale(inventory: Map<Seq<char>, u32>, id: Seq<char>, qty: u32) -> Map<Seq<char>, u32> {
    if qty == 0 {
        inventory.remove(id)
    } else {
        inventory.insert(id, qty)
    }
}

/// Confirms a sale of the selected item at the selected quantity: a
/// rejected sale shows its error; a sale updates the balance and the held
/// quantity, resets the quantity to 1, rebuilds the sale list (when the
/// registry and the shop's entries are given) and keeps the selection on
/// the list.
pub fn handle_sell_confirm(
    state: &mut ShopUiState,
    balance: &mut u64,
    inventory: &mut StrMap<u32>,
    item_registry: Option<&ItemRegistry>,
    shop_entries: Option<&[ShopEntry]>,
)
    ensures
        final(state).mode == old(state).mode,
        final(state).buy_items == old(state).buy_items,
        final(state).shop_name == old(state).shop_name,
        match sell_confirm(
            old(state).selected_index as int,
            old(state).quantity,
            offer_views(old(state).sell_items@),
            *old(balance),
            old(inventory).map(),
        ) {
            SellConfirm::Sold(id, r) => {
                &&& *final(balance) == r.new_balance
                &&& final(inventory).map() == after_sale(old(inventory).map(), id, r.new_inventory_qty)
                &&& final(state).quantity == 1
                &&& opt_text(final(state).error_message) == opt_text(old(state).error_message)
                &&& if item_registry is Some && shop_entries is Some {
                    offer_views(final(state).sell_items@) == sellable_prefix(
                        final(inventory).entries(),
                        item_registry->0.items.map(),
                        shop_entries->0@,
                        final(inventory).entries().len() as int,
                    )
                } else {
                    final(state).sell_items == old(state).sell_items
                }
                &&& ({
                    let n = final(state).sell_items@.len();
                    final(state).selected_index == if old(state).selected_index >= n && n > 0 {
                        (n - 1) as usize
                    } else {
                        old(state).selected_index
                    }
                })
            },
            outcome => {
                &&& *final(balance) == *old(balance)
                &&& final(inventory).map() == old(inventory).map()
                &&& final(state).quantity == old(state).quantity
                &&& final(state).sell_items == old(state).sell_items
                &&& final(state).selected_index == old(state).selected_index
                &&& opt_text(final(state).error_message) == match outcome {
                    SellConfirm::Rejected(e) => Some(sell_error_text(e)),
                    _ => opt_text(old(state).error_message),
                }
            },
        },
{
    if state.selected_index >= state.sell_items.len() {
        return;
    }
    let ghost sv = offer_views(state.sell_items@);
    let id = state.sell_items[state.selected_index].0.clone();
    let price = state.sell_items[state.selected_index].2;
    assert(sv[state.selected_index as int] == offer_view(state.sell_items@[state.selected_index as int]));
    let held = count_in(inventory, id.as_str());
    match execute_sell(*balance, held, price, state.quantity) {
        Ok(r) => {
            *balance = r.new_balance;
            if r.new_inventory_qty == 0 {
                inventory.remove(id.as_str());
            } else {
                inventory.insert(id, r.new_inventory_qty);
            }
            state.quantity = 1;
            match (item_registry, shop_entries) {
                (Some(reg), Some(entries)) => {
                    state.sell_items = sellable_items(inventory, reg, entries);
                },
                _ => {},
            }
            let n = state.sell_items.len();
            if state.selected_index >= n && n > 0 {
                state.selected_index = n - 1;
            }
        },
        Err(e) => {
            let msg = match e {
                ShopError::InsufficientInventory => "Insufficient inventory!",
                _ => "Transaction failed!",
            };
            state.error_message = Some(msg.to_string());
        },
    }
}

// ─── Input ───────────────────────────────────────────────────────────────────

/// The keys pressed on the shop screen this frame: any key at all; back
/// (Escape or Backspace); Tab; up (arrow up or W); down (arrow down or S);
/// more (arrow right or =); less (arrow left or -); confirm (Enter or
/// Space).
#[derive(Debug, Clone, Copy, PartialEq, Eq, Structural)]
pub struct ShopKeys {
    pub any: bool,
    pub back: bool,
    pub tab: bool,
    pub up: bool,
    pub down: bool,
    pub more: bool,
    pub less: bool,
    pub confirm: bool,
}

/// Whether the screen stays open.
#[derive(Debug, Clone, Copy, PartialEq, Eq, Structural)]
pub enum ShopEvent {
    Stay,
    Exit,
}

/// The screen after the navigation keys, before a confirmation.
pub struct ShopNav {
    pub mode: ShopMode,
    pub selected: int,
    pub quantity: int,
    pub sells: Seq<(Seq<char>, u32, u32)>,
    /// The current list has entries (otherwise the other keys do nothing).
    pub active: bool,
}

/// Tab switches between buying and selling (selection and quantity reset,
/// and the sale list is rebuilt as `rebuilt` when switching to selling);
/// then, on a non-empty list, up and down move the selection within it
/// (resetting the quantity), and more and less change the quantity within
/// 1 and the selector's maximum.
pub open spec fn shop_nav(
    mode: ShopMode,
    selected: int,
    quantity: int,
    buys: Seq<BuyItemView>,
    sells: Seq<(Seq<char>, u32, u32)>,
    rebuilt: Seq<(Seq<char>, u32, u32)>,
    keys: ShopKeys,
    balance: u64,
    inventory: Map<Seq<char>, u32>,
    stock: Map<Seq<char>, u32>,
) -> ShopNav {
    let mode1 = if keys.tab {
        match mode {
            ShopMode::Buy => ShopMode::Sell,
            ShopMode::Sell => ShopMode::Buy,
        }
    } else {
        mode
    };
    let sel1 = if keys.tab { 0 } else { selected };
    let qty1 = if keys.tab { 1 } else { quantity };
    let sells1 = if keys.tab && mode1 == ShopMode::Sell { rebuilt } else { sells };
    let count = match mode1 {
        ShopMode::Buy => buys.len() as int,
        ShopMode::Sell => sells1.len() as int,
    };
    if count == 0 {
        ShopNav { mode: mode1, selected: sel1, quantity: qty1, sells: sells1, active: false }
    } else {
        let (sel2, qty2) = if keys.up && sel1 > 0 { (sel1 - 1, 1int) } else { (sel1, qty1) };
        let (sel3, qty3) = if keys.down && sel2 < count - 1 { (sel2 + 1, 1int) } else { (sel2, qty2) };
        let max = max_quantity(mode1, sel3, buys, sells1, balance, inventory, stock);
        let qty4 = if keys.more && qty3 < max { qty3 + 1 } else { qty3 };
        let qty5 = if keys.less && qty4 > 1 { qty4 - 1 } else { qty4 };
        ShopNav { mode: mode1, selected: sel3, quantity: qty5, sells: sells1, active: true }
    }
}

/// The quantity selector stays at 1 or more, and above the selection's
/// maximum only where it already was: a frame leaves it at most at the
/// larger of its starting value (1 after a tab switch or a move of the
/// selection) and the maximum. In a frame that neither switches tabs nor
/// moves the selection, it rises by at most 1, and only when "more" was
/// pressed while it was below the maximum.
pub proof fn law_shop_quantity_bounds(
    mode: ShopMode,
    selected: int,
    quantity: int,
    buys: Seq<BuyItemView>,
    sells: Seq<(Seq<char>, u32, u32)>,
    rebuilt: Seq<(Seq<char>, u32, u32)>,
    keys: ShopKeys,
    balance: u64,
    inventory: Map<Seq<char>, u32>,
    stock: Map<Seq<char>, u32>,
)
    requires
        quantity >= 1,
    ensures
        ({
            let nav = shop_nav(mode, selected, quantity, buys, sells, rebuilt, keys, balance, inventory, stock);
            let m = max_quantity(nav.mode, nav.selected, buys, nav.sells, balance, inventory, stock);
            let start = if keys.tab || nav.selected != selected {
                1
            } else {
                quantity
            };
            &&& nav.quantity >= 1
            &&& nav.quantity <= start || nav.quantity <= m
            &&& (!keys.tab && !keys.up && !keys.down) ==> {
                &&& nav.quantity <= quantity + 1
                &&& nav.quantity == quantity + 1 ==> keys.more && quantity < max_quantity(
                    mode,
                    selected,
                    buys,
                    sells,
                    balance,
                    inventory,
                    stock,
                )
            }
        }),
{
}

/// The sale list rebuilt from the inventory, when the registry and the
/// shop's entries are given; the current list otherwise.
pub open spec fn rebuilt_sales(
    current: Seq<(Seq<char>, u32, u32)>,
    inventory: StrMap<u32>,
    item_registry: Option<&ItemRegistry>,
    shop_entries: Option<&[ShopEntry]>,
) -> Seq<(Seq<char>, u32, u32)> {
    if item_registry is Some && shop_entries is Some {
        sellable_prefix(
            inventory.entries(),
            item_registry->0.items.map(),
            shop_entries->0@,
            inventory.entries().len() as int,
        )
    } else {
        current
    }
}

/// Handles one frame of input on the shop screen: any key clears the
/// error; back leaves the shop; otherwise the navigation of `shop_nav`
/// applies and a confirmation buys or sells the selection.
pub fn shop_input(
    state: &mut ShopUiState,
    stock: &mut ShopStockState,
    keys: ShopKeys,
    balance: &mut u64,
    inventory: &mut StrMap<u32>,
    item_registry: Option<&ItemRegistry>,
    shop_entries: Option<&[ShopEntry]>,
) -> (ev: ShopEvent)
    ensures
        final(state).buy_items == old(state).buy_items,
        final(state).shop_name == old(state).shop_name,
        ({
            let err0 = if keys.any { None } else { opt_text(old(state).error_message) };
            let nav = shop_nav(
                old(state).mode,
                old(state).selected_index as int,
                old(state).quantity as int,
                buy_item_views(old(state).buy_items@),
                offer_views(old(state).sell_items@),
                rebuilt_sales(offer_views(old(state).sell_items@), *old(inventory), item_registry, shop_entries),
                keys,
                *old(balance),
                old(inventory).map(),
                old(stock).remaining.map(),
            );
            if keys.back {
                &&& ev == ShopEvent::Exit
                &&& opt_text(final(state).error_message) == err0
                &&& final(state).mode == old(state).mode
                &&& final(state).selected_index == old(state).selected_index
                &&& final(state).quantity == old(state).quantity
                &&& final(state).sell_items == old(state).sell_items
                &&& *final(balance) == *old(balance)
                &&& final(inventory).map() == old(inventory).map()
                &&& final(stock).remaining.map() == old(stock).remaining.map()
            } else {
                &&& ev == ShopEvent::Stay
                &&& final(state).mode == nav.mode
                &&& if !nav.active || !keys.confirm {
                    &&& final(state).selected_index == nav.selected
                    &&& final(state).quantity == nav.quantity
                    &&& offer_views(final(state).sell_items@) == nav.sells
                    &&& opt_text(final(state).error_message) == err0
                    &&& *final(balance) == *old(balance)
                    &&& final(inventory).map() == old(inventory).map()
                    &&& final(stock).remaining.map() == old(stock).remaining.map()
                } else if nav.mode == ShopMode::Buy {
                    &&& final(state).selected_index == nav.selected
                    &&& offer_views(final(state).sell_items@) == nav.sells
                    &&& match buy_confirm(
                        nav.selected,
                        nav.quantity as u32,
                        buy_item_views(old(state).buy_items@),
                        *old(balance),
                        old(inventory).map(),
                        old(stock).remaining.map(),
                    ) {
                        BuyConfirm::Bought(id, r) => {
                            &&& *final(balance) == r.new_balance
                            &&& final(inventory).map() == old(inventory).map().insert(id, r.new_inventory_qty)
                            &&& final(stock).remaining.map() == match r.new_stock {
                                Some(n) => old(stock).remaining.map().insert(id, n),
                                None => old(stock).remaining.map(),
                            }
                            &&& final(state).quantity == 1
                            &&& opt_text(final(state).error_message) == err0
                        },
                        outcome => {
                            &&& *final(balance) == *old(balance)
                            &&& final(inventory).map() == old(inventory).map()
                            &&& final(stock).remaining.map() == old(stock).remaining.map()
                            &&& final(state).quantity == nav.quantity
                            &&& opt_text(final(state).error_message) == match outcome {
                                BuyConfirm::SoldOut => Some("Sold Out!"@),
                                BuyConfirm::Rejected(e) => Some(buy_error_text(e)),
                                _ => err0,
                            }
                        },
                    }
                } else {
                    &&& final(stock).remaining.map() == old(stock).remaining.map()
                    &&& match sell_confirm(nav.selected, nav.quantity as u32, nav.sells, *old(balance), old(inventory).map()) {
                        SellConfirm::Sold(id, r) => {
                            &&& *final(balance) == r.new_balance
                            &&& final(inventory).map() == after_sale(old(inventory).map(), id, r.new_inventory_qty)
                            &&& final(state).quantity == 1
                            &&& opt_text(final(state).error_message) == err0
                            &&& offer_views(final(state).sell_items@) == rebuilt_sales(
                                nav.sells,
                                *final(inventory),
                                item_registry,
                                shop_entries,
                            )
                            &&& ({
                                let n = final(state).sell_items@.len();
                                final(state).selected_index == if nav.selected >= n && n > 0 {
                                    n - 1
                                } else {
                                    nav.selected
                                }
                            })
                        },
                        outcome => {
                            &&& *final(balance) == *old(balance)
                            &&& final(inventory).map() == old(inventory).map()
                            &&& final(state).quantity == nav.quantity
                            &&& final(state).selected_index == nav.selected
                            &&& offer_views(final(state).sell_items@) == nav.sells
                            &&& opt_text(final(state).error_message) == match outcome {
                                SellConfirm::Rejected(e) => Some(sell_error_text(e)),
                                _ => err0,
                            }
                        },
                    }
                }
            }
        }),
{
    if keys.any {
        state.error_message = None;
    }
    if keys.back {
        return ShopEvent::Exit;
    }
    let ghost sells0 = offer_views(state.sell_items@);
    let ghost rebuilt = rebuilt_sales(sells0, *inventory, item_registry, shop_entries);
    if keys.tab {
        state.mode = match state.mode {
            ShopMode::Buy => ShopMode::Sell,
            ShopMode::Sell => ShopMode::Buy,
        };
        state.selected_index = 0;
        state.quantity = 1;
        if state.mode == ShopMode::Sell {
            match (item_registry, shop_entries) {
                (Some(reg), Some(entries)) => {
                    state.sell_items = sellable_items(inventory, reg, entries);
                },
                _ => {},
            }
        }
    }
    let count = match state.mode {
        ShopMode::Buy => state.buy_items.len(),
        ShopMode::Sell => state.sell_items.len(),
    };
    if count == 0 {
        return ShopEvent::Stay;
    }
    if keys.up && state.selected_index > 0 {
        state.selected_index = state.selected_index - 1;
        state.quantity = 1;
    }
    if keys.down && state.selected_index < count - 1 {
        state.selected_index = state.selected_index + 1;
        state.quantity = 1;
    }
    if keys.more {
        let max_qty = compute_max_quantity(state, *balance, inventory, stock);
        if state.quantity < max_qty {
            state.quantity = state.quantity + 1;
        }
    }
    if keys.less && state.quantity > 1 {
        state.quantity = state.quantity - 1;
    }
    if keys.confirm {
        match state.mode {
            ShopMode::Buy => handle_buy_confirm(state, balance, inventory, stock),
            ShopMode::Sell => handle_sell_confirm(state, balance, inventory, item_registry, shop_entries),
        }
    }
    ShopEvent::Stay
}

} // verus!
