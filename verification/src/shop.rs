//! Shop transactions: prices, purchase limits, buying and selling.
use vstd::prelude::*;
use crate::catalog::{Item, ItemCategory, ItemRegistry, ShopEntry};
use crate::condition::{condition_holds, flag_view};
use crate::strmap::{keys_unique, StrMap};
use crate::text::str_eq;

verus! {

/// Result of a successful buy transaction.
#[derive(Debug, Clone, Copy, PartialEq, Eq, Structural)]
pub struct BuyResult {
    pub new_balance: u64,
    pub new_inventory_qty: u32,
    pub new_stock: Option<u32>,
}

/// Result of a successful sell transaction.
#[derive(Debug, Clone, Copy, PartialEq, Eq, Structural)]
pub struct SellResult {
    pub new_balance: u64,
    pub new_inventory_qty: u32,
}

/// Errors that can occur during shop transactions.
#[derive(Debug, Clone, Copy, PartialEq, Eq, Structural)]
pub enum ShopError {
    InsufficientFunds,
    InventoryFull,
    InsufficientStock,
    InsufficientInventory,
}

pub open spec fn min_int(a: int, b: int) -> int {
    if a <= b { a } else { b }
}

/// How many units the buyer can pay for (`u32::MAX` when the item is free).
pub open spec fn affordable_units(balance: u64, buy_price: u32) -> int {
    if buy_price == 0 {
        u32::MAX as int
    } else {
        min_int(balance as int / buy_price as int, u32::MAX as int)
    }
}

/// How many more units fit into the inventory slot of the item.
pub open spec fn stack_space(is_stackable: bool, stack_limit: u32, currently_held: u32) -> int {
    if is_stackable {
        if currently_held <= stack_limit { stack_limit - currently_held } else { 0 }
    } else {
        if currently_held == 0 { 1 } else { 0 }
    }
}

/// The largest quantity that is affordable, in stock and fits in the inventory.
pub open spec fn spec_max_buy_quantity(
    balance: u64,
    buy_price: u32,
    remaining_stock: Option<u32>,
    is_stackable: bool,
    stack_limit: u32,
    currently_held: u32,
) -> int {
    let stock = match remaining_stock {
        Some(s) => s as int,
        None => u32::MAX as int,
    };
    min_int(
        min_int(affordable_units(balance, buy_price), stock),
        stack_space(is_stackable, stack_limit, currently_held),
    )
}

/// The outcome of a buy request: the checks apply in the order funds,
/// inventory space, stock.
pub open spec fn buy_outcome(
    balance: u64,
    inventory_qty: u32,
    buy_price: u32,
    quantity: u32,
    remaining_stock: Option<u32>,
    is_stackable: bool,
    stack_limit: u32,
) -> Result<BuyResult, ShopError> {
    let cost = buy_price as int * quantity as int;
    if balance < cost {
        Err(ShopError::InsufficientFunds)
    } else if is_stackable && inventory_qty + quantity > stack_limit {
        Err(ShopError::InventoryFull)
    } else if !is_stackable && inventory_qty > 0 {
        Err(ShopError::InventoryFull)
    } else if remaining_stock matches Some(s) && s < quantity {
        Err(ShopError::InsufficientStock)
    } else {
        Ok(
            BuyResult {
                new_balance: (balance - cost) as u64,
                new_inventory_qty: (inventory_qty + quantity) as u32,
                new_stock: match remaining_stock {
                    Some(s) => Some((s - quantity) as u32),
                    None => None,
                },
            },
        )
    }
}

/// The outcome of a sell request; the revenue is added with saturation.
pub open spec fn sell_outcome(balance: u64, inventory_qty: u32, sell_price: u32, quantity: u32) -> Result<
    SellResult,
    ShopError,
> {
    if inventory_qty < quantity {
        Err(ShopError::InsufficientInventory)
    } else {
        let sum = balance + sell_price as int * quantity as int;
        Ok(
            SellResult {
                new_balance: if sum > u64::MAX { u64::MAX } else { sum as u64 },
                new_inventory_qty: (inventory_qty - quantity) as u32,
            },
        )
    }
}

proof fn lemma_product_fits(a: u32, b: u32)
    ensures
        0 <= a as int * b as int <= u64::MAX,
{
    assert(0 <= a as int * b as int <= u64::MAX) by (nonlinear_arith)
        requires
            a <= u32::MAX,
            b <= u32::MAX,
    ;
}

/// Computes the maximum purchasable quantity: the minimum of what the balance
/// affords, what is in stock, and what still fits in the inventory slot.
pub fn max_buy_quantity(
    balance: u64,
    buy_price: u32,
    remaining_stock: Option<u32>,
    is_stackable: bool,
    stack_limit: u32,
    currently_held: u32,
) -> (r: u32)
    ensures
        r == spec_max_buy_quantity(
            balance,
            buy_price,
            remaining_stock,
            is_stackable,
            stack_limit,
            currently_held,
        ),
{
    let affordable: u32 = if buy_price == 0 {
        u32::MAX
    } else {
        let max_afford: u64 = balance / (buy_price as u64);
        if max_afford > u32::MAX as u64 {
            u32::MAX
        } else {
            max_afford as u32
        }
    };
    let stock_available: u32 = match remaining_stock {
        Some(s) => s,
        None => u32::MAX,
    };
    let space: u32 = if is_stackable {
        stack_limit.saturating_sub(currently_held)
    } else {
        let held_one: u32 = if currently_held < 1 { currently_held } else { 1 };
        1u32 - held_one
    };
    let a: u32 = if affordable < stock_available { affordable } else { stock_available };
    if a < space { a } else { space }
}

/// Validates and executes a buy transaction.
///
/// Rejects with `InsufficientFunds` when the total cost exceeds the balance,
/// with `InventoryFull` when the quantity does not fit (or a non-stackable
/// item is already held), and with `InsufficientStock` when the limited stock
/// is smaller than the quantity.
pub fn execute_buy(
    balance: u64,
    inventory_qty: u32,
    buy_price: u32,
    quantity: u32,
    remaining_stock: Option<u32>,
    is_stackable: bool,
    stack_limit: u32,
) -> (r: Result<BuyResult, ShopError>)
    ensures
        r == buy_outcome(
            balance,
            inventory_qty,
            buy_price,
            quantity,
            remaining_stock,
            is_stackable,
            stack_limit,
        ),
{
    proof {
        lemma_product_fits(buy_price, quantity);
    }
    let total_cost: u64 = buy_price as u64 * quantity as u64;
    if balance < total_cost {
        return Err(ShopError::InsufficientFunds);
    }
    if is_stackable {
        if inventory_qty as u64 + quantity as u64 > stack_limit as u64 {
            return Err(ShopError::InventoryFull);
        }
    } else if inventory_qty > 0 {
        return Err(ShopError::InventoryFull);
    }
    if let Some(stock) = remaining_stock {
        if stock < quantity {
            return Err(ShopError::InsufficientStock);
        }
    }
    let new_stock = match remaining_stock {
        Some(s) => Some(s - quantity),
        None => None,
    };
    Ok(
        BuyResult {
            new_balance: balance - total_cost,
            new_inventory_qty: inventory_qty + quantity,
            new_stock,
        },
    )
}

/// Validates and executes a sell transaction. Rejects with
/// `InsufficientInventory` when fewer than `quantity` units are held; on
/// success adds `sell_price * quantity` to the balance, saturating at `u64::MAX`.
pub fn execute_sell(balance: u64, inventory_qty: u32, sell_price: u32, quantity: u32) -> (r: Result<
    SellResult,
    ShopError,
>)
    ensures
        r == sell_outcome(balance, inventory_qty, sell_price, quantity),
{
    if inventory_qty < quantity {
        return Err(ShopError::InsufficientInventory);
    }
    proof {
        lemma_product_fits(sell_price, quantity);
    }
    let revenue: u64 = sell_price as u64 * quantity as u64;
    let new_balance = balance.saturating_add(revenue);
    Ok(SellResult { new_balance, new_inventory_qty: inventory_qty - quantity })
}

/// Any quantity between one and the maximum reported by `max_buy_quantity`
/// is accepted by `execute_buy`, with the balance, inventory and stock
/// adjusted by exactly that quantity.
pub proof fn law_max_buy_quantity_is_buyable(
    balance: u64,
    inventory_qty: u32,
    buy_price: u32,
    quantity: u32,
    remaining_stock: Option<u32>,
    is_stackable: bool,
    stack_limit: u32,
)
    requires
        1 <= quantity <= spec_max_buy_quantity(
            balance,
            buy_price,
            remaining_stock,
            is_stackable,
            stack_limit,
            inventory_qty,
        ),
    ensures
        buy_outcome(
            balance,
            inventory_qty,
            buy_price,
            quantity,
            remaining_stock,
            is_stackable,
            stack_limit,
        ) matches Ok(b) && b.new_balance == balance - buy_price as int * quantity as int
            && b.new_inventory_qty == inventory_qty + quantity && (remaining_stock matches Some(
            s) ==> b.new_stock == Some((s - quantity) as u32)),
{
    if buy_price != 0 {
        let q = balance as int / buy_price as int;
        assert(buy_price as int * quantity as int <= balance) by (nonlinear_arith)
            requires
                buy_price > 0,
                quantity <= q,
                q == balance as int / buy_price as int,
        ;
    }
}

/// Selling what was just bought at the same unit price restores the balance
/// and the held quantity, as long as the balance stays below `u64::MAX`.
pub proof fn law_sell_undoes_buy(
    balance: u64,
    inventory_qty: u32,
    price: u32,
    quantity: u32,
    remaining_stock: Option<u32>,
    is_stackable: bool,
    stack_limit: u32,
)
    requires
        buy_outcome(
            balance,
            inventory_qty,
            price,
            quantity,
            remaining_stock,
            is_stackable,
            stack_limit,
        ) is Ok,
    ensures
        ({
            let b = buy_outcome(
                balance,
                inventory_qty,
                price,
                quantity,
                remaining_stock,
                is_stackable,
                stack_limit,
            )->Ok_0;
            sell_outcome(b.new_balance, b.new_inventory_qty, price, quantity) == Ok::<
                SellResult,
                ShopError,
            >(SellResult { new_balance: balance, new_inventory_qty: inventory_qty })
        }),
{
}

/// The sell price of an item at a shop entry: the entry's override, or half
/// the item's value (rounded down).
pub open spec fn spec_sell_price(entry_sell_price: Option<u32>, item_value: u32) -> u32 {
    match entry_sell_price {
        Some(p) => p,
        None => (item_value / 2) as u32,
    }
}

/// Without an override an item sells for half its value, rounded down
/// (twice the price is the value, or one less); an override is the price.
pub proof fn law_sell_price(entry_sell_price: Option<u32>, item_value: u32)
    ensures
        entry_sell_price matches Some(p) ==> spec_sell_price(entry_sell_price, item_value) == p,
        entry_sell_price is None ==> ({
            let p = spec_sell_price(entry_sell_price, item_value);
            2 * p <= item_value && item_value <= 2 * p + 1
        }),
{
}

/// Computes the effective sell price for an item: `entry.sell_price` if set,
/// otherwise `item.value / 2`.
pub fn compute_sell_price(entry: &ShopEntry, item: &Item) -> (r: u32)
    ensures
        r == spec_sell_price(entry.sell_price, item.value),
{
    match entry.sell_price {
        Some(p) => p,
        None => item.value / 2,
    }
}

/// Whether a shop entry is offered: its item exists, and it has no condition,
/// a condition without checks, or a condition that holds.
pub open spec fn entry_visible(
    e: ShopEntry,
    flags: Map<Seq<char>, Seq<char>>,
    items: Map<Seq<char>, Item>,
) -> bool {
    &&& items.contains_key(e.item_id@)
    &&& match e.condition {
        None => true,
        Some(c) => c.checks@.len() == 0 || condition_holds(flags, c),
    }
}

/// The visible entries among the first `n`, in order.
pub open spec fn visible_prefix(
    entries: Seq<ShopEntry>,
    flags: Map<Seq<char>, Seq<char>>,
    items: Map<Seq<char>, Item>,
    n: int,
) -> Seq<ShopEntry>
    decreases n,
{
    if n <= 0 {
        Seq::empty()
    } else if entry_visible(entries[n - 1], flags, items) {
        visible_prefix(entries, flags, items, n - 1).push(entries[n - 1])
    } else {
        visible_prefix(entries, flags, items, n - 1)
    }
}

/// Filters shop entries down to those the player can see, keeping their
/// order: entries whose item is unknown are skipped, and an entry with a
/// non-empty condition is shown only while the condition holds.
pub fn visible_entries<'a>(
    entries: &'a [ShopEntry],
    flags: &StrMap<String>,
    item_registry: &ItemRegistry,
) -> (r: Vec<&'a ShopEntry>)
    ensures
        r@.len() == visible_prefix(
            entries@,
            flag_view(flags.map()),
            item_registry.items.map(),
            entries@.len() as int,
        ).len(),
        forall|i: int|
            0 <= i < r@.len() ==> *r@[i] == #[trigger] visible_prefix(
                entries@,
                flag_view(flags.map()),
                item_registry.items.map(),
                entries@.len() as int,
            )[i],
{
    let ghost fv = flag_view(flags.map());
    let ghost im = item_registry.items.map();
    let mut r: Vec<&'a ShopEntry> = Vec::new();
    let mut i: usize = 0;
    while i < entries.len()
        invariant
            fv == flag_view(flags.map()),
            im == item_registry.items.map(),
            i <= entries@.len(),
            r@.len() == visible_prefix(entries@, fv, im, i as int).len(),
            forall|k: int|
                0 <= k < r@.len() ==> *r@[k] == #[trigger] visible_prefix(entries@, fv, im, i as int)[k],
        decreases entries@.len() - i,
    {
        let entry = &entries[i];
        let known = item_registry.items.contains_key(entry.item_id.as_str());
        let shown = if !known {
            false
        } else {
            match &entry.condition {
                None => true,
                Some(cond) => {
                    if cond.checks.len() == 0 {
                        true
                    } else {
                        cond.evaluate(flags)
                    }
                },
            }
        };
        assert(shown == entry_visible(entries@[i as int], fv, im));
        let ghost before = visible_prefix(entries@, fv, im, i as int);
        if shown {
            r.push(entry);
            assert forall|k: int| 0 <= k < r@.len() implies *r@[k] == #[trigger] visible_prefix(
                entries@,
                fv,
                im,
                i + 1,
            )[k] by {
                if k < before.len() {
                    assert(visible_prefix(entries@, fv, im, i + 1)[k] == before[k]);
                }
            }
        }
        i = i + 1;
    }
    r
}

/// Index of the first entry offering `id`.
pub open spec fn first_entry_for(entries: Seq<ShopEntry>, id: Seq<char>, n: int) -> Option<int>
    decreases n,
{
    if n <= 0 {
        None
    } else {
        match first_entry_for(entries, id, n - 1) {
            Some(j) => Some(j),
            None => if entries[n - 1].item_id@ == id {
                Some(n - 1)
            } else {
                None
            },
        }
    }
}

/// The price the player gets for an item: the override of the first shop
/// entry for the item, otherwise half the item value.
pub open spec fn sell_price_in_shop(entries: Seq<ShopEntry>, id: Seq<char>, item: Item) -> u32 {
    match first_entry_for(entries, id, entries.len() as int) {
        Some(j) => spec_sell_price(entries[j].sell_price, item.value),
        None => spec_sell_price(None, item.value),
    }
}

/// The sale offer for one inventory entry, if the item can be sold.
pub open spec fn sale_offer(
    id: Seq<char>,
    qty: u32,
    items: Map<Seq<char>, Item>,
    entries: Seq<ShopEntry>,
) -> Option<(Seq<char>, u32, u32)> {
    if qty == 0 || !items.contains_key(id) || items[id].category == ItemCategory::KeyItem {
        None
    } else {
        let price = sell_price_in_shop(entries, id, items[id]);
        if price == 0 {
            None
        } else {
            Some((id, qty, price))
        }
    }
}

/// Sale offers for the first `n` inventory entries, in inventory order.
pub open spec fn sellable_prefix(
    inventory: Seq<(Seq<char>, u32)>,
    items: Map<Seq<char>, Item>,
    entries: Seq<ShopEntry>,
    n: int,
) -> Seq<(Seq<char>, u32, u32)>
    decreases n,
{
    if n <= 0 {
        Seq::empty()
    } else {
        match sale_offer(inventory[n - 1].0, inventory[n - 1].1, items, entries) {
            Some(o) => sellable_prefix(inventory, items, entries, n - 1).push(o),
            None => sellable_prefix(inventory, items, entries, n - 1),
        }
    }
}

pub open spec fn offer_view(o: (String, u32, u32)) -> (Seq<char>, u32, u32) {
    (o.0@, o.1, o.2)
}

fn shop_sell_price(shop_entries: &[ShopEntry], item_id: &str, item: &Item) -> (r: u32)
    ensures
        r == sell_price_in_shop(shop_entries@, item_id@, *item),
{
    let mut j: usize = 0;
    while j < shop_entries.len()
        invariant
            j <= shop_entries@.len(),
            first_entry_for(shop_entries@, item_id@, j as int) is None,
        decreases shop_entries@.len() - j,
    {
        if str_eq(shop_entries[j].item_id.as_str(), item_id) {
            proof {
                lemma_first_entry_stable(shop_entries@, item_id@, j + 1, shop_entries@.len() as int);
            }
            return compute_sell_price(&shop_entries[j], item);
        }
        j = j + 1;
    }
    item.value / 2
}

proof fn lemma_first_entry_stable(entries: Seq<ShopEntry>, id: Seq<char>, m: int, n: int)
    requires
        0 <= m <= n,
        first_entry_for(entries, id, m) is Some,
    ensures
        first_entry_for(entries, id, n) == first_entry_for(entries, id, m),
    decreases n - m,
{
    if m < n {
        lemma_first_entry_stable(entries, id, m, n - 1);
    }
}

/// Lists the items the player can sell, in inventory order, as
/// `(item_id, quantity_held, sell_price)`.
///
/// An item is sellable when it is held (quantity above zero), known to the
/// registry, not a key item, and its sell price is above zero. The price is
/// the override of the shop's first entry for the item, otherwise half the
/// item's value.
pub fn sellable_items(
    inventory: &StrMap<u32>,
    item_registry: &ItemRegistry,
    shop_entries: &[ShopEntry],
) -> (r: Vec<(String, u32, u32)>)
    ensures
        r@.map_values(|o: (String, u32, u32)| offer_view(o)) == sellable_prefix(
            inventory.entries(),
            item_registry.items.map(),
            shop_entries@,
            inventory.entries().len() as int,
        ),
{
    let ghost inv = inventory.entries();
    let ghost im = item_registry.items.map();
    let mut r: Vec<(String, u32, u32)> = Vec::new();
    let mut i: usize = 0;
    let n = inventory.len();
    while i < n
        invariant
            inv == inventory.entries(),
            im == item_registry.items.map(),
            n == inv.len(),
            i <= n,
            r@.map_values(|o: (String, u32, u32)| offer_view(o)) == sellable_prefix(
                inv,
                im,
                shop_entries@,
                i as int,
            ),
        decreases n - i,
    {
        let item_id = inventory.key_at(i);
        let qty = *inventory.value_at(i);
        let ghost before = r@.map_values(|o: (String, u32, u32)| offer_view(o));
        if qty != 0 {
            match item_registry.items.get(item_id.as_str()) {
                Some(item) => {
                    if item.category() != ItemCategory::KeyItem {
                        let price = shop_sell_price(shop_entries, item_id.as_str(), item);
                        if price != 0 {
                            r.push((item_id.clone(), qty, price));
                            assert(r@.map_values(|o: (String, u32, u32)| offer_view(o)) =~= before.push(
                                (inv[i as int].0, qty, price),
                            ));
                        }
                    }
                },
                None => {},
            }
        }
        i = i + 1;
    }
    r
}

/// The stock a shop session starts with for an entry limited to
/// `configured_limit` units: the saved remainder, never above the limit, or
/// a full restock when nothing was saved.
pub fn initial_stock(configured_limit: u32, saved: Option<u32>) -> (r: u32)
    ensures
        r == match saved {
            Some(s) => if s < configured_limit { s } else { configured_limit },
            None => configured_limit,
        },
        r <= configured_limit,
{
    match saved {
        Some(s) => if s < configured_limit { s } else { configured_limit },
        None => configured_limit,
    }
}

/// Visibility of shop entries as a predicate.
pub open spec fn visible_pred(
    flags: Map<Seq<char>, Seq<char>>,
    items: Map<Seq<char>, Item>,
) -> spec_fn(ShopEntry) -> bool {
    |e: ShopEntry| entry_visible(e, flags, items)
}

proof fn lemma_visible_prefix_filter(
    entries: Seq<ShopEntry>,
    flags: Map<Seq<char>, Seq<char>>,
    items: Map<Seq<char>, Item>,
    n: int,
)
    requires
        0 <= n <= entries.len(),
    ensures
        visible_prefix(entries, flags, items, n) == entries.take(n).filter(visible_pred(flags, items)),
    decreases n,
{
    reveal(Seq::filter);
    if n > 0 {
        lemma_visible_prefix_filter(entries, flags, items, n - 1);
        assert(entries.take(n).drop_last() =~= entries.take(n - 1));
        assert(entries.take(n).last() == entries[n - 1]);
    } else {
        assert(entries.take(0) =~= Seq::<ShopEntry>::empty());
    }
}

/// The entries the player sees are the shop's entries filtered by
/// visibility (a known item, and no condition, no checks or a condition
/// that holds), in the shop's order.
pub proof fn law_visible_entries_filter(
    entries: Seq<ShopEntry>,
    flags: Map<Seq<char>, Seq<char>>,
    items: Map<Seq<char>, Item>,
)
    ensures
        visible_prefix(entries, flags, items, entries.len() as int) == entries.filter(
            visible_pred(flags, items),
        ),
{
    lemma_visible_prefix_filter(entries, flags, items, entries.len() as int);
    assert(entries.take(entries.len() as int) =~= entries);
}

proof fn lemma_sellable_prefix(
    inventory: Seq<(Seq<char>, u32)>,
    items: Map<Seq<char>, Item>,
    entries: Seq<ShopEntry>,
    n: int,
)
    requires
        0 <= n <= inventory.len(),
    ensures
        forall|o: (Seq<char>, u32, u32)|
            #[trigger] sellable_prefix(inventory, items, entries, n).contains(o) <==> exists|i: int|
                0 <= i < n && sale_offer(inventory[i].0, inventory[i].1, items, entries) == Some(o),
        keys_unique(inventory) ==> forall|k: int, l: int|
            0 <= k < l < sellable_prefix(inventory, items, entries, n).len() ==> (#[trigger] sellable_prefix(
                inventory,
                items,
                entries,
                n,
            )[k]).0 != (#[trigger] sellable_prefix(inventory, items, entries, n)[l]).0,
        forall|k: int|
            0 <= k < sellable_prefix(inventory, items, entries, n).len() ==> exists|i: int|
                0 <= i < n && (#[trigger] sellable_prefix(inventory, items, entries, n)[k]).0 == inventory[i].0,
    decreases n,
{
    if n > 0 {
        lemma_sellable_prefix(inventory, items, entries, n - 1);
        let p = sellable_prefix(inventory, items, entries, n - 1);
        let r = sellable_prefix(inventory, items, entries, n);
        match sale_offer(inventory[n - 1].0, inventory[n - 1].1, items, entries) {
            Some(o) => {
                assert(r == p.push(o));
                assert forall|x: (Seq<char>, u32, u32)| #[trigger] r.contains(x) <==> exists|i: int|
                    0 <= i < n && sale_offer(inventory[i].0, inventory[i].1, items, entries) == Some(x) by {
                    if r.contains(x) {
                        let k = choose|k: int| 0 <= k < r.len() && r[k] == x;
                        if k < p.len() {
                            assert(p.contains(x));
                        }
                    }
                    if exists|i: int| 0 <= i < n && sale_offer(inventory[i].0, inventory[i].1, items, entries) == Some(x) {
                        let i = choose|i: int| 0 <= i < n && sale_offer(inventory[i].0, inventory[i].1, items, entries) == Some(x);
                        if i < n - 1 {
                            assert(p.contains(x));
                            let k = choose|k: int| 0 <= k < p.len() && p[k] == x;
                            assert(r[k] == x);
                        } else {
                            assert(r[p.len() as int] == x);
                        }
                    }
                }
                assert forall|k: int| 0 <= k < r.len() implies exists|i: int|
                    0 <= i < n && (#[trigger] r[k]).0 == inventory[i].0 by {
                    if k < p.len() {
                        assert(r[k] == p[k]);
                    } else {
                        assert(r[k].0 == inventory[n - 1].0);
                    }
                }
                if keys_unique(inventory) {
                    assert forall|k: int, l: int| 0 <= k < l < r.len() implies (#[trigger] r[k]).0 != (#[trigger] r[l]).0 by {
                        assert(r[k] == p[k]);
                        if l < p.len() {
                            assert(r[l] == p[l]);
                        } else {
                            let i = choose|i: int| 0 <= i < n - 1 && p[k].0 == inventory[i].0;
                            assert(r[l].0 == inventory[n - 1].0);
                            assert(inventory[i].0 != inventory[n - 1].0);
                        }
                    }
                }
            },
            None => {
                assert(r == p);
                assert forall|x: (Seq<char>, u32, u32)| #[trigger] r.contains(x) <==> exists|i: int|
                    0 <= i < n && sale_offer(inventory[i].0, inventory[i].1, items, entries) == Some(x) by {
                    if exists|i: int| 0 <= i < n && sale_offer(inventory[i].0, inventory[i].1, items, entries) == Some(x) {
                        let i = choose|i: int| 0 <= i < n && sale_offer(inventory[i].0, inventory[i].1, items, entries) == Some(x);
                        assert(i < n - 1);
                    }
                }
                assert forall|k: int| 0 <= k < r.len() implies exists|i: int|
                    0 <= i < n && (#[trigger] r[k]).0 == inventory[i].0 by {
                    let i = choose|i: int| 0 <= i < n - 1 && p[k].0 == inventory[i].0;
                }
            },
        }
    }
}

/// The sale list holds, for each item the player holds, exactly one offer
/// `(id, quantity held, price)` when the item is held (quantity above
/// zero), known, not a key item and has a price above zero, and nothing
/// else.
pub proof fn law_sellable_items_offers(
    inventory: Seq<(Seq<char>, u32)>,
    items: Map<Seq<char>, Item>,
    entries: Seq<ShopEntry>,
)
    requires
        keys_unique(inventory),
    ensures
        ({
            let r = sellable_prefix(inventory, items, entries, inventory.len() as int);
            let held = crate::strmap::assoc_map(inventory);
            &&& forall|o: (Seq<char>, u32, u32)|
                #[trigger] r.contains(o) <==> held.contains_key(o.0) && sale_offer(o.0, held[o.0], items, entries)
                    == Some(o)
            &&& forall|k: int, l: int| 0 <= k < l < r.len() ==> (#[trigger] r[k]).0 != (#[trigger] r[l]).0
        }),
{
    let n = inventory.len() as int;
    lemma_sellable_prefix(inventory, items, entries, n);
    crate::strmap::lemma_assoc_map(inventory);
    let r = sellable_prefix(inventory, items, entries, n);
    let held = crate::strmap::assoc_map(inventory);
    assert forall|o: (Seq<char>, u32, u32)| #[trigger] r.contains(o) <==> held.contains_key(o.0) && sale_offer(
        o.0,
        held[o.0],
        items,
        entries,
    ) == Some(o) by {
        if r.contains(o) {
            let i = choose|i: int| 0 <= i < n && sale_offer(inventory[i].0, inventory[i].1, items, entries) == Some(o);
            assert(held.contains_key(inventory[i].0));
        }
        if held.contains_key(o.0) && sale_offer(o.0, held[o.0], items, entries) == Some(o) {
            let i = choose|i: int| 0 <= i < inventory.len() && inventory[i].0 == o.0;
            assert(held[inventory[i].0] == inventory[i].1);
        }
    }
}

} // verus!
