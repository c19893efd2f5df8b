//! Validation of the editor's text fields: display names, new items, stat
//! modifiers, shop entry prices and stock limits.
use vstd::prelude::*;
use crate::catalog::ItemCategory;
use crate::text::{chars_of, has_visible_char, is_white_space, parse_i32, parse_u32, parsed_i32, parsed_u32, trim, trimmed};

verus! {

/// The longest display name accepted.
pub const MAX_NAME_LEN: usize = 64;

/// Why a name was rejected.
#[derive(Debug, Clone, Copy, PartialEq, Eq, Structural)]
pub enum NameError {
    /// Empty or whitespace only.
    Blank,
    /// Longer than the limit.
    TooLong,
}

impl NameError {
    /// The message the editor shows.
    pub fn message(&self) -> (r: String)
        ensures
            *self == NameError::Blank ==> r@ == "Name must contain at least 1 non-whitespace character."@,
            *self == NameError::TooLong ==> r@ == "Name must not exceed 64 characters."@,
    {
        match self {
            NameError::Blank => "Name must contain at least 1 non-whitespace character.".to_string(),
            NameError::TooLong => "Name must not exceed 64 characters.".to_string(),
        }
    }
}

pub open spec fn visible(s: Seq<char>) -> bool {
    exists|i: int| 0 <= i < s.len() && !is_white_space(#[trigger] s[i])
}

/// An item's display name: the trimmed text, which must have a visible
/// character and at most 64 characters.
pub fn validate_item_name(buffer: &str) -> (r: Result<String, NameError>)
    ensures
        ({
            let t = trimmed(buffer@);
            if t.len() == 0 || !visible(t) {
                r == Err::<String, NameError>(NameError::Blank)
            } else if t.len() > MAX_NAME_LEN {
                r == Err::<String, NameError>(NameError::TooLong)
            } else {
                r matches Ok(n) && n@ == t
            }
        }),
{
    let t = trim(buffer);
    if t.is_empty() || !has_visible_char(t) {
        return Err(NameError::Blank);
    }
    if chars_of(t).len() > MAX_NAME_LEN {
        return Err(NameError::TooLong);
    }
    Ok(t.to_string())
}

/// A name field as the editor keeps it while it is typed in: its first 64
/// characters.
pub fn truncate_name_buffer(buffer: &mut String)
    ensures
        final(buffer)@ == if old(buffer)@.len() > MAX_NAME_LEN {
            old(buffer)@.take(MAX_NAME_LEN as int)
        } else {
            old(buffer)@
        },
{
    let chars = chars_of(buffer.as_str());
    if chars.len() > MAX_NAME_LEN {
        let mut t = String::new();
        let mut i: usize = 0;
        while i < MAX_NAME_LEN
            invariant
                i <= MAX_NAME_LEN,
                chars@.len() > MAX_NAME_LEN,
                t@ == chars@.take(i as int),
            decreases MAX_NAME_LEN - i,
        {
            t.push(chars[i]);
            assert(chars@.take(i + 1) =~= chars@.take(i as int).push(chars@[i as int]));
            i = i + 1;
        }
        *buffer = t;
    }
}

/// A shop's display name: the trimmed text, which must have a visible
/// character and at most 64 characters.
pub fn validate_shop_name(buffer: &str) -> (r: Result<String, NameError>)
    ensures
        ({
            let t = trimmed(buffer@);
            if t.len() == 0 || !visible(t) {
                r == Err::<String, NameError>(NameError::Blank)
            } else if t.len() > MAX_NAME_LEN {
                r == Err::<String, NameError>(NameError::TooLong)
            } else {
                r matches Ok(n) && n@ == t
            }
        }),
{
    let t = trim(buffer);
    if t.is_empty() || !has_visible_char(t) {
        return Err(NameError::Blank);
    }
    if chars_of(t).len() > MAX_NAME_LEN {
        return Err(NameError::TooLong);
    }
    Ok(t.to_string())
}

/// Why a new item could not be created.
#[derive(Debug, Clone, Copy, PartialEq, Eq, Structural)]
pub enum CreateItemError {
    BlankName,
    NoCategory,
}

impl CreateItemError {
    /// The message the editor shows.
    pub fn message(&self) -> (r: String)
        ensures
            *self == CreateItemError::BlankName ==> r@ == "Name must not be empty or whitespace-only."@,
            *self == CreateItemError::NoCategory ==> r@ == "Please select a category."@,
    {
        match self {
            CreateItemError::BlankName => "Name must not be empty or whitespace-only.".to_string(),
            CreateItemError::NoCategory => "Please select a category.".to_string(),
        }
    }
}

/// The create-item dialog: a name with a visible character and a chosen
/// category are required (checked in that order).
pub fn validate_new_item(name_buffer: &str, category: Option<ItemCategory>) -> (r: Result<ItemCategory, CreateItemError>)
    ensures
        ({
            let t = trimmed(name_buffer@);
            if t.len() == 0 || !visible(t) {
                r == Err::<ItemCategory, CreateItemError>(CreateItemError::BlankName)
            } else {
                match category {
                    None => r == Err::<ItemCategory, CreateItemError>(CreateItemError::NoCategory),
                    Some(c) => r == Ok::<ItemCategory, CreateItemError>(c),
                }
            }
        }),
{
    let t = trim(name_buffer);
    if t.is_empty() || !has_visible_char(t) {
        return Err(CreateItemError::BlankName);
    }
    match category {
        None => Err(CreateItemError::NoCategory),
        Some(c) => Ok(c),
    }
}

/// Why a stat modifier could not be added.
#[derive(Debug, Clone, Copy, PartialEq, Eq, Structural)]
pub enum StatModifierError {
    BlankName,
    InvalidValue,
}

impl StatModifierError {
    /// The message the editor shows.
    pub fn message(&self) -> (r: String)
        ensures
            *self == StatModifierError::BlankName ==> r@ == "Stat name must not be empty."@,
            *self == StatModifierError::InvalidValue ==> r@ == "Value must be a valid integer."@,
    {
        match self {
            StatModifierError::BlankName => "Stat name must not be empty.".to_string(),
            StatModifierError::InvalidValue => "Value must be a valid integer.".to_string(),
        }
    }
}

/// The add-stat-modifier dialog: the trimmed name must not be empty and the
/// trimmed value must be an `i32`.
pub fn validate_stat_modifier(name_buffer: &str, value_buffer: &str) -> (r: Result<(String, i32), StatModifierError>)
    ensures
        ({
            let n = trimmed(name_buffer@);
            if n.len() == 0 {
                r == Err::<(String, i32), StatModifierError>(StatModifierError::BlankName)
            } else {
                match parsed_i32(trimmed(value_buffer@)) {
                    None => r == Err::<(String, i32), StatModifierError>(StatModifierError::InvalidValue),
                    Some(v) => r matches Ok(p) && p.0@ == n && p.1 == v,
                }
            }
        }),
{
    let name = trim(name_buffer);
    if name.is_empty() {
        return Err(StatModifierError::BlankName);
    }
    match parse_i32(trim(value_buffer)) {
        None => Err(StatModifierError::InvalidValue),
        Some(v) => Ok((name.to_string(), v)),
    }
}

/// The text fields of one shop entry in the shop editor.
pub struct EntryEditBuffer {
    pub buy_price: String,
    /// Empty means the automatic sell price.
    pub sell_price: String,
    /// Empty means unlimited stock.
    pub stock_limit: String,
    pub error: Option<String>,
}

/// The validated changes of a shop entry's fields.
#[derive(Debug, Clone, Copy, PartialEq, Eq, Structural)]
pub struct EntryUpdate {
    pub buy_price: Option<u32>,
    pub sell_price: Option<Option<u32>>,
    pub stock_limit: Option<Option<u32>>,
}

/// Which entry field failed to validate (a later field's failure is the
/// one reported).
#[derive(Debug, Clone, Copy, PartialEq, Eq, Structural)]
pub enum EntryFieldError {
    BuyPrice,
    SellPrice,
    StockLimit,
}

impl EntryFieldError {
    /// The message the editor shows.
    pub fn message(&self) -> (r: String)
        ensures
            *self == EntryFieldError::BuyPrice ==> r@ == "Buy price must be 0–4,294,967,295"@,
            *self == EntryFieldError::SellPrice ==> r@ == "Sell price must be 0–4,294,967,295 or empty for Auto"@,
            *self == EntryFieldError::StockLimit ==> r@ == "Stock limit must be 1–9999 or empty for Unlimited"@,
    {
        match self {
            EntryFieldError::BuyPrice => "Buy price must be 0–4,294,967,295".to_string(),
            EntryFieldError::SellPrice => "Sell price must be 0–4,294,967,295 or empty for Auto".to_string(),
            EntryFieldError::StockLimit => "Stock limit must be 1–9999 or empty for Unlimited".to_string(),
        }
    }
}

/// The outcome of editing a field: `None` when the field was not edited.
pub open spec fn buy_field(text: Seq<char>, edited: bool) -> Option<Option<u32>> {
    if !edited {
        None
    } else {
        Some(parsed_u32(trimmed(text)))
    }
}

pub open spec fn optional_field(text: Seq<char>, edited: bool, max: Option<u32>) -> Option<Option<Option<u32>>> {
    if !edited {
        None
    } else if trimmed(text).len() == 0 {
        Some(Some(None))
    } else {
        match parsed_u32(trimmed(text)) {
            Some(v) => if max matches Some(m) && !(1 <= v <= m) {
                Some(None)
            } else {
                Some(Some(Some(v)))
            },
            None => Some(None),
        }
    }
}

/// Validates the fields of an entry that lost focus: the buy price must be
/// a `u32`; the sell price empty (automatic) or a `u32`; the stock limit
/// empty (unlimited) or 1 to 9999. With any error the last failing field
/// is reported and nothing is applied; otherwise the edited fields are.
pub fn validate_entry_edit(
    buffer: &EntryEditBuffer,
    buy_edited: bool,
    sell_edited: bool,
    stock_edited: bool,
) -> (r: Result<Option<EntryUpdate>, EntryFieldError>)
    ensures
        ({
            let b = buy_field(buffer.buy_price@, buy_edited);
            let s = optional_field(buffer.sell_price@, sell_edited, None);
            let k = optional_field(buffer.stock_limit@, stock_edited, Some(9999u32));
            if k == Some(None::<Option<u32>>) {
                r == Err::<Option<EntryUpdate>, EntryFieldError>(EntryFieldError::StockLimit)
            } else if s == Some(None::<Option<u32>>) {
                r == Err::<Option<EntryUpdate>, EntryFieldError>(EntryFieldError::SellPrice)
            } else if b == Some(None::<u32>) {
                r == Err::<Option<EntryUpdate>, EntryFieldError>(EntryFieldError::BuyPrice)
            } else if !buy_edited && !sell_edited && !stock_edited {
                r == Ok::<Option<EntryUpdate>, EntryFieldError>(None)
            } else {
                r == Ok::<Option<EntryUpdate>, EntryFieldError>(
                    Some(
                        EntryUpdate {
                            buy_price: match b {
                                Some(Some(v)) => Some(v),
                                _ => None,
                            },
                            sell_price: match s {
                                Some(Some(v)) => Some(v),
                                _ => None,
                            },
                            stock_limit: match k {
                                Some(Some(v)) => Some(v),
                                _ => None,
                            },
                        },
                    ),
                )
            }
        }),
{
    let mut new_buy: Option<u32> = None;
    let mut new_sell: Option<Option<u32>> = None;
    let mut new_stock: Option<Option<u32>> = None;
    let mut error: Option<EntryFieldError> = None;
    if buy_edited {
        match parse_u32(trim(buffer.buy_price.as_str())) {
            Some(v) => new_buy = Some(v),
            None => error = Some(EntryFieldError::BuyPrice),
        }
    }
    if sell_edited {
        let t = trim(buffer.sell_price.as_str());
        if t.is_empty() {
            new_sell = Some(None);
        } else {
            match parse_u32(t) {
                Some(v) => new_sell = Some(Some(v)),
                None => error = Some(EntryFieldError::SellPrice),
            }
        }
    }
    if stock_edited {
        let t = trim(buffer.stock_limit.as_str());
        if t.is_empty() {
            new_stock = Some(None);
        } else {
            match parse_u32(t) {
                Some(v) => {
                    if 1 <= v && v <= 9999 {
                        new_stock = Some(Some(v));
                    } else {
                        error = Some(EntryFieldError::StockLimit);
                    }
                },
                None => error = Some(EntryFieldError::StockLimit),
            }
        }
    }
    match error {
        Some(e) => Err(e),
        None => {
            if new_buy.is_some() || new_sell.is_some() || new_stock.is_some() {
                Ok(Some(EntryUpdate { buy_price: new_buy, sell_price: new_sell, stock_limit: new_stock }))
            } else {
                Ok(None)
            }
        },
    }
}

/// The selection after the category filter changed: a selected item that
/// is no longer listed gives way to the first listed item (or none).
pub fn selection_after_filter(selected: Option<String>, filter_changed: bool, listed: &Vec<String>) -> (r: Option<String>)
    ensures
        ({
            let ids = listed@.map_values(|s: String| s@);
            let sel = crate::condition::opt_view(selected);
            if filter_changed && sel is Some && !ids.contains(sel->0) {
                match r {
                    Some(n) => ids.len() > 0 && n@ == ids[0],
                    None => ids.len() == 0,
                }
            } else {
                crate::condition::opt_view(r) == sel
            }
        }),
{
    if !filter_changed {
        return selected;
    }
    let found = match &selected {
        None => return None,
        Some(s) => lists_text(listed, s),
    };
    if found {
        return selected;
    }
    if listed.len() > 0 {
        Some(listed[0].clone())
    } else {
        None
    }
}

fn lists_text(listed: &Vec<String>, s: &String) -> (r: bool)
    ensures
        r == listed@.map_values(|t: String| t@).contains(s@),
{
    let ghost ids = listed@.map_values(|t: String| t@);
    let mut i: usize = 0;
    while i < listed.len()
        invariant
            i <= listed@.len(),
            ids == listed@.map_values(|t: String| t@),
            forall|k: int| 0 <= k < i ==> ids[k] != s@,
        decreases listed@.len() - i,
    {
        if crate::text::str_eq(listed[i].as_str(), s.as_str()) {
            assert(ids[i as int] == s@);
            return true;
        }
        i = i + 1;
    }
    false
}

} // verus!
