//! Verified game logic for a retro, story-driven RPG toolkit: dialog markup,
//! shop transactions, event action sequencing, inventory and party rewards,
//! status screen navigation, map movement rules and editor bookkeeping.
use vstd::prelude::*;

pub mod actions;
pub mod catalog;
pub mod cli;
pub mod condition;
pub mod dialog;
pub mod editor;
pub mod forms;
pub mod hotkey;
pub mod input;
pub mod map;
pub mod patrol;
pub mod markup;
pub mod queue;
pub mod rewards;
pub mod save;
pub mod search;
pub mod selection;
pub mod shop;
pub mod shop_session;
pub mod status;
pub mod strmap;
pub mod text;
pub mod thumbnails;

verus! {

} // verus!
