use vstd::prelude::*;

pub mod arith;
pub mod battle_result;
pub mod card;
pub mod consumable;
pub mod data_loader;
pub mod enemy;
pub mod hand;
pub mod heirloom;
pub mod joker_stats;
pub mod metrics;
pub mod poker;
pub mod relic;
pub mod rng;
pub mod round;
pub mod rune_select;
pub mod score_manager;
pub mod shop;
pub mod stats;
pub mod stats_menu;
pub mod state;
pub mod text;

verus! {

} // verus!
