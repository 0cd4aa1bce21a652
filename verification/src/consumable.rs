use vstd::prelude::*;

verus! {

/// A one-shot item (scroll or book) offered between rounds.
#[derive(Debug, Clone)]
pub struct Consumable {
    pub id: String,
    pub name: String,
    pub rarity: String,
    pub cost: i32,
    pub effect: ConsumableEffect,
    pub target: Option<String>,
    pub description: String,
}

/// What a consumable does when used.
#[derive(Debug, Clone)]
pub enum ConsumableEffect {
    LevelUp { chips: i32, mult: i32 },
    ModifyCard { enhancement: String },
    CreateCard { card: String },
    NoEffect,
}

} // verus!
