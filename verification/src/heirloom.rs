use vstd::prelude::*;

verus! {

/// A persistent purchasable bonus.
#[derive(Debug, Clone)]
pub struct Heirloom {
    pub id: String,
    pub name: String,
    pub cost: i32,
    pub effect: HeirloomEffect,
}

/// What an heirloom grants.
#[derive(Debug, Clone)]
pub enum HeirloomEffect {
    NoEffect,
    ModifyPlayerStats { stat: String, amount: i32 },
    GainMoney { amount: i32 },
}

} // verus!
