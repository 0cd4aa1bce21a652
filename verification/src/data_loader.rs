use vstd::prelude::*;

verus! {

/// A relic as described in the relic data files. The `name` keys the scoring
/// hooks; `value` is the shop cost and `rarity` drives the shop roll.
#[derive(Debug, Clone)]
pub struct RelicData {
    pub id: String,
    pub name: String,
    pub description: String,
    pub value: Option<i32>,
    pub rarity: String,
}

/// The rarity a relic record falls back to when its data file gives none.
pub fn default_rarity() -> (r: String)
    ensures
        r@ == "Common"@,
{
    proof {
        reveal_strlit("Common");
    }
    "Common".to_owned()
}

} // verus!
