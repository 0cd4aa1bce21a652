use vstd::prelude::*;

verus! {

/// An enemy record: its hit points set the round's target score, and its
/// innate effect feeds the per-round economy.
#[derive(Debug, Clone)]
pub struct Enemy {
    pub id: String,
    pub name: String,
    pub hp: i32,
    pub ability: EnemyAbility,
}

/// An enemy's innate effect as it appears in the enemy data files.
#[derive(Debug, Clone, Copy, PartialEq, Eq, Structural)]
pub enum EnemyAbility {
    NoAbility,
    DealDamage { damage: i32 },
    Heal { amount: i32 },
}

} // verus!
