use vstd::prelude::*;
use crate::arith::{cap_add_i32, sat_add_i32};
use crate::stats::BaseModifiers;

verus! {

/// The three upgrades a stat point can buy.
#[derive(Debug, Clone, Copy, PartialEq, Eq, Structural)]
pub enum StatUpgrade {
    MaxHp,
    CritChance,
    CritMult,
}

/// Spend one stat point on the chosen upgrade: ten more maximum and
/// current hit points, five more percentage points of crit chance, or
/// fifty more percentage points of crit multiplier. Rejected without a
/// point, leaving the state unchanged.
pub fn spend_stat_point(stats: &mut BaseModifiers, choice: StatUpgrade) -> (accepted: bool)
    ensures
        accepted == (old(stats).stat_points > 0),
        !accepted ==> *final(stats) == *old(stats),
        accepted ==> *final(stats) == (match choice {
            StatUpgrade::MaxHp => BaseModifiers {
                max_hp: cap_add_i32(old(stats).max_hp as int, 10) as i32,
                current_hp: cap_add_i32(old(stats).current_hp as int, 10) as i32,
                stat_points: (old(stats).stat_points - 1) as u32,
                ..*old(stats)
            },
            StatUpgrade::CritChance => BaseModifiers {
                crit_chance_pct: old(stats).crit_chance_pct.saturating_add(5),
                stat_points: (old(stats).stat_points - 1) as u32,
                ..*old(stats)
            },
            StatUpgrade::CritMult => BaseModifiers {
                crit_mult_pct: old(stats).crit_mult_pct.saturating_add(50),
                stat_points: (old(stats).stat_points - 1) as u32,
                ..*old(stats)
            },
        }),
{
    if stats.stat_points == 0 {
        return false;
    }
    match choice {
        StatUpgrade::MaxHp => {
            stats.max_hp = sat_add_i32(stats.max_hp, 10);
            stats.current_hp = sat_add_i32(stats.current_hp, 10);
        },
        StatUpgrade::CritChance => {
            stats.crit_chance_pct = stats.crit_chance_pct.saturating_add(5);
        },
        StatUpgrade::CritMult => {
            stats.crit_mult_pct = stats.crit_mult_pct.saturating_add(50);
        },
    }
    stats.stat_points = stats.stat_points - 1;
    true
}

} // verus!
