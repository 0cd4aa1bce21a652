use vstd::prelude::*;
use crate::arith::{cap_add, cap_add_i32, sat_add, sat_add_i32};
use crate::stats::{BaseModifiers, Rune, RuneType};
use crate::state::GameState;
use crate::text::str_eq;

verus! {

/// The runes kept when a slot of the given colour is re-equipped: every
/// rune of another colour, in order.
pub open spec fn runes_keeping(s: Seq<Rune>, rt: RuneType) -> Seq<Rune>
    decreases s.len(),
{
    if s.len() == 0 {
        Seq::empty()
    } else if s.last().rune_type != rt {
        runes_keeping(s.drop_last(), rt).push(s.last())
    } else {
        runes_keeping(s.drop_last(), rt)
    }
}

/// A field-by-field copy of a rune.
pub fn copy_rune(r: &Rune) -> (c: Rune)
    ensures
        c == *r,
{
    Rune {
        id: r.id.clone(),
        name: r.name.clone(),
        description: r.description.clone(),
        rune_type: r.rune_type,
        cost: r.cost,
    }
}

/// Equip the available rune at `index`, replacing any equipped rune of the
/// same colour; an index past the offered list is rejected and changes
/// nothing.
pub fn equip_rune(stats: &mut BaseModifiers, index: usize) -> (accepted: bool)
    ensures
        ({
            let avail = old(stats).available_runes@;
            let ok = index < avail.len();
            &&& accepted == ok
            &&& !ok ==> *final(stats) == *old(stats)
            &&& ok ==> {
                &&& *final(stats) == (BaseModifiers {
                    equipped_runes: final(stats).equipped_runes,
                    ..*old(stats)
                })
                &&& final(stats).equipped_runes@ == runes_keeping(
                    old(stats).equipped_runes@,
                    avail[index as int].rune_type,
                ).push(avail[index as int])
            }
        }),
{
    if index >= stats.available_runes.len() {
        return false;
    }
    let chosen = copy_rune(&stats.available_runes[index]);
    let rt = chosen.rune_type;
    let ghost equipped0 = stats.equipped_runes@;
    let mut kept: Vec<Rune> = Vec::new();
    let mut i: usize = 0;
    while i < stats.equipped_runes.len()
        invariant
            i <= equipped0.len(),
            stats.equipped_runes@ == equipped0,
            kept@ == runes_keeping(equipped0.take(i as int), rt),
        decreases equipped0.len() - i,
    {
        proof {
            assert(equipped0.take(i as int + 1).drop_last() =~= equipped0.take(i as int));
        }
        if stats.equipped_runes[i].rune_type != rt {
            let keep = copy_rune(&stats.equipped_runes[i]);
            kept.push(keep);
        }
        i = i + 1;
    }
    proof {
        assert(equipped0.take(equipped0.len() as int) =~= equipped0);
    }
    kept.push(chosen);
    stats.equipped_runes = kept;
    true
}

/// One rune's permanent effect on the run state, keyed by its name.
pub open spec fn rune_step(s: BaseModifiers, name: Seq<char>) -> BaseModifiers {
    if name == "Paladin"@ {
        BaseModifiers {
            max_hp: cap_add_i32(s.max_hp as int, 40) as i32,
            current_hp: cap_add_i32(s.current_hp as int, 40) as i32,
            ..s
        }
    } else if name == "Reaper"@ {
        let m = if s.max_hp < 16 {
            1int
        } else {
            s.max_hp - 15
        };
        BaseModifiers { max_hp: m as i32, current_hp: m as i32, ..s }
    } else if name == "Judgement"@ {
        BaseModifiers { ante_scaling_pct: 200, ..s }
    } else if name == "Greed"@ {
        BaseModifiers {
            hands_remaining: s.hands_remaining.saturating_add(1),
            discards_remaining: s.discards_remaining.saturating_add(1),
            ..s
        }
    } else if name == "Investment"@ {
        BaseModifiers { money: 0, ..s }
    } else if name == "Merchant"@ {
        BaseModifiers { shop_price_pct: 120, ..s }
    } else if name == "Evolution"@ {
        BaseModifiers { ante_scaling_pct: 225, ..s }
    } else if name == "Force"@ {
        BaseModifiers { mult: cap_add(s.mult as int, 10) as u64, ..s }
    } else if name == "Flow"@ {
        BaseModifiers { chips: cap_add(s.chips as int, 10) as u64, ..s }
    } else if name == "Wealth"@ {
        BaseModifiers { money: s.money.saturating_add(3), ..s }
    } else {
        s
    }
}

/// The names of the equipped runes, in equip order.
pub open spec fn rune_names(rs: Seq<Rune>) -> Seq<Seq<char>> {
    rs.map_values(|r: Rune| r.name@)
}

/// The state after the first `n` equipped runes' effects, in equip order.
pub open spec fn runes_applied(s: BaseModifiers, names: Seq<Seq<char>>, n: int) -> BaseModifiers
    decreases n,
{
    if n <= 0 {
        s
    } else {
        rune_step(runes_applied(s, names, n - 1), names[n - 1])
    }
}

/// Confirm the rune choice: the tuning percentages and stat points are
/// reset to their starting values, each equipped rune's permanent effect
/// is applied in equip order, and play begins.
pub fn confirm_runes(stats: &mut BaseModifiers, state: &mut GameState)
    ensures
        ({
            let seeded = BaseModifiers {
                shop_price_pct: 100,
                ante_scaling_pct: 150,
                stat_points: 3,
                ..*old(stats)
            };
            *final(stats) == runes_applied(
                seeded,
                rune_names(old(stats).equipped_runes@),
                old(stats).equipped_runes@.len() as int,
            )
        }),
        *final(state) == GameState::Playing,
{
    stats.shop_price_pct = 100;
    stats.ante_scaling_pct = 150;
    stats.stat_points = 3;
    let ghost seeded = *stats;
    let ghost names = rune_names(stats.equipped_runes@);
    let n = stats.equipped_runes.len();
    let mut i: usize = 0;
    while i < n
        invariant
            i <= n,
            n == stats.equipped_runes@.len(),
            names == rune_names(stats.equipped_runes@),
            *stats == runes_applied(seeded, names, i as int),
        decreases n - i,
    {
        let ghost prev = *stats;
        let name = &stats.equipped_runes[i].name;
        if str_eq(name.as_str(), "Paladin") {
            stats.max_hp = sat_add_i32(stats.max_hp, 40);
            stats.current_hp = sat_add_i32(stats.current_hp, 40);
        } else if str_eq(name.as_str(), "Reaper") {
            if stats.max_hp < 16 {
                stats.max_hp = 1;
            } else {
                stats.max_hp = stats.max_hp - 15;
            }
            stats.current_hp = stats.max_hp;
        } else if str_eq(name.as_str(), "Judgement") {
            stats.ante_scaling_pct = 200;
        } else if str_eq(name.as_str(), "Greed") {
            stats.hands_remaining = stats.hands_remaining.saturating_add(1);
            stats.discards_remaining = stats.discards_remaining.saturating_add(1);
        } else if str_eq(name.as_str(), "Investment") {
            stats.money = 0;
        } else if str_eq(name.as_str(), "Merchant") {
            stats.shop_price_pct = 120;
        } else if str_eq(name.as_str(), "Evolution") {
            stats.ante_scaling_pct = 225;
        } else if str_eq(name.as_str(), "Force") {
            stats.mult = sat_add(stats.mult, 10);
        } else if str_eq(name.as_str(), "Flow") {
            stats.chips = sat_add(stats.chips, 10);
        } else if str_eq(name.as_str(), "Wealth") {
            stats.money = stats.money.saturating_add(3);
        }
        proof {
            assert(*stats == rune_step(prev, names[i as int]));
        }
        i = i + 1;
    }
    *state = GameState::Playing;
}

} // verus!
