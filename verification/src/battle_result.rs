use vstd::prelude::*;
use crate::arith::{cap_sub_i32, sat_sub_i32};
use crate::stats::BaseModifiers;
use crate::state::GameState;

verus! {

/// The consolation grant after a survived round loss.
pub const CONSOLATION_MONEY: u32 = 1;

/// The interest earned on held money: one per five held, capped by one per
/// five of the interest cap.
pub open spec fn spec_interest(money: u32, cap: u32) -> int {
    if money / 5 <= cap / 5 {
        money as int / 5
    } else {
        cap as int / 5
    }
}

/// The three reward components of a won round: the flat grant, the
/// interest on held money, and one coin per unspent hand.
pub fn calculate_rewards(stats: &BaseModifiers) -> (r: (u32, u32, u32))
    ensures
        r.0 == 4,
        r.1 == spec_interest(stats.money, stats.interest_cap),
        r.2 == stats.hands_remaining,
{
    let base_money: u32 = 4;
    let interest: u32 = if stats.money / 5 <= stats.interest_cap / 5 {
        stats.money / 5
    } else {
        stats.interest_cap / 5
    };
    let hands_bonus: u32 = stats.hands_remaining;
    (base_money, interest, hands_bonus)
}

/// Bank a won round's rewards -- the flat grant, the interest and the
/// unspent-hand bonus, stopping at the top of the `u32` range -- roll the
/// shop offer, and head to the shop.
pub fn confirm_battle_result(stats: &mut BaseModifiers, state: &mut GameState)
    requires
        old(stats).all_relics@.len() <= u32::MAX,
    ensures
        ({
            let gained = 4 + spec_interest(old(stats).money, old(stats).interest_cap) + old(stats).hands_remaining;
            let new_money = if old(stats).money + gained > u32::MAX {
                u32::MAX as int
            } else {
                old(stats).money + gained
            };
            &&& *final(stats) == (BaseModifiers {
                money: new_money as u32,
                current_shop_relics: final(stats).current_shop_relics,
                ..*old(stats)
            })
            &&& final(stats).current_shop_relics@.len() <= 3
            &&& crate::shop::offers_from(
                final(stats).current_shop_relics@,
                old(stats).all_relics@,
            )
            &&& *final(state) == GameState::Shop
        }),
{
    let (base_money, interest, hands_bonus) = calculate_rewards(&*stats);
    let total: u64 = (stats.money as u64) + (base_money as u64) + (interest as u64) + (
    hands_bonus as u64);
    stats.money = if total > (u32::MAX as u64) {
        u32::MAX
    } else {
        total as u32
    };
    crate::shop::init_shop(stats);
    *state = GameState::Shop;
}

/// Resolve a lost round: the enemy's damage strikes the player's hit
/// points. The run is over when they are gone; otherwise a consolation
/// coin is granted.
pub fn apply_round_loss(stats: &mut BaseModifiers) -> (run_over: bool)
    ensures
        ({
            let new_hp = cap_sub_i32(old(stats).current_hp as int, old(stats).enemy_damage as int);
            &&& run_over == (new_hp <= 0)
            &&& *final(stats) == (BaseModifiers {
                current_hp: new_hp as i32,
                money: if new_hp <= 0 {
                    old(stats).money
                } else {
                    old(stats).money.saturating_add(CONSOLATION_MONEY)
                },
                ..*old(stats)
            })
        }),
{
    stats.current_hp = sat_sub_i32(stats.current_hp, stats.enemy_damage);
    if stats.current_hp <= 0 {
        true
    } else {
        stats.money = stats.money.saturating_add(CONSOLATION_MONEY);
        false
    }
}

} // verus!
