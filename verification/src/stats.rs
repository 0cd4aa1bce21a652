use vstd::prelude::*;
use crate::consumable::Consumable;
use crate::enemy::Enemy;
use crate::hand::HandRank;
use crate::heirloom::Heirloom;
use crate::metrics::GameMetrics;
use crate::relic::GameRelic;
use crate::state::GameState;

verus! {

/// The colour slot a rune occupies; one rune of each colour can be equipped.
#[derive(Debug, Clone, Copy, PartialEq, Eq, Structural)]
pub enum RuneType {
    Red,
    Blue,
    Green,
    Minor,
}

/// A run-wide passive picked before play begins; its `name` keys its effect.
#[derive(Debug, Clone)]
pub struct Rune {
    pub id: String,
    pub name: String,
    pub description: String,
    pub rune_type: RuneType,
    pub cost: i32,
}

/// The rule perturbation the current enemy imposes for this round only.
/// `SilenceSuit(s)` suppresses flushes of suit `s`; `HandSizeMinusOne`
/// shrinks the refill target by one; `DoubleTarget` doubles the round's
/// target score; `PayToDiscard` charges money for each discard.
#[derive(Debug, Clone, Copy, PartialEq, Eq, Structural)]
pub enum BossAbility {
    NoAbility,
    SilenceSuit(i32),
    HandSizeMinusOne,
    DoubleTarget,
    PayToDiscard,
}

/// How the hand is kept ordered between commits.
#[derive(Debug, Clone, Copy, PartialEq, Eq, Structural)]
pub enum SortMode {
    Rank,
    Suit,
}

/// The shared run state: scoring accumulators, per-round resources,
/// progression counters, the active enemy, and the equipped modifiers.
/// Multiplicative tuning values are held as integer percentages
/// (`crit_mult_pct == 150` means a 1.5x critical multiplier).
#[derive(Debug)]
pub struct BaseModifiers {
    pub level: i32,
    pub xp: i32,
    pub xp_target: i32,
    pub stat_points: u32,
    pub round: u32,
    pub ante: u32,
    pub enemies_defeated: u32,
    pub round_won: bool,

    pub current_hp: i32,
    pub max_hp: i32,
    pub money: u32,
    pub interest_cap: u32,

    pub hands_remaining: u32,
    pub discards_remaining: u32,
    pub hand_size: u32,

    pub chips: u64,
    pub mult: u64,
    pub total_score: u64,
    pub round_score: u64,
    pub target_score: u64,
    pub crit_chance_pct: u32,
    pub crit_mult_pct: u32,
    pub is_crit_active: bool,

    pub hand_rank: Option<HandRank>,

    pub current_enemy: Option<Enemy>,
    pub enemy_name: String,
    pub enemy_damage: i32,
    pub active_ability: BossAbility,

    pub consumables: Vec<Consumable>,
    pub heirlooms: Vec<Heirloom>,
    pub equipped_relics: Vec<GameRelic>,
    pub current_shop_relics: Vec<GameRelic>,
    pub equipped_runes: Vec<Rune>,
    pub available_runes: Vec<Rune>,

    pub enemy_database: Vec<Enemy>,
    pub all_relics: Vec<GameRelic>,
    pub all_consumables: Vec<Consumable>,
    pub all_heirlooms: Vec<Heirloom>,

    pub previous_state: GameState,
    pub current_sort: SortMode,

    pub score_index: usize,

    pub shop_price_pct: u32,
    pub ante_scaling_pct: u32,

    pub game_metrics: GameMetrics,
}

impl Default for BaseModifiers {
    /// The state a fresh run starts from.
    fn default() -> (s: Self)
        ensures
            s.level == 1 && s.xp == 0 && s.xp_target == 100 && s.stat_points == 0,
            s.round == 1 && s.ante == 1 && s.enemies_defeated == 0 && !s.round_won,
            s.current_hp == 100 && s.max_hp == 100 && s.money == 4 && s.interest_cap == 25,
            s.hands_remaining == 4 && s.discards_remaining == 5 && s.hand_size == 8,
            s.chips == 0 && s.mult == 0 && s.total_score == 0 && s.round_score == 0,
            s.target_score == 300,
            s.crit_chance_pct == 10 && s.crit_mult_pct == 150 && !s.is_crit_active,
            s.hand_rank is None,
            s.current_enemy is None,
            s.enemy_name@ == "Giant Rat"@,
            s.enemy_damage == 10,
            s.active_ability == BossAbility::NoAbility,
            s.consumables@.len() == 0 && s.heirlooms@.len() == 0,
            s.equipped_relics@.len() == 0 && s.current_shop_relics@.len() == 0,
            s.equipped_runes@.len() == 0 && s.available_runes@.len() == 0,
            s.enemy_database@.len() == 0 && s.all_relics@.len() == 0,
            s.all_consumables@.len() == 0 && s.all_heirlooms@.len() == 0,
            s.previous_state == GameState::Menu,
            s.current_sort == SortMode::Rank,
            s.score_index == 0,
            s.shop_price_pct == 100 && s.ante_scaling_pct == 150,
            s.game_metrics == (GameMetrics { clicks: 0, hands_played: 0, discards_used: 0 }),
    {
        BaseModifiers {
            level: 1,
            xp: 0,
            xp_target: 100,
            stat_points: 0,
            round: 1,
            ante: 1,
            enemies_defeated: 0,
            round_won: false,
            current_hp: 100,
            max_hp: 100,
            money: 4,
            interest_cap: 25,
            hands_remaining: 4,
            discards_remaining: 5,
            hand_size: 8,
            chips: 0,
            mult: 0,
            total_score: 0,
            round_score: 0,
            target_score: 300,
            crit_chance_pct: 10,
            crit_mult_pct: 150,
            is_crit_active: false,
            hand_rank: None,
            current_enemy: None,
            enemy_name: "Giant Rat".to_owned(),
            enemy_damage: 10,
            active_ability: BossAbility::NoAbility,
            consumables: Vec::new(),
            heirlooms: Vec::new(),
            equipped_relics: Vec::new(),
            current_shop_relics: Vec::new(),
            equipped_runes: Vec::new(),
            available_runes: Vec::new(),
            enemy_database: Vec::new(),
            all_relics: Vec::new(),
            all_consumables: Vec::new(),
            all_heirlooms: Vec::new(),
            previous_state: GameState::Menu,
            current_sort: SortMode::Rank,
            score_index: 0,
            shop_price_pct: 100,
            ante_scaling_pct: 150,
            game_metrics: GameMetrics::new(),
        }
    }
}

impl BaseModifiers {
    /// Spend `amount` hands; rejected, leaving the state unchanged, when
    /// fewer remain.
    pub fn decrement_hands(&mut self, amount: u32) -> (r: Result<(), String>)
        ensures
            old(self).hands_remaining >= amount ==> {
                &&& r is Ok
                &&& *final(self) == (BaseModifiers {
                    hands_remaining: (old(self).hands_remaining - amount) as u32,
                    ..*old(self)
                })
            },
            old(self).hands_remaining < amount ==> r is Err && *final(self) == *old(self),
            r matches Err(m) ==> m@ == "Not enough hands remaining."@,
    {
        proof {
            reveal_strlit("Not enough hands remaining.");
        }
        if self.hands_remaining >= amount {
            self.hands_remaining = self.hands_remaining - amount;
            Ok(())
        } else {
            Err("Not enough hands remaining.".to_owned())
        }
    }

    /// Spend `amount` discards; rejected, leaving the state unchanged, when
    /// fewer remain.
    pub fn decrement_discards(&mut self, amount: u32) -> (r: Result<(), String>)
        ensures
            old(self).discards_remaining >= amount ==> {
                &&& r is Ok
                &&& *final(self) == (BaseModifiers {
                    discards_remaining: (old(self).discards_remaining - amount) as u32,
                    ..*old(self)
                })
            },
            old(self).discards_remaining < amount ==> r is Err && *final(self) == *old(self),
            r matches Err(m) ==> m@ == "Not enough discards remaining."@,
    {
        proof {
            reveal_strlit("Not enough discards remaining.");
        }
        if self.discards_remaining >= amount {
            self.discards_remaining = self.discards_remaining - amount;
            Ok(())
        } else {
            Err("Not enough discards remaining.".to_owned())
        }
    }

    /// Grant currency, stopping at the top of the `u32` range.
    pub fn add_money(&mut self, amount: u32)
        ensures
            *final(self) == (BaseModifiers {
                money: old(self).money.saturating_add(amount),
                ..*old(self)
            }),
    {
        self.money = self.money.saturating_add(amount);
    }
}

} // verus!
