use vstd::prelude::*;
use crate::card::Card;
use crate::data_loader::RelicData;
use crate::hand::HandRank;
use crate::stats::BaseModifiers;
use crate::text::str_eq;

verus! {

/// The effect a relic hook returns; the pipeline applies it to the running
/// (chips, mult) pair. `XMult` carries an integer percentage, so
/// `XMult(200)` doubles the multiplier.
#[derive(Debug, Clone, Copy, PartialEq, Eq, Structural)]
pub enum RelicEffect {
    AddMult(u32),
    XMult(u32),
    AddChips(u32),
    NoEffect,
}

/// The read-only snapshot a relic hook may consult. Hooks never mutate run
/// state; the pipeline applies whatever effect they return.
pub struct ScoringContext<'a> {
    pub current_chips: u64,
    pub current_mult: u64,
    pub current_score: u64,
    pub base_chips: u64,
    pub base_mult: u64,
    pub played_cards: &'a [Card],
    pub held_cards: &'a [Card],
    pub all_cards_in_play: &'a [Card],
    pub hand_rank: Option<HandRank>,
    pub stats_snapshot: &'a BaseModifiers,
}

/// An equipped relic; its record's `name` keys the hook effects.
#[derive(Debug, Clone)]
pub struct GameRelic {
    pub data: RelicData,
}

/// The effect a relic contributes once per scored hand, keyed on its name.
pub open spec fn spec_hand_scored_effect(
    name: Seq<char>,
    played_len: int,
    rank: Option<HandRank>,
) -> RelicEffect {
    if name == "Power Glove"@ {
        RelicEffect::AddChips((2 * played_len) as u32)
    } else if name == "Lucky Horseshoe"@ {
        if rank == Some(HandRank::Flush) {
            RelicEffect::AddMult(5)
        } else {
            RelicEffect::NoEffect
        }
    } else if name == "PlusFourMult"@ {
        RelicEffect::AddMult(4)
    } else if name == "TimesTwoMult"@ {
        RelicEffect::XMult(200)
    } else {
        RelicEffect::NoEffect
    }
}

/// The effect a relic contributes as each scoring card is revealed.
pub open spec fn spec_card_scored_effect(name: Seq<char>, card: Card) -> RelicEffect {
    if name == "Glass Shard"@ {
        if card.value >= 10 {
            RelicEffect::XMult(150)
        } else {
            RelicEffect::NoEffect
        }
    } else {
        RelicEffect::NoEffect
    }
}

/// The effect a relic contributes when the hand ends.
pub open spec fn spec_hand_end_effect(name: Seq<char>, round: u32) -> RelicEffect {
    if name == "Ancient Coin"@ {
        RelicEffect::AddChips(round)
    } else {
        RelicEffect::NoEffect
    }
}

/// The names of a list of relics, in equip order.
pub open spec fn relic_names(rs: Seq<GameRelic>) -> Seq<Seq<char>> {
    rs.map_values(|r: GameRelic| r.data.name@)
}

/// The names of a list of relic records, in list order.
pub open spec fn data_names(ds: Seq<RelicData>) -> Seq<Seq<char>> {
    ds.map_values(|d: RelicData| d.name@)
}

/// Decide the once-per-hand effect of the relic called `name`.
pub fn hand_scored_effect(name: &str, played_len: usize, rank: Option<HandRank>) -> (e: RelicEffect)
    requires
        played_len <= 5,
    ensures
        e == spec_hand_scored_effect(name@, played_len as int, rank),
{
    if str_eq(name, "Power Glove") {
        RelicEffect::AddChips(2 * (played_len as u32))
    } else if str_eq(name, "Lucky Horseshoe") {
        match rank {
            Some(r) => {
                if r == HandRank::Flush {
                    RelicEffect::AddMult(5)
                } else {
                    RelicEffect::NoEffect
                }
            },
            None => RelicEffect::NoEffect,
        }
    } else if str_eq(name, "PlusFourMult") {
        RelicEffect::AddMult(4)
    } else if str_eq(name, "TimesTwoMult") {
        RelicEffect::XMult(200)
    } else {
        RelicEffect::NoEffect
    }
}

/// Decide the per-scoring-card effect of the relic called `name`.
pub fn card_scored_effect(name: &str, card: &Card) -> (e: RelicEffect)
    ensures
        e == spec_card_scored_effect(name@, *card),
{
    if str_eq(name, "Glass Shard") {
        if card.value >= 10 {
            RelicEffect::XMult(150)
        } else {
            RelicEffect::NoEffect
        }
    } else {
        RelicEffect::NoEffect
    }
}

/// Decide the end-of-hand effect of the relic called `name`.
pub fn hand_end_effect(name: &str, round: u32) -> (e: RelicEffect)
    ensures
        e == spec_hand_end_effect(name@, round),
{
    if str_eq(name, "Ancient Coin") {
        RelicEffect::AddChips(round)
    } else {
        RelicEffect::NoEffect
    }
}

impl GameRelic {
    pub fn id(&self) -> (r: String)
        ensures
            r@ == self.data.id@,
    {
        self.data.id.clone()
    }

    pub fn name(&self) -> (r: String)
        ensures
            r@ == self.data.name@,
    {
        self.data.name.clone()
    }

    /// Hook run once per scored hand.
    pub fn on_hand_scored(&self, context: &ScoringContext) -> (e: RelicEffect)
        requires
            context.played_cards@.len() <= 5,
        ensures
            e == spec_hand_scored_effect(
                self.data.name@,
                context.played_cards@.len() as int,
                context.hand_rank,
            ),
    {
        hand_scored_effect(self.data.name.as_str(), context.played_cards.len(), context.hand_rank)
    }

    /// Hook run for each scoring card, in hand order.
    pub fn on_played_card_scored(&self, _context: &ScoringContext, card: &Card) -> (e: RelicEffect)
        ensures
            e == spec_card_scored_effect(self.data.name@, *card),
    {
        card_scored_effect(self.data.name.as_str(), card)
    }

    /// Hook run when the played hand is cleaned up.
    pub fn on_hand_end(&self, context: &ScoringContext) -> (e: RelicEffect)
        ensures
            e == spec_hand_end_effect(self.data.name@, context.stats_snapshot.round),
    {
        hand_end_effect(self.data.name.as_str(), context.stats_snapshot.round)
    }

    /// Hook run for each discarded card; no current relic reacts to it.
    pub fn on_discard(&self, _context: &ScoringContext, _card: &Card) -> (e: RelicEffect)
        ensures
            e == RelicEffect::NoEffect,
    {
        RelicEffect::NoEffect
    }
}

} // verus!
