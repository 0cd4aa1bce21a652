use vstd::prelude::*;
use crate::arith::{cap_add, cap_mul, sat_add, sat_mul};
use crate::card::{all_wf, Card};
use crate::data_loader::RelicData;
use crate::hand::HandRank;
use crate::poker::{
    find_max_card, card_scores, get_card_chip_value, get_hand_base_score, is_scoring_card,
    max_card_idx, spec_base_score, spec_chip_value,
};
use crate::relic::{
    card_scored_effect, data_names, hand_scored_effect, relic_names, spec_card_scored_effect,
    spec_hand_scored_effect, GameRelic, RelicEffect,
};
use crate::stats::BaseModifiers;

verus! {

// ---------------------------------------------------------------------------
// The effect algebra
// ---------------------------------------------------------------------------

/// Apply one relic effect to the running (chips, mult) pair. Additions and
/// multiplications stop at the top of the `u64` range; `XMult` is an
/// integer percentage.
pub open spec fn apply_effect(cm: (int, int), e: RelicEffect) -> (int, int) {
    match e {
        RelicEffect::AddChips(n) => (cap_add(cm.0, n as int), cm.1),
        RelicEffect::AddMult(n) => (cm.0, cap_add(cm.1, n as int)),
        RelicEffect::XMult(p) => (cm.0, cap_mul(cm.1, p as int) / 100),
        RelicEffect::NoEffect => cm,
    }
}

/// Apply one relic effect to the running pair.
pub fn apply_effect_exec(chips: u64, mult: u64, e: RelicEffect) -> (r: (u64, u64))
    ensures
        (r.0 as int, r.1 as int) == apply_effect((chips as int, mult as int), e),
{
    match e {
        RelicEffect::AddChips(n) => (sat_add(chips, n as u64), mult),
        RelicEffect::AddMult(n) => (chips, sat_add(mult, n as u64)),
        RelicEffect::XMult(p) => (chips, sat_mul(mult, p as u64) / 100),
        RelicEffect::NoEffect => (chips, mult),
    }
}

// ---------------------------------------------------------------------------
// The ordered pipeline, as folds over the equipped relics
// ---------------------------------------------------------------------------

/// The pair after the first `n` relics' once-per-hand hooks, applied in
/// equip order.
pub open spec fn hand_hooks_upto(
    names: Seq<Seq<char>>,
    played_len: int,
    rank: Option<HandRank>,
    cm: (int, int),
    n: int,
) -> (int, int)
    decreases n,
{
    if n <= 0 {
        cm
    } else {
        apply_effect(
            hand_hooks_upto(names, played_len, rank, cm, n - 1),
            spec_hand_scored_effect(names[n - 1], played_len, rank),
        )
    }
}

/// The pair after the first `n` relics' hooks for one revealed card.
pub open spec fn card_hooks_one(
    names: Seq<Seq<char>>,
    card: Card,
    cm: (int, int),
    n: int,
) -> (int, int)
    decreases n,
{
    if n <= 0 {
        cm
    } else {
        apply_effect(
            card_hooks_one(names, card, cm, n - 1),
            spec_card_scored_effect(names[n - 1], card),
        )
    }
}

/// The pair after every relic's card hook has run for each of the first `k`
/// played cards, cards outermost.
pub open spec fn card_hooks_upto(
    names: Seq<Seq<char>>,
    cards: Seq<Card>,
    cm: (int, int),
    k: int,
) -> (int, int)
    decreases k,
{
    if k <= 0 {
        cm
    } else {
        card_hooks_one(
            names,
            cards[k - 1],
            card_hooks_upto(names, cards, cm, k - 1),
            names.len() as int,
        )
    }
}

/// One step of the scoring sequence: when the card at index `i` scores, its
/// chip value is added and every relic's card hook runs for it, in equip
/// order; otherwise the pair is unchanged.
pub open spec fn card_step(
    names: Seq<Seq<char>>,
    s: Seq<Card>,
    rank: HandRank,
    cm: (int, int),
    i: int,
) -> (int, int) {
    if is_scoring_card(s, rank, i) {
        card_hooks_one(
            names,
            s[i],
            (cap_add(cm.0, spec_chip_value(s[i].value as int)), cm.1),
            names.len() as int,
        )
    } else {
        cm
    }
}

/// The pair after the scoring sequence has revealed the first `n` cards in
/// hand order.
pub open spec fn scoring_steps_upto(
    names: Seq<Seq<char>>,
    s: Seq<Card>,
    rank: HandRank,
    cm: (int, int),
    n: int,
) -> (int, int)
    decreases n,
{
    if n <= 0 {
        cm
    } else {
        card_step(names, s, rank, scoring_steps_upto(names, s, rank, cm, n - 1), n - 1)
    }
}

/// The final pair of the whole pipeline for a played selection: the base
/// category score, then the scoring sequence, then the once-per-hand hooks.
pub open spec fn spec_pipeline(
    names: Seq<Seq<char>>,
    s: Seq<Card>,
    rank: HandRank,
) -> (int, int) {
    hand_hooks_upto(
        names,
        s.len() as int,
        Some(rank),
        scoring_steps_upto(names, s, rank, spec_base_score(rank), s.len() as int),
        names.len() as int,
    )
}

// ---------------------------------------------------------------------------
// Range of the running pair
// ---------------------------------------------------------------------------

/// Both components lie within the `u64` range.
pub open spec fn in_u64(cm: (int, int)) -> bool {
    &&& 0 <= cm.0 <= u64::MAX
    &&& 0 <= cm.1 <= u64::MAX
}

/// Applying an effect keeps the pair within the `u64` range.
pub proof fn lemma_apply_effect_in_u64(cm: (int, int), e: RelicEffect)
    requires
        in_u64(cm),
    ensures
        in_u64(apply_effect(cm, e)),
{
    if let RelicEffect::XMult(p) = e {
        assert(cm.1 * p >= 0) by (nonlinear_arith)
            requires
                cm.1 >= 0 && p >= 0,
        ;
        vstd::arithmetic::div_mod::lemma_div_pos_is_pos(cap_mul(cm.1, p as int), 100);
        vstd::arithmetic::div_mod::lemma_div_nonincreasing(cap_mul(cm.1, p as int), 100);
    }
}

/// The card hooks of one revealed card keep the pair within the `u64`
/// range.
pub proof fn lemma_card_hooks_one_in_u64(names: Seq<Seq<char>>, card: Card, cm: (int, int), n: int)
    requires
        in_u64(cm),
    ensures
        in_u64(card_hooks_one(names, card, cm, n)),
    decreases n,
{
    if n > 0 {
        lemma_card_hooks_one_in_u64(names, card, cm, n - 1);
        lemma_apply_effect_in_u64(
            card_hooks_one(names, card, cm, n - 1),
            spec_card_scored_effect(names[n - 1], card),
        );
    }
}

/// The scoring sequence keeps the pair within the `u64` range.
pub proof fn lemma_scoring_steps_in_u64(
    names: Seq<Seq<char>>,
    s: Seq<Card>,
    rank: HandRank,
    cm: (int, int),
    n: int,
)
    requires
        in_u64(cm),
        all_wf(s),
        n <= s.len(),
    ensures
        in_u64(scoring_steps_upto(names, s, rank, cm, n)),
    decreases n,
{
    if n > 0 {
        lemma_scoring_steps_in_u64(names, s, rank, cm, n - 1);
        let prev = scoring_steps_upto(names, s, rank, cm, n - 1);
        if is_scoring_card(s, rank, n - 1) {
            assert(s[n - 1].wf());
            lemma_card_hooks_one_in_u64(
                names,
                s[n - 1],
                (cap_add(prev.0, spec_chip_value(s[n - 1].value as int)), prev.1),
                names.len() as int,
            );
        }
    }
}

// ---------------------------------------------------------------------------
// The scoring engine
// ---------------------------------------------------------------------------

/// The critical-hit scaling: a roll below the crit chance scales the total
/// by the crit multiplier percentage, as one final, separate multiplication.
pub open spec fn spec_apply_crit(total: int, roll: u32, chance_pct: u32, mult_pct: u32) -> int {
    if roll < chance_pct {
        cap_mul(total, mult_pct as int) / 100
    } else {
        total
    }
}

/// Scale a total by the critical multiplier when the roll succeeds.
pub fn apply_crit(total: u64, roll: u32, crit_chance_pct: u32, crit_mult_pct: u32) -> (r: u64)
    ensures
        r == spec_apply_crit(total as int, roll, crit_chance_pct, crit_mult_pct),
{
    if roll < crit_chance_pct {
        sat_mul(total, crit_mult_pct as u64) / 100
    } else {
        total
    }
}

/// The complete ordered pipeline of one played selection, collapsed into a
/// single call: base chips and mult for the frozen category, the chip value
/// of each scoring card with every relic's card hook in hand order, then
/// every relic's hand hook in equip order. Returns (chips, mult, total)
/// with total = chips x mult.
pub fn score_played_hand(played: &[Card], hand_rank: HandRank, relics: &[GameRelic]) -> (r: (
    u64,
    u64,
    u64,
))
    requires
        1 <= played@.len() <= 5,
        all_wf(played@),
    ensures
        ({
            let cm = spec_pipeline(relic_names(relics@), played@, hand_rank);
            r.0 == cm.0 && r.1 == cm.1 && r.2 == cap_mul(cm.0, cm.1)
        }),
{
    let ghost names = relic_names(relics@);
    let (base_chips, base_mult) = get_hand_base_score(hand_rank);
    let mut chips = base_chips;
    let mut mult = base_mult;
    let best = find_max_card(played);

    let mut i: usize = 0;
    while i < played.len()
        invariant
            1 <= played@.len() <= 5,
            all_wf(played@),
            i <= played@.len(),
            best == max_card_idx(played@),
            names == relic_names(relics@),
            (chips as int, mult as int) == scoring_steps_upto(
                names,
                played@,
                hand_rank,
                spec_base_score(hand_rank),
                i as int,
            ),
        decreases played@.len() - i,
    {
        if card_scores(played, hand_rank, i, best) {
            chips = sat_add(chips, get_card_chip_value(&played[i]));
            let ghost cmk = (chips as int, mult as int);
            let mut j: usize = 0;
            while j < relics.len()
                invariant
                    i < played@.len(),
                    j <= relics@.len(),
                    names == relic_names(relics@),
                    (chips as int, mult as int) == card_hooks_one(
                        names,
                        played@[i as int],
                        cmk,
                        j as int,
                    ),
                decreases relics@.len() - j,
            {
                let e = card_scored_effect(relics[j].data.name.as_str(), &played[i]);
                let r = apply_effect_exec(chips, mult, e);
                chips = r.0;
                mult = r.1;
                j = j + 1;
            }
        }
        i = i + 1;
    }

    let ghost cm1 = (chips as int, mult as int);
    let mut j: usize = 0;
    while j < relics.len()
        invariant
            1 <= played@.len() <= 5,
            j <= relics@.len(),
            names == relic_names(relics@),
            (chips as int, mult as int) == hand_hooks_upto(
                names,
                played@.len() as int,
                Some(hand_rank),
                cm1,
                j as int,
            ),
        decreases relics@.len() - j,
    {
        let e = hand_scored_effect(relics[j].data.name.as_str(), played.len(), Some(hand_rank));
        let r = apply_effect_exec(chips, mult, e);
        chips = r.0;
        mult = r.1;
        j = j + 1;
    }

    let total = sat_mul(chips, mult);
    (chips, mult, total)
}

/// The pipeline's order matters: with an add-four-mult relic followed by
/// a doubling relic the multiplier becomes (m + 4) x 2, while the reverse
/// order gives m x 2 + 4 -- the two results always differ by exactly 4,
/// so reordering relics changes the total.
pub proof fn lemma_hook_order_matters(
    chips: u64,
    mult: u64,
    played_len: int,
    rank: Option<HandRank>,
)
    requires
        mult <= 1000000,
    ensures
        ({
            let ab = seq!["PlusFourMult"@, "TimesTwoMult"@];
            let ba = seq!["TimesTwoMult"@, "PlusFourMult"@];
            let cm = (chips as int, mult as int);
            &&& hand_hooks_upto(ab, played_len, rank, cm, 2) == (chips as int, (mult + 4) * 2)
            &&& hand_hooks_upto(ba, played_len, rank, cm, 2) == (chips as int, mult * 2 + 4)
            &&& hand_hooks_upto(ab, played_len, rank, cm, 2).1 != hand_hooks_upto(
                ba,
                played_len,
                rank,
                cm,
                2,
            ).1
        }),
{
    reveal_strlit("PlusFourMult");
    reveal_strlit("TimesTwoMult");
    reveal_strlit("Power Glove");
    reveal_strlit("Lucky Horseshoe");
    let ab = seq!["PlusFourMult"@, "TimesTwoMult"@];
    let ba = seq!["TimesTwoMult"@, "PlusFourMult"@];
    let cm = (chips as int, mult as int);

    assert("PlusFourMult"@ != "Power Glove"@) by {
        assert("PlusFourMult"@.len() == 12 && "Power Glove"@.len() == 11);
    }
    assert("PlusFourMult"@ != "Lucky Horseshoe"@) by {
        assert("PlusFourMult"@.len() == 12 && "Lucky Horseshoe"@.len() == 15);
    }
    assert("TimesTwoMult"@ != "Power Glove"@) by {
        assert("TimesTwoMult"@.len() == 12 && "Power Glove"@.len() == 11);
    }
    assert("TimesTwoMult"@ != "Lucky Horseshoe"@) by {
        assert("TimesTwoMult"@.len() == 12 && "Lucky Horseshoe"@.len() == 15);
    }
    assert("TimesTwoMult"@ != "PlusFourMult"@) by {
        assert("TimesTwoMult"@[0] == 'T' && "PlusFourMult"@[0] == 'P');
    }
    assert(spec_hand_scored_effect("PlusFourMult"@, played_len, rank) == RelicEffect::AddMult(4));
    assert(spec_hand_scored_effect("TimesTwoMult"@, played_len, rank) == RelicEffect::XMult(200));

    assert(hand_hooks_upto(ab, played_len, rank, cm, 0) == cm);
    let a1 = hand_hooks_upto(ab, played_len, rank, cm, 1);
    assert(a1 == apply_effect(cm, spec_hand_scored_effect(ab[0], played_len, rank)));
    assert(a1 == (chips as int, mult + 4));
    let a2 = hand_hooks_upto(ab, played_len, rank, cm, 2);
    assert(a2 == apply_effect(a1, spec_hand_scored_effect(ab[1], played_len, rank)));
    assert(cap_mul(mult + 4, 200) == (mult + 4) * 200);
    assert((mult + 4) * 200 == 100 * ((mult + 4) * 2));
    vstd::arithmetic::div_mod::lemma_div_multiples_vanish((mult + 4) * 2, 100);
    assert(a2 == (chips as int, (mult + 4) * 2));

    assert(hand_hooks_upto(ba, played_len, rank, cm, 0) == cm);
    let b1 = hand_hooks_upto(ba, played_len, rank, cm, 1);
    assert(b1 == apply_effect(cm, spec_hand_scored_effect(ba[0], played_len, rank)));
    assert(cap_mul(mult as int, 200) == mult * 200);
    assert(mult * 200 == 100 * (mult * 2));
    vstd::arithmetic::div_mod::lemma_div_multiples_vanish(mult * 2, 100);
    assert(b1 == (chips as int, mult * 2));
    let b2 = hand_hooks_upto(ba, played_len, rank, cm, 2);
    assert(b2 == apply_effect(b1, spec_hand_scored_effect(ba[1], played_len, rank)));
    assert(b2 == (chips as int, mult * 2 + 4));
}

/// Holder for the hand-scoring entry point used by the tests and tooling.
pub struct ScoreManager;

impl ScoreManager {
    /// Score one committed hand against the run state: the base category
    /// score, every relic's card hook for each played card, then every
    /// relic's hand hook, in list order throughout. The resulting pair is
    /// added onto the running chips and mult, and chips x mult onto the
    /// round and total scores. Held cards take no part: no current relic
    /// reacts to them.
    #[allow(unused_variables)]
    pub fn calculate_hand_score(
        stats: &mut BaseModifiers,
        played_cards: &[Card],
        held_cards: &[Card],
        hand_rank: HandRank,
        all_relics: &[RelicData],
    )
        requires
            played_cards@.len() <= 5,
        ensures
            ({
                let names = data_names(all_relics@);
                let cm0 = spec_base_score(hand_rank);
                let cm1 = card_hooks_upto(names, played_cards@, cm0, played_cards@.len() as int);
                let cm2 = hand_hooks_upto(
                    names,
                    played_cards@.len() as int,
                    Some(hand_rank),
                    cm1,
                    names.len() as int,
                );
                let new_chips = cap_add(old(stats).chips as int, cm2.0);
                let new_mult = cap_add(old(stats).mult as int, cm2.1);
                let gained = cap_mul(new_chips, new_mult);
                *final(stats) == (BaseModifiers {
                    chips: new_chips as u64,
                    mult: new_mult as u64,
                    total_score: cap_add(old(stats).total_score as int, gained) as u64,
                    round_score: cap_add(old(stats).round_score as int, gained) as u64,
                    ..*old(stats)
                })
            }),
    {
        let ghost names = data_names(all_relics@);
        let (base_chips, base_mult) = get_hand_base_score(hand_rank);
        let mut cur_chips = base_chips;
        let mut cur_mult = base_mult;

        let mut k: usize = 0;
        while k < played_cards.len()
            invariant
                played_cards@.len() <= 5,
                k <= played_cards@.len(),
                names == data_names(all_relics@),
                (cur_chips as int, cur_mult as int) == card_hooks_upto(
                    names,
                    played_cards@,
                    spec_base_score(hand_rank),
                    k as int,
                ),
            decreases played_cards@.len() - k,
        {
            let ghost cmk = (cur_chips as int, cur_mult as int);
            let mut j: usize = 0;
            while j < all_relics.len()
                invariant
                    k < played_cards@.len(),
                    j <= all_relics@.len(),
                    names == data_names(all_relics@),
                    (cur_chips as int, cur_mult as int) == card_hooks_one(
                        names,
                        played_cards@[k as int],
                        cmk,
                        j as int,
                    ),
                decreases all_relics@.len() - j,
            {
                let e = card_scored_effect(all_relics[j].name.as_str(), &played_cards[k]);
                let r = apply_effect_exec(cur_chips, cur_mult, e);
                cur_chips = r.0;
                cur_mult = r.1;
                j = j + 1;
            }
            k = k + 1;
        }

        let ghost cm1 = (cur_chips as int, cur_mult as int);
        let mut j: usize = 0;
        while j < all_relics.len()
            invariant
                played_cards@.len() <= 5,
                j <= all_relics@.len(),
                names == data_names(all_relics@),
                (cur_chips as int, cur_mult as int) == hand_hooks_upto(
                    names,
                    played_cards@.len() as int,
                    Some(hand_rank),
                    cm1,
                    j as int,
                ),
            decreases all_relics@.len() - j,
        {
            let e = hand_scored_effect(all_relics[j].name.as_str(), played_cards.len(), Some(
                hand_rank,
            ));
            let r = apply_effect_exec(cur_chips, cur_mult, e);
            cur_chips = r.0;
            cur_mult = r.1;
            j = j + 1;
        }

        stats.chips = sat_add(stats.chips, cur_chips);
        stats.mult = sat_add(stats.mult, cur_mult);
        let gained = sat_mul(stats.chips, stats.mult);
        stats.total_score = sat_add(stats.total_score, gained);
        stats.round_score = sat_add(stats.round_score, gained);
    }
}

} // verus!
