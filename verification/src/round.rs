use vstd::prelude::*;
use crate::arith::{cap_add, cap_mul, sat_add, sat_mul};
use crate::card::{all_wf, Card};
use crate::enemy::{Enemy, EnemyAbility};
use crate::hand::HandRank;
use crate::rng::random_below;
use crate::metrics::{bump, GameMetrics};
use crate::poker::{
    card_scores, find_max_card, get_card_chip_value, get_hand_base_score, get_hand_rank,
    spec_base_score, spec_hand_rank,
};
use crate::relic::{card_scored_effect, hand_scored_effect, relic_names};
use crate::score_manager::{
    apply_effect_exec, card_step, hand_hooks_upto, scoring_steps_upto, spec_apply_crit,
    apply_crit,
};
use crate::stats::{BaseModifiers, BossAbility, SortMode};
use crate::state::{AnimationState, GameState};

verus! {

// ---------------------------------------------------------------------------
// The table: draw pile, hand and used pile
// ---------------------------------------------------------------------------

/// The three piles a round's cards move between. Cards are only ever moved,
/// never created or destroyed, so the three lengths always sum to the full
/// card set of the round.
#[derive(Debug)]
pub struct RoundTable {
    pub deck: Vec<Card>,
    pub hand: Vec<Card>,
    pub used: Vec<Card>,
}

impl RoundTable {
    /// Total number of cards on the table.
    pub open spec fn total(self) -> int {
        self.deck@.len() + self.hand@.len() + self.used@.len() as int
    }

    /// An empty table.
    pub fn new() -> (t: RoundTable)
        ensures
            t.deck@.len() == 0 && t.hand@.len() == 0 && t.used@.len() == 0,
    {
        RoundTable { deck: Vec::new(), hand: Vec::new(), used: Vec::new() }
    }
}

// ---------------------------------------------------------------------------
// Selection
// ---------------------------------------------------------------------------

/// The selected cards of a hand, in hand order.
pub open spec fn selected(s: Seq<Card>) -> Seq<Card>
    decreases s.len(),
{
    if s.len() == 0 {
        Seq::empty()
    } else if s.last().is_selected {
        selected(s.drop_last()).push(s.last())
    } else {
        selected(s.drop_last())
    }
}

/// The cards of a hand that are not selected, in hand order.
pub open spec fn unselected(s: Seq<Card>) -> Seq<Card>
    decreases s.len(),
{
    if s.len() == 0 {
        Seq::empty()
    } else if !s.last().is_selected {
        unselected(s.drop_last()).push(s.last())
    } else {
        unselected(s.drop_last())
    }
}

/// The same cards with their selection marks cleared.
pub open spec fn cleared(s: Seq<Card>) -> Seq<Card> {
    s.map_values(|c: Card| Card { is_selected: false, ..c })
}

/// Splitting a hand into its selected and unselected parts loses no card.
pub proof fn lemma_selection_split_len(s: Seq<Card>)
    ensures
        selected(s).len() + unselected(s).len() == s.len(),
    decreases s.len(),
{
    if s.len() > 0 {
        lemma_selection_split_len(s.drop_last());
    }
}

proof fn lemma_selected_take_step(s: Seq<Card>, i: int)
    requires
        0 <= i < s.len(),
    ensures
        selected(s.take(i + 1)) == if s[i].is_selected {
            selected(s.take(i)).push(s[i])
        } else {
            selected(s.take(i))
        },
        unselected(s.take(i + 1)) == if !s[i].is_selected {
            unselected(s.take(i)).push(s[i])
        } else {
            unselected(s.take(i))
        },
{
    assert(s.take(i + 1).drop_last() =~= s.take(i));
    assert(s.take(i + 1).last() == s[i]);
}

/// Every selected card keeps the well-formedness of its hand.
pub proof fn lemma_selected_wf(s: Seq<Card>)
    requires
        all_wf(s),
    ensures
        all_wf(selected(s)),
        selected(s).len() <= s.len(),
    decreases s.len(),
{
    if s.len() > 0 {
        assert(all_wf(s.drop_last())) by {
            assert(forall|i: int|
                0 <= i < s.len() - 1 ==> s.drop_last()[i] == s[i] && #[trigger] s[i].wf());
        }
        lemma_selected_wf(s.drop_last());
    }
}

/// The selected cards of the hand, in hand order.
pub fn selected_cards(hand: &Vec<Card>) -> (sel: Vec<Card>)
    ensures
        sel@ == selected(hand@),
{
    let mut sel: Vec<Card> = Vec::new();
    let mut i: usize = 0;
    while i < hand.len()
        invariant
            i <= hand@.len(),
            sel@ == selected(hand@.take(i as int)),
        decreases hand@.len() - i,
    {
        proof {
            lemma_selected_take_step(hand@, i as int);
        }
        if hand[i].is_selected {
            sel.push(hand[i]);
        }
        i = i + 1;
    }
    proof {
        assert(hand@.take(hand@.len() as int) =~= hand@);
    }
    sel
}

/// How many cards of the hand are selected.
pub fn selected_count(hand: &Vec<Card>) -> (n: usize)
    ensures
        n == selected(hand@).len(),
{
    let sel = selected_cards(hand);
    sel.len()
}

// ---------------------------------------------------------------------------
// Selection toggling
// ---------------------------------------------------------------------------

/// The position of the first card with the given id, or -1 when absent.
pub open spec fn idx_of_id(s: Seq<Card>, id: i32) -> int
    decreases s.len(),
{
    if s.len() == 0 {
        -1
    } else if s[0].id == id {
        0
    } else {
        let r = idx_of_id(s.drop_first(), id);
        if r < 0 {
            -1
        } else {
            r + 1
        }
    }
}

proof fn lemma_idx_found(s: Seq<Card>, id: i32, i: int)
    requires
        0 <= i < s.len(),
        s[i].id == id,
        forall|j: int| 0 <= j < i ==> #[trigger] s[j].id != id,
    ensures
        idx_of_id(s, id) == i,
    decreases s.len(),
{
    if i == 0 {
    } else {
        assert(s[0].id != id);
        lemma_idx_found(s.drop_first(), id, i - 1);
    }
}

proof fn lemma_idx_none(s: Seq<Card>, id: i32)
    requires
        forall|j: int| 0 <= j < s.len() ==> #[trigger] s[j].id != id,
    ensures
        idx_of_id(s, id) == -1,
    decreases s.len(),
{
    if s.len() > 0 {
        lemma_idx_none(s.drop_first(), id);
    }
}

/// Toggle the selection mark of the card with the given id. Selecting a
/// sixth card is refused; deselecting is always allowed; an unknown id is
/// ignored. Returns whether anything changed.
pub fn toggle_card_selection(hand: &mut Vec<Card>, card_id: i32) -> (changed: bool)
    ensures
        ({
            let i = idx_of_id(old(hand)@, card_id);
            if i < 0 {
                !changed && final(hand)@ == old(hand)@
            } else if old(hand)@[i].is_selected {
                changed && final(hand)@ == old(hand)@.update(
                    i,
                    Card { is_selected: false, ..old(hand)@[i] },
                )
            } else if selected(old(hand)@).len() < 5 {
                changed && final(hand)@ == old(hand)@.update(
                    i,
                    Card { is_selected: true, ..old(hand)@[i] },
                )
            } else {
                !changed && final(hand)@ == old(hand)@
            }
        }),
{
    let n = selected_count(hand);
    let mut i: usize = 0;
    while i < hand.len()
        invariant
            i <= hand@.len(),
            hand@ == old(hand)@,
            n == selected(hand@).len(),
            forall|j: int| 0 <= j < i ==> #[trigger] hand@[j].id != card_id,
        decreases hand@.len() - i,
    {
        if hand[i].id == card_id {
            proof {
                lemma_idx_found(hand@, card_id, i as int);
            }
            let mut c = hand[i];
            if c.is_selected {
                c.is_selected = false;
                hand.set(i, c);
                return true;
            } else if n < 5 {
                c.is_selected = true;
                hand.set(i, c);
                return true;
            } else {
                return false;
            }
        }
        i = i + 1;
    }
    proof {
        lemma_idx_none(hand@, card_id);
    }
    false
}

// ---------------------------------------------------------------------------
// Sorting the hand
// ---------------------------------------------------------------------------

/// Whether `a` may stand before `b` under the given sort mode: by value
/// descending then suit ascending, or by suit ascending then value
/// descending.
pub open spec fn card_le(mode: SortMode, a: Card, b: Card) -> bool {
    match mode {
        SortMode::Rank => a.value > b.value || (a.value == b.value && a.suit <= b.suit),
        SortMode::Suit => a.suit < b.suit || (a.suit == b.suit && a.value >= b.value),
    }
}

/// Whether `a` may stand before `b` under the given sort mode.
pub fn card_le_exec(mode: SortMode, a: &Card, b: &Card) -> (r: bool)
    ensures
        r == card_le(mode, *a, *b),
{
    match mode {
        SortMode::Rank => a.value > b.value || (a.value == b.value && a.suit <= b.suit),
        SortMode::Suit => a.suit < b.suit || (a.suit == b.suit && a.value >= b.value),
    }
}

/// Insert a card into a sorted sequence, after any card it ties with.
pub open spec fn insert_card(mode: SortMode, s: Seq<Card>, c: Card) -> Seq<Card>
    decreases s.len(),
{
    if s.len() == 0 {
        seq![c]
    } else if card_le(mode, s.last(), c) {
        s.push(c)
    } else {
        insert_card(mode, s.drop_last(), c).push(s.last())
    }
}

/// Stable insertion sort of a hand under the given sort mode.
pub open spec fn sort_cards(mode: SortMode, s: Seq<Card>) -> Seq<Card>
    decreases s.len(),
{
    if s.len() == 0 {
        Seq::empty()
    } else {
        insert_card(mode, sort_cards(mode, s.drop_last()), s.last())
    }
}

/// Two cards always compare one way or the other under either mode.
pub proof fn lemma_card_le_total(mode: SortMode, a: Card, b: Card)
    ensures
        card_le(mode, a, b) || card_le(mode, b, a),
{
}

/// Consecutive cards all stand in order under the mode.
pub open spec fn sorted_by(mode: SortMode, s: Seq<Card>) -> bool {
    forall|i: int| 0 <= i < s.len() - 1 ==> card_le(mode, #[trigger] s[i], s[i + 1])
}

proof fn lemma_insert_card_last(mode: SortMode, s: Seq<Card>, c: Card)
    ensures
        insert_card(mode, s, c).last() == c || (s.len() > 0 && insert_card(mode, s, c).last()
            == s.last()),
{
}

/// Inserting into an ordered hand keeps it ordered.
pub proof fn lemma_insert_card_sorted(mode: SortMode, s: Seq<Card>, c: Card)
    requires
        sorted_by(mode, s),
    ensures
        sorted_by(mode, insert_card(mode, s, c)),
    decreases s.len(),
{
    if s.len() == 0 {
    } else if card_le(mode, s.last(), c) {
        let r = s.push(c);
        assert forall|i: int| 0 <= i < r.len() - 1 implies card_le(mode, #[trigger] r[i], r[i + 1]) by {
            if i < s.len() - 1 {
                assert(card_le(mode, s[i], s[i + 1]));
            }
        }
    } else {
        let s1 = s.drop_last();
        assert(sorted_by(mode, s1)) by {
            assert(forall|i: int|
                0 <= i < s1.len() - 1 ==> s1[i] == s[i] && s1[i + 1] == s[i + 1] && card_le(
                    mode,
                    #[trigger] s[i],
                    s[i + 1],
                ));
        }
        lemma_insert_card_sorted(mode, s1, c);
        lemma_insert_card_last(mode, s1, c);
        lemma_card_le_total(mode, s.last(), c);
        lemma_insert_card_len(mode, s1, c);
        let t = insert_card(mode, s1, c);
        let r = t.push(s.last());
        assert(card_le(mode, t.last(), s.last())) by {
            if t.last() == c {
            } else {
                assert(s1.len() > 0 && t.last() == s1.last());
                assert(s1.last() == s[s.len() - 2] && s.last() == s[s.len() - 1]);
                assert(card_le(mode, s[s.len() - 2], s[s.len() - 1]));
            }
        }
        assert forall|i: int| 0 <= i < r.len() - 1 implies card_le(mode, #[trigger] r[i], r[i + 1]) by {
            if i < t.len() - 1 {
                assert(r[i] == t[i] && r[i + 1] == t[i + 1]);
                assert(card_le(mode, t[i], t[i + 1]));
            } else {
                assert(r[i] == t.last() && r[i + 1] == s.last());
            }
        }
    }
}

/// Sorting orders the hand.
pub proof fn lemma_sort_cards_sorted(mode: SortMode, s: Seq<Card>)
    ensures
        sorted_by(mode, sort_cards(mode, s)),
    decreases s.len(),
{
    if s.len() > 0 {
        lemma_sort_cards_sorted(mode, s.drop_last());
        lemma_insert_card_sorted(mode, sort_cards(mode, s.drop_last()), s.last());
    }
}

/// Inserting adds exactly the card to the hand's multiset.
pub proof fn lemma_insert_card_multiset(mode: SortMode, s: Seq<Card>, c: Card)
    ensures
        insert_card(mode, s, c).to_multiset() == s.to_multiset().insert(c),
    decreases s.len(),
{
    broadcast use vstd::seq_lib::group_to_multiset_ensures;

    if s.len() == 0 {
        assert(insert_card(mode, s, c) =~= s.push(c));
    } else if card_le(mode, s.last(), c) {
    } else {
        let s1 = s.drop_last();
        lemma_insert_card_multiset(mode, s1, c);
        assert(s =~= s1.push(s.last()));
        assert(insert_card(mode, s, c).to_multiset() =~= s1.to_multiset().insert(c).insert(
            s.last(),
        ));
        assert(s.to_multiset().insert(c) =~= s1.to_multiset().insert(s.last()).insert(c));
        assert(s1.to_multiset().insert(c).insert(s.last()) =~= s1.to_multiset().insert(
            s.last(),
        ).insert(c));
    }
}

/// Sorting permutes the hand: no card appears or disappears.
pub proof fn lemma_sort_cards_multiset(mode: SortMode, s: Seq<Card>)
    ensures
        sort_cards(mode, s).to_multiset() == s.to_multiset(),
    decreases s.len(),
{
    broadcast use vstd::seq_lib::group_to_multiset_ensures;

    if s.len() > 0 {
        let s1 = s.drop_last();
        lemma_sort_cards_multiset(mode, s1);
        lemma_insert_card_multiset(mode, sort_cards(mode, s1), s.last());
        assert(s =~= s1.push(s.last()));
    }
}

/// Inserting adds exactly one card.
pub proof fn lemma_insert_card_len(mode: SortMode, s: Seq<Card>, c: Card)
    ensures
        insert_card(mode, s, c).len() == s.len() + 1,
    decreases s.len(),
{
    if s.len() > 0 && !card_le(mode, s.last(), c) {
        lemma_insert_card_len(mode, s.drop_last(), c);
    }
}

/// Sorting keeps every card: the length is unchanged.
pub proof fn lemma_sort_cards_len(mode: SortMode, s: Seq<Card>)
    ensures
        sort_cards(mode, s).len() == s.len(),
    decreases s.len(),
{
    if s.len() > 0 {
        lemma_sort_cards_len(mode, s.drop_last());
        lemma_insert_card_len(mode, sort_cards(mode, s.drop_last()), s.last());
    }
}

proof fn lemma_insert_card_at(mode: SortMode, s: Seq<Card>, c: Card, j: int)
    requires
        0 <= j <= s.len(),
        forall|k: int| j <= k < s.len() ==> !card_le(mode, #[trigger] s[k], c),
        j > 0 ==> card_le(mode, s[j - 1], c),
    ensures
        insert_card(mode, s, c) == s.take(j).push(c) + s.skip(j),
    decreases s.len(),
{
    if s.len() == 0 {
        assert(insert_card(mode, s, c) =~= s.take(0).push(c) + s.skip(0));
    } else if j == s.len() {
        assert(card_le(mode, s.last(), c));
        assert(s.push(c) =~= s.take(j).push(c) + s.skip(j));
    } else {
        assert(!card_le(mode, s.last(), c));
        let s1 = s.drop_last();
        assert(forall|k: int| j <= k < s1.len() ==> !card_le(mode, #[trigger] s1[k], c));
        if j > 0 {
            assert(s1[j - 1] == s[j - 1]);
        }
        lemma_insert_card_at(mode, s1, c, j);
        assert(insert_card(mode, s1, c).push(s.last()) =~= s.take(j).push(c) + s.skip(j));
    }
}

/// Insert one card into an already sorted hand, keeping ties stable.
fn insert_sorted(out: &mut Vec<Card>, mode: SortMode, c: Card)
    ensures
        final(out)@ == insert_card(mode, old(out)@, c),
{
    let mut j: usize = out.len();
    while j > 0
        invariant
            j <= out@.len(),
            out@ == old(out)@,
            forall|k: int| j <= k < out@.len() ==> !card_le(mode, #[trigger] out@[k], c),
        ensures
            j <= out@.len(),
            out@ == old(out)@,
            forall|k: int| j <= k < out@.len() ==> !card_le(mode, #[trigger] out@[k], c),
            j == 0 || card_le(mode, out@[j - 1], c),
        decreases j,
    {
        if card_le_exec(mode, &out[j - 1], &c) {
            break ;
        }
        j = j - 1;
    }
    proof {
        lemma_insert_card_at(mode, out@, c, j as int);
    }
    let ghost pre = out@;
    out.insert(j, c);
    proof {
        assert(out@ =~= pre.take(j as int).push(c) + pre.skip(j as int));
    }
}

/// Sort the hand under the given mode; ties keep their relative order,
/// the result is ordered, and no card appears or disappears.
pub fn sort_hand(hand: &mut Vec<Card>, mode: SortMode)
    ensures
        final(hand)@ == sort_cards(mode, old(hand)@),
        final(hand)@.len() == old(hand)@.len(),
        sorted_by(mode, final(hand)@),
        final(hand)@.to_multiset() == old(hand)@.to_multiset(),
{
    proof {
        lemma_sort_cards_sorted(mode, hand@);
        lemma_sort_cards_multiset(mode, hand@);
    }
    let mut out: Vec<Card> = Vec::new();
    let mut i: usize = 0;
    while i < hand.len()
        invariant
            i <= hand@.len(),
            hand@ == old(hand)@,
            out@ == sort_cards(mode, hand@.take(i as int)),
        decreases hand@.len() - i,
    {
        insert_sorted(&mut out, mode, hand[i]);
        proof {
            assert(hand@.take(i as int + 1).drop_last() =~= hand@.take(i as int));
        }
        i = i + 1;
    }
    proof {
        assert(hand@.take(hand@.len() as int) =~= hand@);
        lemma_sort_cards_len(mode, hand@);
    }
    *hand = out;
}

/// Inserting a well-formed card into a well-formed hand keeps every card
/// well-formed.
pub proof fn lemma_insert_card_wf(mode: SortMode, s: Seq<Card>, c: Card)
    requires
        all_wf(s),
        c.wf(),
    ensures
        all_wf(insert_card(mode, s, c)),
    decreases s.len(),
{
    if s.len() == 0 {
    } else if card_le(mode, s.last(), c) {
    } else {
        assert(all_wf(s.drop_last())) by {
            assert(forall|i: int|
                0 <= i < s.len() - 1 ==> s.drop_last()[i] == s[i] && #[trigger] s[i].wf());
        }
        lemma_insert_card_wf(mode, s.drop_last(), c);
    }
}

/// Sorting keeps every card well-formed.
pub proof fn lemma_sort_cards_wf(mode: SortMode, s: Seq<Card>)
    requires
        all_wf(s),
    ensures
        all_wf(sort_cards(mode, s)),
    decreases s.len(),
{
    if s.len() > 0 {
        assert(all_wf(s.drop_last())) by {
            assert(forall|i: int|
                0 <= i < s.len() - 1 ==> s.drop_last()[i] == s[i] && #[trigger] s[i].wf());
        }
        lemma_sort_cards_wf(mode, s.drop_last());
        lemma_insert_card_wf(mode, sort_cards(mode, s.drop_last()), s.last());
    }
}

// ---------------------------------------------------------------------------
// Committing a play
// ---------------------------------------------------------------------------

/// Commit the current selection as a play. Accepted only while idle, with
/// a hand remaining and 1 to 5 cards selected; a failed guard leaves every
/// value unchanged. On success one hand is spent at once, the selection's
/// category is frozen, the base category score seeds the running pair, and
/// the scoring sequence begins.
pub fn commit_play(stats: &mut BaseModifiers, table: &RoundTable, anim: &mut AnimationState) -> (accepted:
    bool)
    ensures
        ({
            let sel = selected(table.hand@);
            let ok = *old(anim) == AnimationState::Idle && old(stats).hands_remaining > 0 && 1
                <= sel.len() <= 5;
            &&& accepted == ok
            &&& !ok ==> *final(stats) == *old(stats) && *final(anim) == *old(anim)
            &&& ok ==> {
                let rank = spec_hand_rank(sel, old(stats).active_ability);
                &&& *final(anim) == AnimationState::ScoringSeq
                &&& *final(stats) == (BaseModifiers {
                    hands_remaining: (old(stats).hands_remaining - 1) as u32,
                    hand_rank: Some(rank),
                    chips: spec_base_score(rank).0 as u64,
                    mult: spec_base_score(rank).1 as u64,
                    score_index: 0,
                    is_crit_active: false,
                    ..*old(stats)
                })
            }
        }),
{
    let sel = selected_cards(&table.hand);
    let is_idle = *anim == AnimationState::Idle;
    if !(is_idle && stats.hands_remaining > 0 && sel.len() >= 1 && sel.len() <= 5) {
        return false;
    }
    let rank = get_hand_rank(sel.as_slice(), &*stats);
    let (base_chips, base_mult) = get_hand_base_score(rank);
    stats.hands_remaining = stats.hands_remaining - 1;
    stats.hand_rank = Some(rank);
    stats.chips = base_chips;
    stats.mult = base_mult;
    stats.score_index = 0;
    stats.is_crit_active = false;
    *anim = AnimationState::ScoringSeq;
    true
}

// ---------------------------------------------------------------------------
// The scoring sequence
// ---------------------------------------------------------------------------

/// Reveal the next card of the committed play: when it is a scoring card
/// its chip value is added and every relic's card hook runs for it in
/// equip order; once every card has been revealed the tally phase begins.
pub fn scoring_step(stats: &mut BaseModifiers, table: &RoundTable, anim: &mut AnimationState)
    requires
        *old(anim) == AnimationState::ScoringSeq,
        old(stats).hand_rank is Some,
        all_wf(table.hand@),
        1 <= selected(table.hand@).len() <= 5,
    ensures
        ({
            let sel = selected(table.hand@);
            let rank = old(stats).hand_rank->Some_0;
            let names = relic_names(old(stats).equipped_relics@);
            if old(stats).score_index < sel.len() {
                let cm = card_step(
                    names,
                    sel,
                    rank,
                    (old(stats).chips as int, old(stats).mult as int),
                    old(stats).score_index as int,
                );
                &&& *final(anim) == AnimationState::ScoringSeq
                &&& *final(stats) == (BaseModifiers {
                    chips: cm.0 as u64,
                    mult: cm.1 as u64,
                    score_index: (old(stats).score_index + 1) as usize,
                    ..*old(stats)
                })
            } else {
                &&& *final(anim) == AnimationState::Scoring
                &&& *final(stats) == *old(stats)
            }
        }),
{
    proof {
        lemma_selected_wf(table.hand@);
    }
    let sel = selected_cards(&table.hand);
    if stats.score_index >= sel.len() {
        *anim = AnimationState::Scoring;
        return ;
    }
    let rank = match stats.hand_rank {
        Some(r) => r,
        None => {
            proof {
                assert(false);
            }
            HandRank::HighCard
        },
    };
    let i = stats.score_index;
    let best = find_max_card(sel.as_slice());
    if card_scores(sel.as_slice(), rank, i, best) {
        let chip = get_card_chip_value(&sel[i]);
        let mut chips = sat_add(stats.chips, chip);
        let mut mult = stats.mult;
        let ghost cmk = (chips as int, mult as int);
        let ghost names = relic_names(stats.equipped_relics@);
        let n = stats.equipped_relics.len();
        let mut j: usize = 0;
        while j < n
            invariant
                j <= n,
                n == stats.equipped_relics@.len(),
                i < sel@.len(),
                *stats == *old(stats),
                sel@ == selected(table.hand@),
                names == relic_names(stats.equipped_relics@),
                (chips as int, mult as int) == crate::score_manager::card_hooks_one(
                    names,
                    sel@[i as int],
                    cmk,
                    j as int,
                ),
            decreases n - j,
        {
            let e = card_scored_effect(stats.equipped_relics[j].data.name.as_str(), &sel[i]);
            let r = apply_effect_exec(chips, mult, e);
            chips = r.0;
            mult = r.1;
            j = j + 1;
        }
        stats.chips = chips;
        stats.mult = mult;
    }
    stats.score_index = i + 1;
}

/// Run the whole scoring sequence in one call: the per-card pacing is a
/// presentation concern and collapsing it does not change the result.
pub fn run_scoring_sequence(stats: &mut BaseModifiers, table: &RoundTable, anim: &mut AnimationState)
    requires
        *old(anim) == AnimationState::ScoringSeq,
        old(stats).hand_rank is Some,
        old(stats).score_index == 0,
        all_wf(table.hand@),
        1 <= selected(table.hand@).len() <= 5,
    ensures
        ({
            let sel = selected(table.hand@);
            let rank = old(stats).hand_rank->Some_0;
            let names = relic_names(old(stats).equipped_relics@);
            let cm = scoring_steps_upto(
                names,
                sel,
                rank,
                (old(stats).chips as int, old(stats).mult as int),
                sel.len() as int,
            );
            &&& *final(anim) == AnimationState::Scoring
            &&& *final(stats) == (BaseModifiers {
                chips: cm.0 as u64,
                mult: cm.1 as u64,
                score_index: sel.len() as usize,
                ..*old(stats)
            })
        }),
{
    proof {
        lemma_selected_wf(table.hand@);
    }
    let ghost sel = selected(table.hand@);
    let ghost names = relic_names(old(stats).equipped_relics@);
    let ghost rank = old(stats).hand_rank->Some_0;
    let ghost cm0 = (old(stats).chips as int, old(stats).mult as int);
    while *anim == AnimationState::ScoringSeq
        invariant
            all_wf(table.hand@),
            all_wf(sel),
            1 <= sel.len() <= 5,
            sel == selected(table.hand@),
            names == relic_names(old(stats).equipped_relics@),
            rank == old(stats).hand_rank->Some_0,
            cm0 == (old(stats).chips as int, old(stats).mult as int),
            old(stats).hand_rank is Some,
            *anim == AnimationState::ScoringSeq || *anim == AnimationState::Scoring,
            *anim == AnimationState::ScoringSeq ==> {
                &&& stats.score_index <= sel.len()
                &&& *stats == (BaseModifiers {
                    chips: scoring_steps_upto(names, sel, rank, cm0, stats.score_index as int).0
                        as u64,
                    mult: scoring_steps_upto(names, sel, rank, cm0, stats.score_index as int).1
                        as u64,
                    score_index: stats.score_index,
                    ..*old(stats)
                })
            },
            *anim == AnimationState::Scoring ==> *stats == (BaseModifiers {
                chips: scoring_steps_upto(names, sel, rank, cm0, sel.len() as int).0 as u64,
                mult: scoring_steps_upto(names, sel, rank, cm0, sel.len() as int).1 as u64,
                score_index: sel.len() as usize,
                ..*old(stats)
            }),
        decreases 2 * (sel.len() - stats.score_index) + (if *anim == AnimationState::ScoringSeq {
            1int
        } else {
            0int
        }),
    {
        proof {
            crate::score_manager::lemma_scoring_steps_in_u64(
                names,
                sel,
                rank,
                cm0,
                stats.score_index as int,
            );
        }
        scoring_step(stats, table, anim);
    }
}

// ---------------------------------------------------------------------------
// The tally
// ---------------------------------------------------------------------------

/// Move every selected card of the hand to the used pile, clearing the
/// selection marks; no card is created or lost.
fn move_selected_to_used(table: &mut RoundTable)
    ensures
        final(table).hand@ == unselected(old(table).hand@),
        final(table).used@ == old(table).used@ + cleared(selected(old(table).hand@)),
        final(table).deck@ == old(table).deck@,
        final(table).total() == old(table).total(),
{
    let ghost hand0 = table.hand@;
    let mut kept: Vec<Card> = Vec::new();
    let mut i: usize = 0;
    while i < table.hand.len()
        invariant
            i <= hand0.len(),
            table.hand@ == hand0,
            table.deck@ == old(table).deck@,
            kept@ == unselected(hand0.take(i as int)),
            table.used@ == old(table).used@ + cleared(selected(hand0.take(i as int))),
        decreases hand0.len() - i,
    {
        proof {
            lemma_selected_take_step(hand0, i as int);
        }
        let mut c = table.hand[i];
        if c.is_selected {
            c.is_selected = false;
            table.used.push(c);
            proof {
                assert(cleared(selected(hand0.take(i as int + 1))) =~= cleared(
                    selected(hand0.take(i as int)),
                ).push(Card { is_selected: false, ..hand0[i as int] }));
                assert(table.used@ =~= old(table).used@ + cleared(
                    selected(hand0.take(i as int + 1)),
                ));
            }
        } else {
            kept.push(c);
        }
        i = i + 1;
    }
    proof {
        assert(hand0.take(hand0.len() as int) =~= hand0);
        lemma_selection_split_len(hand0);
    }
    table.hand = kept;
}

/// Tally the committed play: every relic's hand hook runs once in equip
/// order, the total chips x mult is taken, the supplied roll decides the
/// critical scaling as one final, separate multiplication, the total is
/// banked, and the played cards go to the used pile. The round is then
/// decided: the win check comes first, so reaching the target wins even
/// with no hands left; otherwise exhausted hands lose; otherwise the hand
/// is dealt back up.
pub fn tally(
    stats: &mut BaseModifiers,
    table: &mut RoundTable,
    anim: &mut AnimationState,
    state: &mut GameState,
    crit_roll: u32,
)
    requires
        *old(anim) == AnimationState::Scoring,
        old(stats).hand_rank is Some,
        selected(old(table).hand@).len() <= 5,
    ensures
        ({
            let sel = selected(old(table).hand@);
            let rank = old(stats).hand_rank->Some_0;
            let names = relic_names(old(stats).equipped_relics@);
            let cm = hand_hooks_upto(
                names,
                sel.len() as int,
                Some(rank),
                (old(stats).chips as int, old(stats).mult as int),
                names.len() as int,
            );
            let base_total = cap_mul(cm.0, cm.1);
            let crit = crit_roll < old(stats).crit_chance_pct;
            let total = spec_apply_crit(
                base_total,
                crit_roll,
                old(stats).crit_chance_pct,
                old(stats).crit_mult_pct,
            );
            let new_round_score = cap_add(old(stats).round_score as int, total);
            let won = new_round_score >= old(stats).target_score;
            let lost = !won && old(stats).hands_remaining == 0;
            &&& final(table).hand@ == unselected(old(table).hand@)
            &&& final(table).used@ == old(table).used@ + cleared(sel)
            &&& final(table).deck@ == old(table).deck@
            &&& final(table).total() == old(table).total()
            &&& *final(stats) == (BaseModifiers {
                chips: cm.0 as u64,
                mult: cm.1 as u64,
                round_score: new_round_score as u64,
                total_score: cap_add(old(stats).total_score as int, total) as u64,
                is_crit_active: crit,
                round_won: old(stats).round_won || won,
                game_metrics: GameMetrics {
                    hands_played: bump(old(stats).game_metrics.hands_played),
                    ..old(stats).game_metrics
                },
                ..*old(stats)
            })
            &&& *final(state) == (if won {
                GameState::BattleResult
            } else if lost {
                GameState::GameOver
            } else {
                *old(state)
            })
            &&& *final(anim) == (if won || lost {
                AnimationState::Idle
            } else {
                AnimationState::Dealing
            })
        }),
{
    let sel = selected_cards(&table.hand);
    let rank = match stats.hand_rank {
        Some(r) => r,
        None => {
            proof {
                assert(false);
            }
            HandRank::HighCard
        },
    };
    let mut chips = stats.chips;
    let mut mult = stats.mult;
    let ghost names = relic_names(stats.equipped_relics@);
    let ghost cm0 = (chips as int, mult as int);
    let n = stats.equipped_relics.len();
    let mut j: usize = 0;
    while j < n
        invariant
            j <= n,
            n == stats.equipped_relics@.len(),
            *stats == *old(stats),
            sel@ == selected(table.hand@),
            table.hand@ == old(table).hand@,
            sel@.len() <= 5,
            Some(rank) == stats.hand_rank,
            names == relic_names(stats.equipped_relics@),
            cm0 == (old(stats).chips as int, old(stats).mult as int),
            (chips as int, mult as int) == hand_hooks_upto(
                names,
                sel@.len() as int,
                Some(rank),
                cm0,
                j as int,
            ),
        decreases n - j,
    {
        let e = hand_scored_effect(stats.equipped_relics[j].data.name.as_str(), sel.len(), Some(
            rank,
        ));
        let r = apply_effect_exec(chips, mult, e);
        chips = r.0;
        mult = r.1;
        j = j + 1;
    }
    stats.chips = chips;
    stats.mult = mult;
    let base_total = sat_mul(chips, mult);
    let crit = crit_roll < stats.crit_chance_pct;
    stats.is_crit_active = crit;
    let total = apply_crit(base_total, crit_roll, stats.crit_chance_pct, stats.crit_mult_pct);
    stats.round_score = sat_add(stats.round_score, total);
    stats.total_score = sat_add(stats.total_score, total);
    stats.game_metrics.log_play(total);
    move_selected_to_used(table);
    if stats.round_score >= stats.target_score {
        stats.round_won = true;
        *state = GameState::BattleResult;
        *anim = AnimationState::Idle;
    } else if stats.hands_remaining == 0 {
        *state = GameState::GameOver;
        *anim = AnimationState::Idle;
    } else {
        *anim = AnimationState::Dealing;
    }
}

// ---------------------------------------------------------------------------
// Discarding
// ---------------------------------------------------------------------------

/// What one discard costs while the boss charges for them.
pub const PAY_TO_DISCARD_COST: u32 = 1;

/// Commit the current selection as a discard. Accepted only while idle,
/// with a discard remaining, 1 to 5 cards selected and, while the boss
/// charges for discards, enough money, which the discard then costs; a
/// failed guard leaves every value unchanged. The selected cards go to the
/// used pile and the hand is then dealt back up.
pub fn commit_discard(stats: &mut BaseModifiers, table: &mut RoundTable, anim: &mut AnimationState) -> (accepted:
    bool)
    ensures
        ({
            let sel = selected(old(table).hand@);
            let pays = old(stats).active_ability == BossAbility::PayToDiscard;
            let ok = *old(anim) == AnimationState::Idle && old(stats).discards_remaining > 0 && 1
                <= sel.len() <= 5 && (!pays || old(stats).money >= PAY_TO_DISCARD_COST);
            &&& accepted == ok
            &&& !ok ==> *final(stats) == *old(stats) && *final(anim) == *old(anim) && *final(table)
                == *old(table)
            &&& ok ==> {
                &&& final(table).hand@ == unselected(old(table).hand@)
                &&& final(table).used@ == old(table).used@ + cleared(sel)
                &&& final(table).deck@ == old(table).deck@
                &&& final(table).total() == old(table).total()
                &&& *final(stats) == (BaseModifiers {
                    discards_remaining: (old(stats).discards_remaining - 1) as u32,
                    money: if pays {
                        (old(stats).money - PAY_TO_DISCARD_COST) as u32
                    } else {
                        old(stats).money
                    },
                    game_metrics: GameMetrics {
                        discards_used: bump(old(stats).game_metrics.discards_used),
                        ..old(stats).game_metrics
                    },
                    ..*old(stats)
                })
                &&& *final(anim) == AnimationState::Dealing
            }
        }),
{
    let sel_count = selected_count(&table.hand);
    let pays = stats.active_ability == BossAbility::PayToDiscard;
    let is_idle = *anim == AnimationState::Idle;
    if !(is_idle && stats.discards_remaining > 0 && sel_count >= 1 && sel_count <= 5 && (!pays
        || stats.money >= PAY_TO_DISCARD_COST)) {
        return false;
    }
    stats.discards_remaining = stats.discards_remaining - 1;
    if pays {
        stats.money = stats.money - PAY_TO_DISCARD_COST;
    }
    stats.game_metrics.log_discard(sel_count);
    move_selected_to_used(table);
    *anim = AnimationState::Dealing;
    true
}

// ---------------------------------------------------------------------------
// Refilling the hand
// ---------------------------------------------------------------------------

/// The refill target: the configured hand size, shrunk by one while the
/// boss imposes it.
pub open spec fn effective_hand_size(s: BaseModifiers) -> int {
    if s.active_ability == BossAbility::HandSizeMinusOne {
        if s.hand_size > 0 {
            s.hand_size - 1
        } else {
            0
        }
    } else {
        s.hand_size as int
    }
}

/// The first `k` cards drawn when popping from the deck's end, in draw
/// order.
pub open spec fn drawn_upto(deck: Seq<Card>, k: int) -> Seq<Card>
    decreases k,
{
    if k <= 0 {
        Seq::empty()
    } else {
        drawn_upto(deck, k - 1).push(deck[deck.len() - k])
    }
}

/// Drawing `k` cards yields `k` cards.
pub proof fn lemma_drawn_upto_len(deck: Seq<Card>, k: int)
    requires
        0 <= k <= deck.len(),
    ensures
        drawn_upto(deck, k).len() == k,
    decreases k,
{
    if k > 0 {
        lemma_drawn_upto_len(deck, k - 1);
    }
}

/// Cards drawn from a well-formed deck are well-formed.
pub proof fn lemma_drawn_upto_wf(deck: Seq<Card>, k: int)
    requires
        0 <= k <= deck.len(),
        all_wf(deck),
    ensures
        all_wf(drawn_upto(deck, k)),
    decreases k,
{
    if k > 0 {
        lemma_drawn_upto_wf(deck, k - 1);
        lemma_drawn_upto_len(deck, k);
        lemma_drawn_upto_len(deck, k - 1);
        assert(deck[deck.len() - k].wf());
    }
}

/// How many cards a refill draws: up to the effective hand size, never
/// more than the deck holds.
pub open spec fn draw_count(s: BaseModifiers, t: RoundTable) -> int {
    let want = effective_hand_size(s) - t.hand@.len();
    if want <= 0 {
        0
    } else if want <= t.deck@.len() {
        want
    } else {
        t.deck@.len() as int
    }
}

/// Deal from the deck until the hand reaches the effective hand size or
/// the deck runs out -- a short hand is never an error -- then sort the
/// hand under the current sort mode and return to the idle phase.
pub fn refill_hand(stats: &BaseModifiers, table: &mut RoundTable, anim: &mut AnimationState)
    ensures
        ({
            let k = draw_count(*stats, *old(table));
            &&& final(table).deck@ == old(table).deck@.take(old(table).deck@.len() - k)
            &&& final(table).hand@ == sort_cards(
                stats.current_sort,
                old(table).hand@ + drawn_upto(old(table).deck@, k),
            )
            &&& final(table).used@ == old(table).used@
            &&& final(table).total() == old(table).total()
            &&& final(table).hand@.len() == old(table).hand@.len() + k
            &&& sorted_by(stats.current_sort, final(table).hand@)
            &&& *final(anim) == AnimationState::Idle
        }),
{
    let eff: u32 = match stats.active_ability {
        BossAbility::HandSizeMinusOne => {
            if stats.hand_size > 0 {
                stats.hand_size - 1
            } else {
                0
            }
        },
        _ => stats.hand_size,
    };
    let ghost deck0 = table.deck@;
    let ghost hand0 = table.hand@;
    let ghost k = draw_count(*stats, *table);
    let mut drawn: usize = 0;
    while table.hand.len() < (eff as usize) && table.deck.len() > 0
        invariant
            eff == effective_hand_size(*stats),
            table.used@ == old(table).used@,
            deck0 == old(table).deck@,
            hand0 == old(table).hand@,
            drawn <= deck0.len(),
            table.deck@ == deck0.take(deck0.len() - drawn),
            table.hand@ == hand0 + drawn_upto(deck0, drawn as int),
            table.hand@.len() == hand0.len() + drawn,
            drawn == 0 || hand0.len() + drawn <= eff,
        decreases table.deck@.len(),
    {
        proof {
            lemma_drawn_upto_len(deck0, drawn as int);
        }
        let c = match table.deck.pop() {
            Some(c) => c,
            None => {
                proof {
                    assert(false);
                }
                Card { id: 0, suit: 0, value: 0, is_selected: false }
            },
        };
        table.hand.push(c);
        drawn = drawn + 1;
        proof {
            assert(table.deck@ =~= deck0.take(deck0.len() - drawn as int));
            assert(deck0.take(deck0.len() - (drawn - 1) as int).last() == deck0[deck0.len()
                - drawn as int]);
            assert(table.hand@ =~= hand0 + drawn_upto(deck0, drawn as int));
            lemma_drawn_upto_len(deck0, drawn as int);
        }
    }
    proof {
        assert(drawn == k);
    }
    sort_hand(&mut table.hand, stats.current_sort);
    *anim = AnimationState::Idle;
}

// ---------------------------------------------------------------------------
// Starting a round
// ---------------------------------------------------------------------------

/// A fresh, unshuffled 52-card deck: ids run 0..52 in order, each suit's
/// thirteen values from 2 to the high Ace.
pub fn build_deck() -> (deck: Vec<Card>)
    ensures
        deck@.len() == 52,
        forall|i: int|
            0 <= i < 52 ==> #[trigger] deck@[i] == (Card {
                id: i as i32,
                suit: (i / 13) as i32,
                value: (2 + i % 13) as i32,
                is_selected: false,
            }),
        all_wf(deck@),
{
    let mut deck: Vec<Card> = Vec::new();
    let mut n: usize = 0;
    while n < 52
        invariant
            n <= 52,
            deck@.len() == n,
            forall|i: int|
                0 <= i < n ==> #[trigger] deck@[i] == (Card {
                    id: i as i32,
                    suit: (i / 13) as i32,
                    value: (2 + i % 13) as i32,
                    is_selected: false,
                }),
        decreases 52 - n,
    {
        let card = Card {
            id: n as i32,
            suit: (n / 13) as i32,
            value: (2 + n % 13) as i32,
            is_selected: false,
        };
        deck.push(card);
        n = n + 1;
    }
    proof {
        assert forall|i: int| 0 <= i < 52 implies #[trigger] deck@[i].wf() by {
            assert(0 <= i / 13 < 4 && 0 <= i % 13 < 13);
        }
    }
    deck
}

/// Whether a rune of the given name is equipped.
pub open spec fn spec_has_rune(runes: Seq<crate::stats::Rune>, name: Seq<char>) -> bool {
    exists|i: int| 0 <= i < runes.len() && #[trigger] runes[i].name@ == name
}

/// Whether a rune of the given name is equipped.
pub fn has_rune(runes: &Vec<crate::stats::Rune>, name: &str) -> (r: bool)
    ensures
        r == spec_has_rune(runes@, name@),
{
    let mut i: usize = 0;
    while i < runes.len()
        invariant
            i <= runes@.len(),
            forall|j: int| 0 <= j < i ==> #[trigger] runes@[j].name@ != name@,
        decreases runes@.len() - i,
    {
        if crate::text::str_eq(runes[i].name.as_str(), name) {
            return true;
        }
        i = i + 1;
    }
    false
}

/// The weighted boss-ability table over a twenty-sided roll: rolls 0-9
/// give no ability, 10-13 silence the rolled suit, 14-15 shrink the hand,
/// 16-17 double the target, 18-19 charge for discards.
pub open spec fn spec_ability_from_roll(roll: u32, suit: u32) -> BossAbility {
    if roll < 10 {
        BossAbility::NoAbility
    } else if roll < 14 {
        BossAbility::SilenceSuit(suit as i32)
    } else if roll < 16 {
        BossAbility::HandSizeMinusOne
    } else if roll < 18 {
        BossAbility::DoubleTarget
    } else {
        BossAbility::PayToDiscard
    }
}

/// Map a twenty-sided roll and a suit roll to the round's boss ability.
pub fn ability_from_roll(roll: u32, suit: u32) -> (a: BossAbility)
    ensures
        a == spec_ability_from_roll(roll, suit),
{
    if roll < 10 {
        BossAbility::NoAbility
    } else if roll < 14 {
        BossAbility::SilenceSuit(suit as i32)
    } else if roll < 16 {
        BossAbility::HandSizeMinusOne
    } else if roll < 18 {
        BossAbility::DoubleTarget
    } else {
        BossAbility::PayToDiscard
    }
}

/// The deterministic part of a round start: counters stepped, resources
/// reset to their starting values with the persistent passives re-applied,
/// and the scoring accumulators cleared. The rest of the run state is
/// kept.
pub open spec fn round_reset(s0: BaseModifiers, s1: BaseModifiers) -> bool {
    let new_round = s0.round.saturating_add(1);
    let greed = spec_has_rune(s0.equipped_runes@, "Greed"@);
    &&& s1.round == new_round
    &&& s1.ante == (if new_round % 8 == 1 {
        s0.ante.saturating_add(1)
    } else {
        s0.ante
    })
    &&& s1.current_hp == s0.max_hp && s1.max_hp == s0.max_hp
    &&& s1.hands_remaining == (if greed {
        5u32
    } else {
        4u32
    })
    &&& s1.discards_remaining == (if greed {
        6u32
    } else {
        5u32
    })
    &&& s1.round_score == 0 && s1.chips == 0 && s1.mult == 0
    &&& s1.hand_rank is None && !s1.is_crit_active && s1.score_index == 0 && !s1.round_won
    &&& s1.money == s0.money && s1.total_score == s0.total_score
    &&& s1.level == s0.level && s1.xp == s0.xp && s1.xp_target == s0.xp_target
    &&& s1.stat_points == s0.stat_points && s1.enemies_defeated == s0.enemies_defeated
    &&& s1.interest_cap == s0.interest_cap && s1.hand_size == s0.hand_size
    &&& s1.crit_chance_pct == s0.crit_chance_pct && s1.crit_mult_pct == s0.crit_mult_pct
    &&& s1.consumables == s0.consumables && s1.heirlooms == s0.heirlooms
    &&& s1.equipped_relics == s0.equipped_relics && s1.current_shop_relics
        == s0.current_shop_relics
    &&& s1.equipped_runes == s0.equipped_runes && s1.available_runes == s0.available_runes
    &&& s1.enemy_database == s0.enemy_database && s1.all_relics == s0.all_relics
    &&& s1.all_consumables == s0.all_consumables && s1.all_heirlooms == s0.all_heirlooms
    &&& s1.previous_state == s0.previous_state && s1.current_sort == s0.current_sort
    &&& s1.shop_price_pct == s0.shop_price_pct && s1.ante_scaling_pct == s0.ante_scaling_pct
    &&& s1.game_metrics == s0.game_metrics
}

/// What holds of the enemy drawn at index `i`: the target grows by the
/// ante-scaling percentage and never falls below the drawn enemy's hit
/// points, then doubles under `DoubleTarget`; the enemy's damage is taken
/// from its innate effect, with 10 as the default.
pub open spec fn enemy_rolled(s0: BaseModifiers, s1: BaseModifiers, i: int) -> bool {
    let db = s0.enemy_database@;
    let scaled = cap_mul(s0.target_score as int, s0.ante_scaling_pct as int) / 100;
    let floor = if db[i].hp > 0 {
        db[i].hp as int
    } else {
        0
    };
    let base = if floor > scaled {
        floor
    } else {
        scaled
    };
    &&& 0 <= i < db.len()
    &&& s1.current_enemy matches Some(e) && e.id@ == db[i].id@ && e.name@ == db[i].name@ && e.hp
        == db[i].hp && e.ability == db[i].ability
    &&& s1.enemy_name@ == db[i].name@
    &&& s1.enemy_damage == (match db[i].ability {
        EnemyAbility::DealDamage { damage } => damage,
        _ => 10,
    })
    &&& s1.target_score == (if s1.active_ability == BossAbility::DoubleTarget {
        cap_mul(base, 2)
    } else {
        base
    })
    &&& (s1.active_ability matches BossAbility::SilenceSuit(x) ==> 0 <= x < 4)
}

/// Start the next round: step the round and ante counters, restore hit
/// points, reset the per-round resources with the persistent passives
/// re-applied, scale the target score, roll the next enemy and its boss
/// ability, rebuild and shuffle the full 52-card deck, and deal the
/// opening hand.
pub fn start_next_round(stats: &mut BaseModifiers, table: &mut RoundTable)
    requires
        old(stats).enemy_database@.len() <= u32::MAX,
    ensures
        round_reset(*old(stats), *final(stats)),
        old(stats).enemy_database@.len() == 0 ==> {
            &&& final(stats).active_ability == BossAbility::NoAbility
            &&& final(stats).current_enemy == old(stats).current_enemy
            &&& final(stats).enemy_name == old(stats).enemy_name
            &&& final(stats).enemy_damage == old(stats).enemy_damage
            &&& final(stats).target_score == cap_mul(
                old(stats).target_score as int,
                old(stats).ante_scaling_pct as int,
            ) / 100
        },
        old(stats).enemy_database@.len() > 0 ==> exists|i: int|
            enemy_rolled(*old(stats), *final(stats), i),
        final(table).total() == 52,
        final(table).used@.len() == 0,
        all_wf(final(table).deck@),
        all_wf(final(table).hand@),
        ({
            let eff = effective_hand_size(*final(stats));
            final(table).hand@.len() == (if eff <= 52 {
                eff
            } else {
                52
            })
        }),
{
    stats.round = stats.round.saturating_add(1);
    if stats.round % 8 == 1 {
        stats.ante = stats.ante.saturating_add(1);
    }
    stats.current_hp = stats.max_hp;
    let greed = has_rune(&stats.equipped_runes, "Greed");
    stats.hands_remaining = if greed {
        5
    } else {
        4
    };
    stats.discards_remaining = if greed {
        6
    } else {
        5
    };
    stats.round_score = 0;
    stats.chips = 0;
    stats.mult = 0;
    stats.hand_rank = None;
    stats.is_crit_active = false;
    stats.score_index = 0;
    stats.round_won = false;

    let mut target = sat_mul(stats.target_score, stats.ante_scaling_pct as u64) / 100;
    if stats.enemy_database.len() > 0 {
        let i = random_below(stats.enemy_database.len() as u32) as usize;
        let picked = &stats.enemy_database[i];
        let enemy = Enemy {
            id: picked.id.clone(),
            name: picked.name.clone(),
            hp: picked.hp,
            ability: picked.ability,
        };
        if enemy.hp > 0 && (enemy.hp as u64) > target {
            target = enemy.hp as u64;
        }
        stats.enemy_damage = match enemy.ability {
            EnemyAbility::DealDamage { damage } => damage,
            _ => 10,
        };
        stats.enemy_name = enemy.name.clone();
        stats.current_enemy = Some(enemy);
        let roll = random_below(20);
        let suit = random_below(4);
        stats.active_ability = ability_from_roll(roll, suit);
        if stats.active_ability == BossAbility::DoubleTarget {
            target = sat_mul(target, 2);
        }
        stats.target_score = target;
        proof {
            assert(enemy_rolled(*old(stats), *stats, i as int));
        }
    } else {
        stats.active_ability = BossAbility::NoAbility;
        stats.target_score = target;
    }

    table.deck = build_deck();
    let ghost fresh = table.deck@;
    table.hand = Vec::new();
    table.used = Vec::new();
    crate::rng::shuffle_cards(&mut table.deck);
    proof {
        assert forall|i: int| 0 <= i < table.deck@.len() implies #[trigger] table.deck@[i].wf() by {
            let j = choose|j: int| 0 <= j < fresh.len() && #[trigger] table.deck@[i] == fresh[j];
            assert(fresh[j].wf());
        }
    }
    let ghost shuffled = table.deck@;
    let ghost empty_hand = table.hand@;
    let ghost k = draw_count(*stats, *table);
    let mut deal = AnimationState::Dealing;
    refill_hand(&*stats, table, &mut deal);
    proof {
        assert(0 <= k <= shuffled.len());
        lemma_drawn_upto_wf(shuffled, k);
        lemma_drawn_upto_len(shuffled, k);
        assert(empty_hand + drawn_upto(shuffled, k) =~= drawn_upto(shuffled, k));
        lemma_sort_cards_wf(stats.current_sort, drawn_upto(shuffled, k));
    }
}

} // verus!
