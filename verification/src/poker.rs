use vstd::prelude::*;
use crate::arith::{cap_add, cap_mul, sat_add, sat_mul};
use crate::card::{all_wf, Card};
use crate::hand::HandRank;
use crate::stats::{BaseModifiers, BossAbility};
use crate::text::str_eq;

verus! {

// ---------------------------------------------------------------------------
// Rank and suit histograms
// ---------------------------------------------------------------------------

/// Number of cards in `s` whose value is `v`.
pub open spec fn count_val(s: Seq<Card>, v: int) -> nat
    decreases s.len(),
{
    if s.len() == 0 {
        0
    } else {
        count_val(s.drop_last(), v) + (if s.last().value == v {
            1nat
        } else {
            0nat
        })
    }
}

/// Number of cards in `s` whose suit is `t`.
pub open spec fn count_suit(s: Seq<Card>, t: int) -> nat
    decreases s.len(),
{
    if s.len() == 0 {
        0
    } else {
        count_suit(s.drop_last(), t) + (if s.last().suit == t {
            1nat
        } else {
            0nat
        })
    }
}

/// Some card in `s` has value `v`.
pub open spec fn has_val(s: Seq<Card>, v: int) -> bool {
    count_val(s, v) > 0
}

/// Number of card values in `v..15` that occur exactly `c` times in `s`.
pub open spec fn vals_with_count_from(s: Seq<Card>, c: nat, v: int) -> nat
    decreases 15 - v,
{
    if v >= 15 {
        0
    } else {
        (if count_val(s, v) == c {
            1nat
        } else {
            0nat
        }) + vals_with_count_from(s, c, v + 1)
    }
}

/// Number of distinct values forming a pair.
pub open spec fn pairs_count(s: Seq<Card>) -> nat {
    vals_with_count_from(s, 2, 2)
}

/// Number of distinct values forming a three of a kind.
pub open spec fn threes_count(s: Seq<Card>) -> nat {
    vals_with_count_from(s, 3, 2)
}

/// Number of distinct values forming a four of a kind.
pub open spec fn fours_count(s: Seq<Card>) -> nat {
    vals_with_count_from(s, 4, 2)
}

proof fn lemma_count_take_step(s: Seq<Card>, v: int, i: int)
    requires
        0 <= i < s.len(),
    ensures
        count_val(s.take(i + 1), v) == count_val(s.take(i), v) + (if s[i].value == v {
            1int
        } else {
            0int
        }),
        count_suit(s.take(i + 1), v) == count_suit(s.take(i), v) + (if s[i].suit == v {
            1int
        } else {
            0int
        }),
{
    assert(s.take(i + 1).drop_last() =~= s.take(i));
    assert(s.take(i + 1).last() == s[i]);
}

/// Count the cards of `hand` with value `v`.
pub fn count_value(hand: &[Card], v: i32) -> (n: usize)
    ensures
        n == count_val(hand@, v as int),
        n <= hand@.len(),
{
    let mut n: usize = 0;
    let mut i: usize = 0;
    while i < hand.len()
        invariant
            i <= hand@.len(),
            n == count_val(hand@.take(i as int), v as int),
            n <= i,
        decreases hand@.len() - i,
    {
        proof {
            lemma_count_take_step(hand@, v as int, i as int);
        }
        if hand[i].value == v {
            n = n + 1;
        }
        i = i + 1;
    }
    proof {
        assert(hand@.take(hand@.len() as int) =~= hand@);
    }
    n
}

/// Count the cards of `hand` with suit `t`.
pub fn count_of_suit(hand: &[Card], t: i32) -> (n: usize)
    ensures
        n == count_suit(hand@, t as int),
        n <= hand@.len(),
{
    let mut n: usize = 0;
    let mut i: usize = 0;
    while i < hand.len()
        invariant
            i <= hand@.len(),
            n == count_suit(hand@.take(i as int), t as int),
            n <= i,
        decreases hand@.len() - i,
    {
        proof {
            lemma_count_take_step(hand@, t as int, i as int);
        }
        if hand[i].suit == t {
            n = n + 1;
        }
        i = i + 1;
    }
    proof {
        assert(hand@.take(hand@.len() as int) =~= hand@);
    }
    n
}

/// Whether some card of `hand` has value `v`.
pub fn has_value(hand: &[Card], v: i32) -> (r: bool)
    ensures
        r == has_val(hand@, v as int),
{
    count_value(hand, v) > 0
}

/// The pair, triple and quad counts of the rank histogram of `hand`.
pub fn get_counts(hand: &[Card]) -> (r: (usize, usize, usize))
    ensures
        r.0 == pairs_count(hand@),
        r.1 == threes_count(hand@),
        r.2 == fours_count(hand@),
{
    let mut pairs: usize = 0;
    let mut threes: usize = 0;
    let mut fours: usize = 0;
    let mut v: i32 = 14;
    while v >= 2
        invariant
            1 <= v <= 14,
            pairs == vals_with_count_from(hand@, 2, v + 1),
            threes == vals_with_count_from(hand@, 3, v + 1),
            fours == vals_with_count_from(hand@, 4, v + 1),
            pairs <= 14 - v && threes <= 14 - v && fours <= 14 - v,
        decreases v,
    {
        let c = count_value(hand, v);
        if c == 2 {
            pairs = pairs + 1;
        }
        if c == 3 {
            threes = threes + 1;
        }
        if c == 4 {
            fours = fours + 1;
        }
        v = v - 1;
    }
    (pairs, threes, fours)
}

// ---------------------------------------------------------------------------
// Flush and straight detection
// ---------------------------------------------------------------------------

/// All cards share the first card's suit and at least five are selected.
pub open spec fn spec_is_flush(s: Seq<Card>) -> bool {
    s.len() >= 5 && (forall|i: int| 0 <= i < s.len() ==> #[trigger] s[i].suit == s[0].suit)
}

/// Whether `hand` is a flush.
pub fn is_flush(hand: &[Card]) -> (r: bool)
    ensures
        r == spec_is_flush(hand@),
{
    if hand.len() < 5 {
        return false;
    }
    let first_suit = hand[0].suit;
    let mut i: usize = 0;
    while i < hand.len()
        invariant
            i <= hand@.len(),
            hand@.len() >= 5,
            first_suit == hand@[0].suit,
            forall|j: int| 0 <= j < i ==> #[trigger] hand@[j].suit == hand@[0].suit,
        decreases hand@.len() - i,
    {
        if hand[i].suit != first_suit {
            return false;
        }
        i = i + 1;
    }
    true
}

/// The five consecutive values `lo..lo+5` are all present in `s`.
pub open spec fn straight_at(s: Seq<Card>, lo: int) -> bool {
    &&& has_val(s, lo)
    &&& has_val(s, lo + 1)
    &&& has_val(s, lo + 2)
    &&& has_val(s, lo + 3)
    &&& has_val(s, lo + 4)
}

/// The wheel: Ace counted low beneath 2, 3, 4 and 5.
pub open spec fn wheel(s: Seq<Card>) -> bool {
    &&& has_val(s, 14)
    &&& has_val(s, 2)
    &&& has_val(s, 3)
    &&& has_val(s, 4)
    &&& has_val(s, 5)
}

/// Five distinct consecutive values are present, with the Ace usable high
/// or low.
pub open spec fn spec_is_straight(s: Seq<Card>) -> bool {
    (exists|lo: int| 2 <= lo <= 10 && straight_at(s, lo)) || wheel(s)
}

/// Whether `hand` contains a straight.
pub fn is_straight(hand: &[Card]) -> (r: bool)
    ensures
        r == spec_is_straight(hand@),
{
    let mut lo: i32 = 2;
    while lo <= 10
        invariant
            2 <= lo <= 11,
            forall|l: int| 2 <= l < lo ==> !straight_at(hand@, l),
        decreases 11 - lo,
    {
        if has_value(hand, lo) && has_value(hand, lo + 1) && has_value(hand, lo + 2)
            && has_value(hand, lo + 3) && has_value(hand, lo + 4) {
            assert(straight_at(hand@, lo as int));
            return true;
        }
        lo = lo + 1;
    }
    if has_value(hand, 14) && has_value(hand, 2) && has_value(hand, 3) && has_value(hand, 4)
        && has_value(hand, 5) {
        return true;
    }
    false
}

// ---------------------------------------------------------------------------
// Classification
// ---------------------------------------------------------------------------

/// The base chips and multiplier granted by each hand category.
pub open spec fn spec_base_score(rank: HandRank) -> (int, int) {
    match rank {
        HandRank::HighCard => (5, 1),
        HandRank::Pair => (10, 2),
        HandRank::TwoPair => (20, 2),
        HandRank::ThreeOfAKind => (30, 3),
        HandRank::Straight => (30, 4),
        HandRank::Flush => (35, 4),
        HandRank::FullHouse => (40, 4),
        HandRank::FourOfAKind => (60, 7),
        HandRank::StraightFlush => (100, 8),
    }
}

/// The fixed base-score table, keyed by hand category.
pub fn get_hand_base_score(rank: HandRank) -> (r: (u64, u64))
    ensures
        r.0 == spec_base_score(rank).0,
        r.1 == spec_base_score(rank).1,
{
    match rank {
        HandRank::HighCard => (5, 1),
        HandRank::Pair => (10, 2),
        HandRank::TwoPair => (20, 2),
        HandRank::ThreeOfAKind => (30, 3),
        HandRank::Straight => (30, 4),
        HandRank::Flush => (35, 4),
        HandRank::FullHouse => (40, 4),
        HandRank::FourOfAKind => (60, 7),
        HandRank::StraightFlush => (100, 8),
    }
}

/// Chip value a card contributes when it scores: face cards give 10, the
/// Ace 11, numerals their face value.
pub open spec fn spec_chip_value(v: int) -> int {
    if v == 14 {
        11
    } else if 11 <= v <= 13 {
        10
    } else {
        v
    }
}

/// The chip value of one scoring card.
pub fn get_card_chip_value(card: &Card) -> (r: u64)
    requires
        card.wf(),
    ensures
        r == spec_chip_value(card.value as int),
{
    if card.value == 14 {
        11
    } else if card.value >= 11 {
        10
    } else {
        card.value as u64
    }
}

/// The boss silences the suit the selection leads with.
pub open spec fn silenced(s: Seq<Card>, ab: BossAbility) -> bool {
    &&& ab matches BossAbility::SilenceSuit(x)
    &&& s.len() > 0
    &&& s[0].suit == x
}

/// The classification tree over the derived hand features, in precedence
/// order: straight flush, four of a kind, full house, flush, straight,
/// three of a kind, two pair, pair, high card.
pub open spec fn classify(
    flush: bool,
    straight: bool,
    pairs: nat,
    threes: nat,
    fours: nat,
) -> HandRank {
    if straight && flush {
        HandRank::StraightFlush
    } else if fours == 1 {
        HandRank::FourOfAKind
    } else if threes == 1 && pairs == 1 {
        HandRank::FullHouse
    } else if flush {
        HandRank::Flush
    } else if straight {
        HandRank::Straight
    } else if threes == 1 {
        HandRank::ThreeOfAKind
    } else if pairs == 2 {
        HandRank::TwoPair
    } else if pairs == 1 {
        HandRank::Pair
    } else {
        HandRank::HighCard
    }
}

/// The category of a selection under the active boss ability: the
/// classification tree, with the flush suppressed when its suit is
/// silenced.
pub open spec fn spec_hand_rank(s: Seq<Card>, ab: BossAbility) -> HandRank {
    classify(
        spec_is_flush(s) && !silenced(s, ab),
        spec_is_straight(s),
        pairs_count(s),
        threes_count(s),
        fours_count(s),
    )
}

/// Classify the selection, honouring the active boss ability.
pub fn get_hand_rank(hand: &[Card], stats: &BaseModifiers) -> (r: HandRank)
    ensures
        r == spec_hand_rank(hand@, stats.active_ability),
{
    let flush = is_flush(hand);
    let straight = is_straight(hand);
    let (pairs, threes, fours) = get_counts(hand);

    let flush_allowed: bool = if flush {
        match stats.active_ability {
            BossAbility::SilenceSuit(x) => hand[0].suit != x,
            _ => true,
        }
    } else {
        false
    };

    if straight && flush_allowed {
        return HandRank::StraightFlush;
    }
    if fours == 1 {
        return HandRank::FourOfAKind;
    }
    if threes == 1 && pairs == 1 {
        return HandRank::FullHouse;
    }
    if flush_allowed {
        return HandRank::Flush;
    }
    if straight {
        return HandRank::Straight;
    }
    if threes == 1 {
        return HandRank::ThreeOfAKind;
    }
    if pairs == 2 {
        return HandRank::TwoPair;
    }
    if pairs == 1 {
        return HandRank::Pair;
    }
    HandRank::HighCard
}

// ---------------------------------------------------------------------------
// The rank histogram sums to the hand size
// ---------------------------------------------------------------------------

/// Total of the value counts over `v..15`.
pub open spec fn sum_counts(s: Seq<Card>, v: int) -> nat
    decreases 15 - v,
{
    if v >= 15 {
        0
    } else {
        count_val(s, v) + sum_counts(s, v + 1)
    }
}

proof fn lemma_sum_counts_empty(s: Seq<Card>, v: int)
    requires
        s.len() == 0,
    ensures
        sum_counts(s, v) == 0,
    decreases 15 - v,
{
    if v < 15 {
        lemma_sum_counts_empty(s, v + 1);
    }
}

proof fn lemma_sum_counts_drop(s: Seq<Card>, v: int)
    requires
        s.len() > 0,
    ensures
        sum_counts(s, v) == sum_counts(s.drop_last(), v) + (if v <= s.last().value < 15 {
            1int
        } else {
            0int
        }),
    decreases 15 - v,
{
    if v < 15 {
        lemma_sum_counts_drop(s, v + 1);
    }
}

/// Every well-formed card counts once: the histogram sums to the hand
/// size.
pub proof fn lemma_sum_counts_len(s: Seq<Card>)
    requires
        all_wf(s),
    ensures
        sum_counts(s, 2) == s.len(),
    decreases s.len(),
{
    if s.len() == 0 {
        lemma_sum_counts_empty(s, 2);
    } else {
        assert(all_wf(s.drop_last())) by {
            assert(forall|i: int|
                0 <= i < s.len() - 1 ==> s.drop_last()[i] == s[i] && #[trigger] s[i].wf());
        }
        lemma_sum_counts_len(s.drop_last());
        lemma_sum_counts_drop(s, 2);
        assert(s[s.len() - 1].wf());
    }
}

proof fn lemma_sum_extract(s: Seq<Card>, v: int, m: int)
    requires
        v <= m < 15,
    ensures
        sum_counts(s, v) >= count_val(s, m) + sum_counts(s, m + 1),
    decreases m - v,
{
    if v < m {
        lemma_sum_extract(s, v + 1, m);
    }
}

/// Total of the counts of the listed values.
pub open spec fn counts_sum(s: Seq<Card>, vals: Seq<int>) -> nat
    decreases vals.len(),
{
    if vals.len() == 0 {
        0
    } else {
        count_val(s, vals[0]) + counts_sum(s, vals.drop_first())
    }
}

proof fn lemma_sum_distinct(s: Seq<Card>, vals: Seq<int>, v: int)
    requires
        forall|i: int| 0 <= i < vals.len() ==> v <= #[trigger] vals[i] < 15,
        forall|i: int, j: int| #![trigger vals[i], vals[j]] 0 <= i < j < vals.len() ==> vals[i] < vals[j],
    ensures
        sum_counts(s, v) >= counts_sum(s, vals),
    decreases vals.len(),
{
    if vals.len() > 0 {
        lemma_sum_extract(s, v, vals[0]);
        let rest = vals.drop_first();
        assert(forall|i: int| 0 <= i < rest.len() ==> vals[0] + 1 <= #[trigger] rest[i] < 15);
        lemma_sum_distinct(s, rest, vals[0] + 1);
    }
}

proof fn lemma_sum_with_extra(s: Seq<Card>, vals: Seq<int>, v: int, u: int)
    requires
        forall|i: int| 0 <= i < vals.len() ==> v <= #[trigger] vals[i] < 15,
        forall|i: int, j: int| #![trigger vals[i], vals[j]] 0 <= i < j < vals.len() ==> vals[i] < vals[j],
        v <= u < 15,
        forall|i: int| 0 <= i < vals.len() ==> #[trigger] vals[i] != u,
    ensures
        sum_counts(s, v) >= counts_sum(s, vals) + count_val(s, u),
    decreases vals.len(),
{
    if vals.len() == 0 {
        lemma_sum_extract(s, v, u);
    } else if u < vals[0] {
        lemma_sum_extract(s, v, u);
        let rest = vals;
        assert(forall|i: int| 0 <= i < rest.len() ==> u + 1 <= #[trigger] rest[i] < 15);
        lemma_sum_distinct(s, rest, u + 1);
    } else {
        lemma_sum_extract(s, v, vals[0]);
        let rest = vals.drop_first();
        assert(forall|i: int| 0 <= i < rest.len() ==> vals[0] + 1 <= #[trigger] rest[i] < 15);
        lemma_sum_with_extra(s, rest, vals[0] + 1, u);
    }
}

proof fn lemma_counts_sum_five(s: Seq<Card>, a: int, b: int, c: int, d: int, e: int)
    ensures
        counts_sum(s, seq![a, b, c, d, e]) == count_val(s, a) + count_val(s, b) + count_val(s, c)
            + count_val(s, d) + count_val(s, e),
{
    let v4 = seq![e];
    let v3 = seq![d, e];
    let v2 = seq![c, d, e];
    let v1 = seq![b, c, d, e];
    let v0 = seq![a, b, c, d, e];
    assert(v0.drop_first() =~= v1);
    assert(v1.drop_first() =~= v2);
    assert(v2.drop_first() =~= v3);
    assert(v3.drop_first() =~= v4);
    assert(v4.drop_first() =~= Seq::<int>::empty());
    assert(counts_sum(s, Seq::<int>::empty()) == 0);
    assert(counts_sum(s, v4) == count_val(s, e) + counts_sum(s, v4.drop_first()));
    assert(counts_sum(s, v3) == count_val(s, d) + counts_sum(s, v3.drop_first()));
    assert(counts_sum(s, v2) == count_val(s, c) + counts_sum(s, v2.drop_first()));
    assert(counts_sum(s, v1) == count_val(s, b) + counts_sum(s, v1.drop_first()));
    assert(counts_sum(s, v0) == count_val(s, a) + counts_sum(s, v0.drop_first()));
}

proof fn lemma_vals_with_count_zero(s: Seq<Card>, c: nat, v: int)
    requires
        forall|u: int| v <= u < 15 ==> count_val(s, u) != c,
    ensures
        vals_with_count_from(s, c, v) == 0,
    decreases 15 - v,
{
    if v < 15 {
        lemma_vals_with_count_zero(s, c, v + 1);
    }
}

/// A five-card straight pins the histogram: its five distinct values occur
/// once each and nothing else occurs at all, so there is no pair, triple
/// or quad beside it.
pub proof fn lemma_straight_has_no_groups(s: Seq<Card>)
    requires
        all_wf(s),
        s.len() == 5,
        spec_is_straight(s),
    ensures
        pairs_count(s) == 0,
        threes_count(s) == 0,
        fours_count(s) == 0,
{
    let vals: Seq<int> = if exists|lo: int| 2 <= lo <= 10 && straight_at(s, lo) {
        let lo = choose|lo: int| 2 <= lo <= 10 && straight_at(s, lo);
        seq![lo, lo + 1, lo + 2, lo + 3, lo + 4]
    } else {
        seq![2, 3, 4, 5, 14]
    };
    assert(counts_sum(s, vals) >= 5) by {
        if exists|lo: int| 2 <= lo <= 10 && straight_at(s, lo) {
            let lo = choose|lo: int| 2 <= lo <= 10 && straight_at(s, lo);
            lemma_counts_sum_five(s, lo, lo + 1, lo + 2, lo + 3, lo + 4);
        } else {
            lemma_counts_sum_five(s, 2, 3, 4, 5, 14);
        }
    }
    lemma_sum_counts_len(s);
    assert forall|u: int| 2 <= u < 15 implies count_val(s, u) <= 1 by {
        if count_val(s, u) >= 2 {
            if exists|i: int| 0 <= i < vals.len() && vals[i] == u {
                // The doubled value is one of the straight's five: the
                // other four still count at least once each.
                if exists|lo: int| 2 <= lo <= 10 && straight_at(s, lo) {
                    let lo = choose|lo: int| 2 <= lo <= 10 && straight_at(s, lo);
                    lemma_counts_sum_five(s, lo, lo + 1, lo + 2, lo + 3, lo + 4);
                } else {
                    lemma_counts_sum_five(s, 2, 3, 4, 5, 14);
                }
                lemma_sum_distinct(s, vals, 2);
                assert(false);
            } else {
                assert(forall|i: int| 0 <= i < vals.len() ==> #[trigger] vals[i] != u);
                lemma_sum_with_extra(s, vals, 2, u);
                assert(false);
            }
        }
    }
    lemma_vals_with_count_zero(s, 2, 2);
    lemma_vals_with_count_zero(s, 3, 2);
    lemma_vals_with_count_zero(s, 4, 2);
}

// ---------------------------------------------------------------------------
// Classification laws
// ---------------------------------------------------------------------------

/// Counting a value sees only the cards' values.
pub proof fn lemma_count_val_values(s1: Seq<Card>, s2: Seq<Card>, v: int)
    requires
        s1.len() == s2.len(),
        forall|i: int| #![trigger s1[i], s2[i]] 0 <= i < s1.len() ==> s1[i].value == s2[i].value,
    ensures
        count_val(s1, v) == count_val(s2, v),
    decreases s1.len(),
{
    if s1.len() > 0 {
        assert(forall|i: int|
            #![trigger s1.drop_last()[i], s2.drop_last()[i]]
            0 <= i < s1.len() - 1 ==> s1.drop_last()[i] == s1[i] && s2.drop_last()[i] == s2[i]);
        lemma_count_val_values(s1.drop_last(), s2.drop_last(), v);
    }
}

/// Straightness sees only the cards' values.
pub proof fn lemma_straight_values(s1: Seq<Card>, s2: Seq<Card>)
    requires
        s1.len() == s2.len(),
        forall|i: int| #![trigger s1[i], s2[i]] 0 <= i < s1.len() ==> s1[i].value == s2[i].value,
    ensures
        spec_is_straight(s1) == spec_is_straight(s2),
{
    assert forall|v: int| #[trigger] count_val(s1, v) == count_val(s2, v) by {
        lemma_count_val_values(s1, s2, v);
    }
    assert forall|l: int| #[trigger] straight_at(s1, l) == straight_at(s2, l) by {
        assert(count_val(s1, l) == count_val(s2, l));
        assert(count_val(s1, l + 1) == count_val(s2, l + 1));
        assert(count_val(s1, l + 2) == count_val(s2, l + 2));
        assert(count_val(s1, l + 3) == count_val(s2, l + 3));
        assert(count_val(s1, l + 4) == count_val(s2, l + 4));
    }
    if exists|lo: int| 2 <= lo <= 10 && straight_at(s1, lo) {
        let lo = choose|lo: int| 2 <= lo <= 10 && straight_at(s1, lo);
        assert(straight_at(s2, lo));
    }
    if exists|lo: int| 2 <= lo <= 10 && straight_at(s2, lo) {
        let lo = choose|lo: int| 2 <= lo <= 10 && straight_at(s2, lo);
        assert(straight_at(s1, lo));
    }
}

/// The pair, triple and quad counts see only the cards' values.
pub proof fn lemma_groups_values(s1: Seq<Card>, s2: Seq<Card>, c: nat, v: int)
    requires
        s1.len() == s2.len(),
        forall|i: int| #![trigger s1[i], s2[i]] 0 <= i < s1.len() ==> s1[i].value == s2[i].value,
    ensures
        vals_with_count_from(s1, c, v) == vals_with_count_from(s2, c, v),
    decreases 15 - v,
{
    if v < 15 {
        lemma_count_val_values(s1, s2, v);
        lemma_groups_values(s1, s2, c, v + 1);
    }
}

/// Silence suppression: when the boss silences the suit the selection
/// leads with, the hand is classified with its flush turned off, so it is
/// never Flush nor StraightFlush -- it falls to the next applicable
/// category rather than erroring.
pub proof fn lemma_silence_suppression(s: Seq<Card>, x: i32)
    requires
        s.len() > 0,
        s[0].suit == x,
    ensures
        spec_hand_rank(s, BossAbility::SilenceSuit(x)) == classify(
            false,
            spec_is_straight(s),
            pairs_count(s),
            threes_count(s),
            fours_count(s),
        ),
        spec_hand_rank(s, BossAbility::SilenceSuit(x)) != HandRank::Flush,
        spec_hand_rank(s, BossAbility::SilenceSuit(x)) != HandRank::StraightFlush,
{
}

/// A straight flush strictly outranks what the same cards become when a
/// card's suit change breaks the flush: the five straight values are still
/// there, the histogram still holds no pair, triple or quad, and without
/// suit uniformity the classification lands exactly on Straight -- which
/// the straight flush beats.
pub proof fn lemma_straight_flush_beats_broken_flush(s1: Seq<Card>, s2: Seq<Card>, ab: BossAbility)
    requires
        all_wf(s1),
        s1.len() == 5,
        s2.len() == s1.len(),
        forall|i: int| #![trigger s1[i], s2[i]] 0 <= i < s1.len() ==> s1[i].value == s2[i].value,
        spec_hand_rank(s1, ab) == HandRank::StraightFlush,
        !spec_is_flush(s2),
    ensures
        spec_hand_rank(s2, ab) == HandRank::Straight,
        spec_hand_rank(s1, ab).beats(spec_hand_rank(s2, ab)),
{
    assert(spec_is_straight(s1));
    lemma_straight_has_no_groups(s1);
    lemma_straight_values(s1, s2);
    lemma_groups_values(s1, s2, 2, 2);
    lemma_groups_values(s1, s2, 3, 2);
    lemma_groups_values(s1, s2, 4, 2);
}

// ---------------------------------------------------------------------------
// Scoring-card subset
// ---------------------------------------------------------------------------

/// The greatest card value present in `s`.
pub open spec fn max_val(s: Seq<Card>) -> int
    decreases s.len(),
{
    if s.len() == 0 {
        0
    } else if s.len() == 1 {
        s[0].value as int
    } else {
        let m = max_val(s.drop_last());
        if s.last().value >= m {
            s.last().value as int
        } else {
            m
        }
    }
}

/// The index of the highest-valued card, taking the later card on ties.
pub open spec fn max_card_idx(s: Seq<Card>) -> int
    decreases s.len(),
{
    if s.len() <= 1 {
        0
    } else {
        let i = max_card_idx(s.drop_last());
        if s.last().value >= s[i].value {
            s.len() - 1
        } else {
            i
        }
    }
}

/// Whether card `c` belongs to the scoring subset of `s` for a non-high-card
/// category `r`.
pub open spec fn scores_in(c: Card, s: Seq<Card>, r: HandRank) -> bool {
    match r {
        HandRank::StraightFlush => c.suit == s[0].suit,
        HandRank::Flush => c.suit == s[0].suit,
        HandRank::Straight => true,
        HandRank::FourOfAKind => count_val(s, c.value as int) == 4,
        HandRank::FullHouse => count_val(s, c.value as int) == 3 || count_val(s, c.value as int)
            == 2,
        HandRank::ThreeOfAKind => count_val(s, c.value as int) == 3,
        HandRank::TwoPair => count_val(s, c.value as int) == 2,
        HandRank::Pair => count_val(s, c.value as int) == 2,
        HandRank::HighCard => false,
    }
}

/// Whether the card at index `i` belongs to the scoring subset: for a high
/// card only the single highest card scores, for every other category
/// membership is decided by `scores_in`.
pub open spec fn is_scoring_card(s: Seq<Card>, r: HandRank, i: int) -> bool {
    if r == HandRank::HighCard {
        i == max_card_idx(s)
    } else {
        scores_in(s[i], s, r)
    }
}

/// The ids of the scoring cards among the first `n` cards, in hand order.
pub open spec fn scoring_ids_upto(s: Seq<Card>, r: HandRank, n: int) -> Seq<i32>
    decreases n,
{
    if n <= 0 {
        Seq::empty()
    } else if is_scoring_card(s, r, n - 1) {
        scoring_ids_upto(s, r, n - 1).push(s[n - 1].id)
    } else {
        scoring_ids_upto(s, r, n - 1)
    }
}

/// The ids of the cards that contribute to the score, in hand order.
pub open spec fn spec_scoring_ids(s: Seq<Card>, r: HandRank) -> Seq<i32> {
    scoring_ids_upto(s, r, s.len() as int)
}

/// Locate the highest-valued card, taking the later card on ties.
pub fn find_max_card(hand: &[Card]) -> (best: usize)
    requires
        hand@.len() >= 1,
    ensures
        best == max_card_idx(hand@),
        best < hand@.len(),
{
    let mut best: usize = 0;
    let mut i: usize = 1;
    while i < hand.len()
        invariant
            hand@.len() >= 1,
            i <= hand@.len(),
            1 <= i,
            best == max_card_idx(hand@.take(i as int)),
            best < i,
        decreases hand@.len() - i,
    {
        proof {
            assert(hand@.take(i as int + 1).drop_last() =~= hand@.take(i as int));
        }
        if hand[i].value >= hand[best].value {
            best = i;
        }
        i = i + 1;
    }
    proof {
        assert(hand@.take(hand@.len() as int) =~= hand@);
    }
    best
}

/// Decide whether the card at index `i` scores, given the index of the
/// highest card.
pub fn card_scores(hand: &[Card], rank: HandRank, i: usize, best: usize) -> (r: bool)
    requires
        i < hand@.len(),
        best == max_card_idx(hand@),
    ensures
        r == is_scoring_card(hand@, rank, i as int),
{
    let c = hand[i];
    match rank {
        HandRank::HighCard => i == best,
        HandRank::StraightFlush => c.suit == hand[0].suit,
        HandRank::Flush => c.suit == hand[0].suit,
        HandRank::Straight => true,
        HandRank::FourOfAKind => count_value(hand, c.value) == 4,
        HandRank::FullHouse => {
            let k = count_value(hand, c.value);
            k == 3 || k == 2
        },
        HandRank::ThreeOfAKind => count_value(hand, c.value) == 3,
        HandRank::TwoPair => count_value(hand, c.value) == 2,
        HandRank::Pair => count_value(hand, c.value) == 2,
    }
}

/// The ids of the cards of the selection that actually contribute to the
/// score, in hand order.
pub fn get_scoring_ids(hand: &[Card], stats: &BaseModifiers) -> (ids: Vec<i32>)
    requires
        1 <= hand@.len() <= 5,
    ensures
        ids@ == spec_scoring_ids(hand@, spec_hand_rank(hand@, stats.active_ability)),
{
    let rank = get_hand_rank(hand, stats);
    let best = find_max_card(hand);
    let mut ids: Vec<i32> = Vec::new();
    let mut i: usize = 0;
    while i < hand.len()
        invariant
            1 <= hand@.len() <= 5,
            i <= hand@.len(),
            best == max_card_idx(hand@),
            ids@ == scoring_ids_upto(hand@, rank, i as int),
        decreases hand@.len() - i,
    {
        if card_scores(hand, rank, i, best) {
            ids.push(hand[i].id);
        }
        i = i + 1;
    }
    ids
}

// ---------------------------------------------------------------------------
// Direct relic bonuses keyed by relic id
// ---------------------------------------------------------------------------

/// One relic's direct bonus, keyed by its id, applied to the running
/// (chips, mult) pair.
pub open spec fn bonus_step(
    id: Seq<char>,
    rank: HandRank,
    diamonds: int,
    cm: (int, int),
) -> (int, int) {
    if id == "j_joker"@ {
        (cm.0, cap_add(cm.1, 4))
    } else if id == "j_greedy"@ {
        (cap_add(cm.0, 10 * diamonds), cm.1)
    } else if id == "j_duo"@ {
        if rank == HandRank::Pair {
            (cm.0, cap_mul(cm.1, 2))
        } else {
            cm
        }
    } else if id == "j_trio"@ {
        if rank == HandRank::ThreeOfAKind {
            (cm.0, cap_mul(cm.1, 3))
        } else {
            cm
        }
    } else if id == "j_family"@ {
        if rank == HandRank::FourOfAKind {
            (cm.0, cap_mul(cm.1, 4))
        } else {
            cm
        }
    } else if id == "relic_twin_daggers"@ {
        if rank == HandRank::Pair || rank == HandRank::TwoPair {
            (cm.0, cap_add(cm.1, 1))
        } else {
            cm
        }
    } else if id == "relic_fading_torch"@ {
        (cm.0, cap_add(cm.1, 20))
    } else {
        cm
    }
}

/// The direct bonuses of the first `n` equipped relics, composed in equip
/// order.
pub open spec fn bonuses_upto(
    ids: Seq<Seq<char>>,
    rank: HandRank,
    diamonds: int,
    cm: (int, int),
    n: int,
) -> (int, int)
    decreases n,
{
    if n <= 0 {
        cm
    } else {
        bonus_step(ids[n - 1], rank, diamonds, bonuses_upto(ids, rank, diamonds, cm, n - 1))
    }
}

/// The ids of the equipped relics, in equip order.
pub open spec fn relic_ids(rs: Seq<crate::relic::GameRelic>) -> Seq<Seq<char>> {
    rs.map_values(|r: crate::relic::GameRelic| r.data.id@)
}

/// Apply each equipped relic's direct bonus, in equip order, to the running
/// chips and multiplier. Bonuses are keyed on relic ids; the diamond count
/// of the selection feeds the greed bonus.
pub fn apply_relic_bonuses(stats: &mut BaseModifiers, hand: &[Card])
    requires
        hand@.len() <= 5,
    ensures
        ({
            let rank = spec_hand_rank(hand@, old(stats).active_ability);
            let diamonds = count_suit(hand@, 1) as int;
            let cm = bonuses_upto(
                relic_ids(old(stats).equipped_relics@),
                rank,
                diamonds,
                (old(stats).chips as int, old(stats).mult as int),
                old(stats).equipped_relics@.len() as int,
            );
            *final(stats) == (BaseModifiers {
                chips: cm.0 as u64,
                mult: cm.1 as u64,
                ..*old(stats)
            })
        }),
{
    let rank = get_hand_rank(hand, stats);
    let diamonds = count_of_suit(hand, 1) as u64;

    let ghost ids = relic_ids(stats.equipped_relics@);
    let ghost cm0 = (stats.chips as int, stats.mult as int);

    let n = stats.equipped_relics.len();
    let mut i: usize = 0;
    while i < n
        invariant
            i <= n,
            n == stats.equipped_relics@.len(),
            hand@.len() <= 5,
            diamonds == count_suit(hand@, 1),
            diamonds <= 5,
            ids == relic_ids(stats.equipped_relics@),
            rank == spec_hand_rank(hand@, stats.active_ability),
            (stats.chips as int, stats.mult as int) == bonuses_upto(
                ids,
                rank,
                diamonds as int,
                cm0,
                i as int,
            ),
            *stats == (BaseModifiers { chips: stats.chips, mult: stats.mult, ..*old(stats) }),
        decreases n - i,
    {
        let ghost pre = (stats.chips as int, stats.mult as int);
        let id = &stats.equipped_relics[i].data.id;
        if str_eq(id.as_str(), "j_joker") {
            stats.mult = sat_add(stats.mult, 4);
        } else if str_eq(id.as_str(), "j_greedy") {
            if diamonds > 0 {
                stats.chips = sat_add(stats.chips, diamonds * 10);
            }
        } else if str_eq(id.as_str(), "j_duo") {
            if rank == HandRank::Pair {
                stats.mult = sat_mul(stats.mult, 2);
            }
        } else if str_eq(id.as_str(), "j_trio") {
            if rank == HandRank::ThreeOfAKind {
                stats.mult = sat_mul(stats.mult, 3);
            }
        } else if str_eq(id.as_str(), "j_family") {
            if rank == HandRank::FourOfAKind {
                stats.mult = sat_mul(stats.mult, 4);
            }
        } else if str_eq(id.as_str(), "relic_twin_daggers") {
            if rank == HandRank::Pair || rank == HandRank::TwoPair {
                stats.mult = sat_add(stats.mult, 1);
            }
        } else if str_eq(id.as_str(), "relic_fading_torch") {
            stats.mult = sat_add(stats.mult, 20);
        }
        proof {
            assert((stats.chips as int, stats.mult as int) == bonus_step(
                ids[i as int],
                rank,
                diamonds as int,
                pre,
            ));
        }
        i = i + 1;
    }
}

} // verus!
