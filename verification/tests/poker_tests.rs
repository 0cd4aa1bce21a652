use deckbattle::card::Card;
use deckbattle::hand::HandRank;
use deckbattle::poker::{
    get_card_chip_value, get_hand_base_score, get_hand_rank, get_scoring_ids,
};
use deckbattle::stats::{BaseModifiers, BossAbility};

fn card(id: i32, suit: i32, value: i32) -> Card {
    let mut c = Card::new(id);
    c.suit = suit;
    c.value = value;
    c
}

#[test]
fn wheel_straight_mixed_suits_is_straight() {
    let stats = BaseModifiers::default();
    let hand = vec![
        card(0, 0, 14),
        card(1, 1, 2),
        card(2, 2, 3),
        card(3, 3, 4),
        card(4, 0, 5),
    ];
    assert_eq!(get_hand_rank(&hand, &stats), HandRank::Straight);
}

#[test]
fn wheel_straight_one_suit_is_straight_flush() {
    let stats = BaseModifiers::default();
    let hand = vec![
        card(0, 2, 14),
        card(1, 2, 2),
        card(2, 2, 3),
        card(3, 2, 4),
        card(4, 2, 5),
    ];
    assert_eq!(get_hand_rank(&hand, &stats), HandRank::StraightFlush);
}

#[test]
fn silenced_flush_downgrades() {
    let mut stats = BaseModifiers::default();
    // Suit 0 is Hearts; silence it.
    stats.active_ability = BossAbility::SilenceSuit(0);
    let flush = vec![
        card(0, 0, 2),
        card(1, 0, 5),
        card(2, 0, 7),
        card(3, 0, 9),
        card(4, 0, 11),
    ];
    // The all-Hearts flush falls to the next applicable category.
    assert_eq!(get_hand_rank(&flush, &stats), HandRank::HighCard);

    let pair_flush = vec![
        card(0, 0, 9),
        card(1, 0, 9),
        card(2, 0, 7),
        card(3, 0, 2),
        card(4, 0, 11),
    ];
    // The evaluator is a pure function of the selection, so a synthetic
    // duplicate still classifies: the silenced flush falls to the pair.
    assert_eq!(get_hand_rank(&pair_flush, &stats), HandRank::Pair);

    // A different suit is untouched by the silence.
    let spade_flush = vec![
        card(0, 2, 2),
        card(1, 2, 5),
        card(2, 2, 7),
        card(3, 2, 9),
        card(4, 2, 11),
    ];
    assert_eq!(get_hand_rank(&spade_flush, &stats), HandRank::Flush);
}

#[test]
fn silenced_straight_flush_downgrades_to_straight() {
    let mut stats = BaseModifiers::default();
    stats.active_ability = BossAbility::SilenceSuit(1);
    let hand = vec![
        card(0, 1, 5),
        card(1, 1, 6),
        card(2, 1, 7),
        card(3, 1, 8),
        card(4, 1, 9),
    ];
    assert_eq!(get_hand_rank(&hand, &stats), HandRank::Straight);
}

#[test]
fn straight_flush_outranks_broken_flush() {
    let stats = BaseModifiers::default();
    let straight_flush = vec![
        card(0, 0, 5),
        card(1, 0, 6),
        card(2, 0, 7),
        card(3, 0, 8),
        card(4, 0, 9),
    ];
    let mut broken = straight_flush.clone();
    broken[2].suit = 3;
    let sf = get_hand_rank(&straight_flush, &stats);
    let lower = get_hand_rank(&broken, &stats);
    assert_eq!(sf, HandRank::StraightFlush);
    assert_eq!(lower, HandRank::Straight);
    assert!(sf > lower);
}

#[test]
fn rank_classification_covers_categories() {
    let stats = BaseModifiers::default();
    let pair = vec![card(0, 0, 8), card(1, 1, 8), card(2, 2, 3)];
    assert_eq!(get_hand_rank(&pair, &stats), HandRank::Pair);

    let two_pair = vec![
        card(0, 0, 8),
        card(1, 1, 8),
        card(2, 2, 3),
        card(3, 3, 3),
        card(4, 0, 12),
    ];
    assert_eq!(get_hand_rank(&two_pair, &stats), HandRank::TwoPair);

    let trips = vec![card(0, 0, 4), card(1, 1, 4), card(2, 2, 4)];
    assert_eq!(get_hand_rank(&trips, &stats), HandRank::ThreeOfAKind);

    let full_house = vec![
        card(0, 0, 4),
        card(1, 1, 4),
        card(2, 2, 4),
        card(3, 3, 9),
        card(4, 0, 9),
    ];
    assert_eq!(get_hand_rank(&full_house, &stats), HandRank::FullHouse);

    let quads = vec![
        card(0, 0, 4),
        card(1, 1, 4),
        card(2, 2, 4),
        card(3, 3, 4),
        card(4, 0, 9),
    ];
    assert_eq!(get_hand_rank(&quads, &stats), HandRank::FourOfAKind);

    let high = vec![card(0, 0, 4), card(1, 1, 7), card(2, 2, 13)];
    assert_eq!(get_hand_rank(&high, &stats), HandRank::HighCard);

    let straight = vec![
        card(0, 0, 9),
        card(1, 1, 10),
        card(2, 2, 11),
        card(3, 3, 12),
        card(4, 0, 13),
    ];
    assert_eq!(get_hand_rank(&straight, &stats), HandRank::Straight);
}

#[test]
fn fewer_than_five_cards_cannot_flush_or_straight() {
    let stats = BaseModifiers::default();
    let four_hearts = vec![card(0, 0, 2), card(1, 0, 3), card(2, 0, 4), card(3, 0, 5)];
    assert_eq!(get_hand_rank(&four_hearts, &stats), HandRank::HighCard);
}

#[test]
fn base_score_table() {
    assert_eq!(get_hand_base_score(HandRank::HighCard), (5, 1));
    assert_eq!(get_hand_base_score(HandRank::Pair), (10, 2));
    assert_eq!(get_hand_base_score(HandRank::TwoPair), (20, 2));
    assert_eq!(get_hand_base_score(HandRank::ThreeOfAKind), (30, 3));
    assert_eq!(get_hand_base_score(HandRank::Straight), (30, 4));
    assert_eq!(get_hand_base_score(HandRank::Flush), (35, 4));
    assert_eq!(get_hand_base_score(HandRank::FullHouse), (40, 4));
    assert_eq!(get_hand_base_score(HandRank::FourOfAKind), (60, 7));
    assert_eq!(get_hand_base_score(HandRank::StraightFlush), (100, 8));
}

#[test]
fn card_chip_values() {
    assert_eq!(get_card_chip_value(&card(0, 0, 14)), 11);
    assert_eq!(get_card_chip_value(&card(0, 0, 13)), 10);
    assert_eq!(get_card_chip_value(&card(0, 0, 12)), 10);
    assert_eq!(get_card_chip_value(&card(0, 0, 11)), 10);
    assert_eq!(get_card_chip_value(&card(0, 0, 10)), 10);
    assert_eq!(get_card_chip_value(&card(0, 0, 7)), 7);
    assert_eq!(get_card_chip_value(&card(0, 0, 2)), 2);
}

#[test]
fn scoring_ids_follow_the_category() {
    let stats = BaseModifiers::default();

    let quads = vec![
        card(10, 0, 4),
        card(11, 1, 4),
        card(12, 2, 9),
        card(13, 2, 4),
        card(14, 3, 4),
    ];
    assert_eq!(get_scoring_ids(&quads, &stats), vec![10, 11, 13, 14]);

    let high = vec![card(20, 0, 4), card(21, 1, 7), card(22, 2, 13)];
    assert_eq!(get_scoring_ids(&high, &stats), vec![22]);

    let pair = vec![card(30, 0, 8), card(31, 1, 3), card(32, 2, 8)];
    assert_eq!(get_scoring_ids(&pair, &stats), vec![30, 32]);

    let flush = vec![
        card(40, 1, 2),
        card(41, 1, 5),
        card(42, 1, 7),
        card(43, 1, 9),
        card(44, 1, 11),
    ];
    assert_eq!(get_scoring_ids(&flush, &stats), vec![40, 41, 42, 43, 44]);

    let two_pair = vec![
        card(50, 0, 8),
        card(51, 1, 8),
        card(52, 2, 3),
        card(53, 3, 3),
        card(54, 0, 12),
    ];
    assert_eq!(get_scoring_ids(&two_pair, &stats), vec![50, 51, 52, 53]);
}
