use deckbattle::card::Card;
use deckbattle::data_loader::RelicData;
use deckbattle::hand::HandRank;
use deckbattle::relic::GameRelic;
use deckbattle::score_manager::{apply_crit, score_played_hand};

fn card(id: i32, suit: i32, value: i32) -> Card {
    let mut c = Card::new(id);
    c.suit = suit;
    c.value = value;
    c
}

fn named_relic(name: &str) -> GameRelic {
    GameRelic {
        data: RelicData {
            id: name.to_lowercase(),
            name: name.to_string(),
            description: String::new(),
            value: Some(0),
            rarity: "Common".to_string(),
        },
    }
}

fn pair_of_kings() -> Vec<Card> {
    vec![
        card(0, 0, 13),
        card(1, 1, 13),
        card(2, 0, 2),
        card(3, 1, 3),
        card(4, 2, 6),
    ]
}

#[test]
fn pair_of_kings_scores_sixty() {
    let (chips, mult, total) = score_played_hand(&pair_of_kings(), HandRank::Pair, &[]);
    // Base 10 chips and 2 mult; only the Kings score, ten chips each.
    assert_eq!(chips, 30);
    assert_eq!(mult, 2);
    assert_eq!(total, 60);
}

#[test]
fn pipeline_is_deterministic() {
    let relics = vec![named_relic("PlusFourMult"), named_relic("TimesTwoMult")];
    let a = score_played_hand(&pair_of_kings(), HandRank::Pair, &relics);
    let b = score_played_hand(&pair_of_kings(), HandRank::Pair, &relics);
    assert_eq!(a, b);
}

#[test]
fn hand_hook_order_changes_the_total() {
    let ab = vec![named_relic("PlusFourMult"), named_relic("TimesTwoMult")];
    let ba = vec![named_relic("TimesTwoMult"), named_relic("PlusFourMult")];
    let (_, mult_ab, total_ab) = score_played_hand(&pair_of_kings(), HandRank::Pair, &ab);
    let (_, mult_ba, total_ba) = score_played_hand(&pair_of_kings(), HandRank::Pair, &ba);
    // Add-then-double: (2 + 4) * 2 = 12. Double-then-add: 2 * 2 + 4 = 8.
    assert_eq!(mult_ab, 12);
    assert_eq!(mult_ba, 8);
    assert_eq!(total_ab, 30 * 12);
    assert_eq!(total_ba, 30 * 8);
    assert_ne!(total_ab, total_ba);
}

#[test]
fn power_glove_pays_per_played_card() {
    let relics = vec![named_relic("Power Glove")];
    let (chips, _, _) = score_played_hand(&pair_of_kings(), HandRank::Pair, &relics);
    // 30 chips from the pair, plus two per played card.
    assert_eq!(chips, 40);
}

#[test]
fn lucky_horseshoe_rewards_a_flush() {
    let flush = vec![
        card(0, 1, 2),
        card(1, 1, 5),
        card(2, 1, 7),
        card(3, 1, 9),
        card(4, 1, 12),
    ];
    let relics = vec![named_relic("Lucky Horseshoe")];
    let (_, mult, _) = score_played_hand(&flush, HandRank::Flush, &relics);
    // Base 4 mult, plus five for the flush.
    assert_eq!(mult, 9);
    // The same relic sits out a mere pair.
    let (_, pair_mult, _) = score_played_hand(&pair_of_kings(), HandRank::Pair, &relics);
    assert_eq!(pair_mult, 2);
}

#[test]
fn glass_shard_scales_on_face_cards() {
    let relics = vec![named_relic("Glass Shard")];
    let (chips, mult, total) = score_played_hand(&pair_of_kings(), HandRank::Pair, &relics);
    // Each scoring King is a ten-or-better card: the 2x-base mult is
    // scaled by 1.5 twice, truncating: 2 -> 3 -> 4.
    assert_eq!(chips, 30);
    assert_eq!(mult, 4);
    assert_eq!(total, 120);
}

#[test]
fn crit_roll_scales_as_a_final_step() {
    // A roll below the chance scales by the percentage, truncating.
    assert_eq!(apply_crit(60, 5, 10, 150), 90);
    assert_eq!(apply_crit(61, 9, 10, 150), 91);
    // A roll at or above the chance leaves the total alone.
    assert_eq!(apply_crit(60, 10, 10, 150), 60);
    assert_eq!(apply_crit(60, 99, 10, 300), 60);
    // A doubled crit multiplier doubles.
    assert_eq!(apply_crit(60, 0, 10, 200), 120);
}
