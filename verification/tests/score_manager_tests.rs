use deckbattle::card::Card;
use deckbattle::data_loader::RelicData;
use deckbattle::hand::HandRank;
use deckbattle::score_manager::ScoreManager;
use deckbattle::stats::BaseModifiers;

#[test]
fn test_two_pair_with_relics() {
    let mut stats = BaseModifiers::default();
    stats.chips = 0; // Ensure starting chips are zero for calculation
    stats.mult = 0; // Ensure starting mult is zero for calculation

    // Simulate a Two Pair hand: e.g., Two Kings, Two Queens
    let mut played_cards_for_test = vec![
        Card::new(0),
        Card::new(1),
        Card::new(2),
        Card::new(3),
        Card::new(4),
    ];

    // Manually set card values for the test
    played_cards_for_test[0].value = 13;
    played_cards_for_test[0].suit = 0; // King
    played_cards_for_test[1].value = 13;
    played_cards_for_test[1].suit = 1; // King
    played_cards_for_test[2].value = 12;
    played_cards_for_test[2].suit = 2; // Queen
    played_cards_for_test[3].value = 12;
    played_cards_for_test[3].suit = 3; // Queen
    played_cards_for_test[4].value = 14;
    played_cards_for_test[4].suit = 0; // Ace (kicker)

    let hand_rank = HandRank::TwoPair; // Two Pair base score: 20 chips, 2 mult

    // Create relics
    let relic_mult_add = RelicData {
        id: "relic_mult_add".to_string(),
        name: "PlusFourMult".to_string(), // "+4 Mult" Relic
        description: "Adds 4 to multiplier.".to_string(),
        value: Some(0),
        rarity: "Common".to_string(),
    };
    let relic_mult_x = RelicData {
        id: "relic_mult_x".to_string(),
        name: "TimesTwoMult".to_string(), // "x2 Mult" Relic
        description: "Multiplies multiplier by 2.".to_string(),
        value: Some(0),
        rarity: "Common".to_string(),
    };
    let equipped_relics = vec![relic_mult_add, relic_mult_x];

    // Expected Calculation:
    // Base for Two Pair: 20 Chips, 2 Mult
    // Relic 1 (PlusFourMult): Mult becomes 2 + 4 = 6
    // Relic 2 (TimesTwoMult): Mult becomes 6 * 2 = 12
    // Final Score: Chips * Mult = 20 * 12 = 240
    ScoreManager::calculate_hand_score(
        &mut stats,
        &played_cards_for_test,
        &[],
        hand_rank,
        &equipped_relics,
    );

    // Assertions
    assert_eq!(stats.chips, 20, "Final chips should be 20");
    assert_eq!(stats.mult, 12, "Final mult should be 12");
    assert_eq!(stats.total_score, 240, "Final total score should be 240");
    assert_eq!(stats.round_score, 240, "Final round score should be 240");
}

#[test]
fn test_relic_order_reversed_changes_total() {
    let mut stats = BaseModifiers::default();
    stats.chips = 0;
    stats.mult = 0;

    let mut played = vec![
        Card::new(0),
        Card::new(1),
        Card::new(2),
        Card::new(3),
        Card::new(4),
    ];
    played[0].value = 13;
    played[0].suit = 0;
    played[1].value = 13;
    played[1].suit = 1;
    played[2].value = 12;
    played[2].suit = 2;
    played[3].value = 12;
    played[3].suit = 3;
    played[4].value = 14;
    played[4].suit = 0;

    let relic_mult_x = RelicData {
        id: "relic_mult_x".to_string(),
        name: "TimesTwoMult".to_string(),
        description: "Multiplies multiplier by 2.".to_string(),
        value: Some(0),
        rarity: "Common".to_string(),
    };
    let relic_mult_add = RelicData {
        id: "relic_mult_add".to_string(),
        name: "PlusFourMult".to_string(),
        description: "Adds 4 to multiplier.".to_string(),
        value: Some(0),
        rarity: "Common".to_string(),
    };
    // Doubling first, then adding four: mult becomes 2 * 2 + 4 = 8.
    let equipped_relics = vec![relic_mult_x, relic_mult_add];

    ScoreManager::calculate_hand_score(
        &mut stats,
        &played,
        &[],
        HandRank::TwoPair,
        &equipped_relics,
    );

    assert_eq!(stats.chips, 20);
    assert_eq!(stats.mult, 8);
    assert_eq!(stats.total_score, 160);
    assert_ne!(stats.total_score, 240);
}
