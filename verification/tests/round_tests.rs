use deckbattle::card::Card;
use deckbattle::hand::HandRank;
use deckbattle::enemy::{Enemy, EnemyAbility};
use deckbattle::round::{
    build_deck, commit_discard, commit_play, refill_hand, run_scoring_sequence, scoring_step,
    selected_count, sort_hand, start_next_round, tally, toggle_card_selection, RoundTable,
};
use deckbattle::stats::{BaseModifiers, BossAbility, SortMode};
use deckbattle::state::{AnimationState, GameState};

fn card(id: i32, suit: i32, value: i32) -> Card {
    let mut c = Card::new(id);
    c.suit = suit;
    c.value = value;
    c
}

fn table_total(t: &RoundTable) -> usize {
    t.deck.len() + t.hand.len() + t.used.len()
}

/// A table of 52 cards with a chosen eight-card hand holding a pair of
/// Kings, the rest in the deck.
fn dealt_table() -> RoundTable {
    let full = build_deck();
    let mut table = RoundTable::new();
    // King ids under the fresh layout: value 13 is id 11 (Hearts) and
    // id 24 (Diamonds).
    let hand_ids = [11, 24, 0, 14, 30, 44, 45, 46];
    for c in full {
        if hand_ids.contains(&c.id) {
            table.hand.push(c);
        } else {
            table.deck.push(c);
        }
    }
    assert_eq!(table.hand.len(), 8);
    assert_eq!(table_total(&table), 52);
    table
}

#[test]
fn play_rejected_with_no_hands_left() {
    let mut stats = BaseModifiers::default();
    stats.hands_remaining = 0;
    let mut table = dealt_table();
    for i in 0..5 {
        let id = table.hand[i].id;
        toggle_card_selection(&mut table.hand, id);
    }
    let mut anim = AnimationState::Idle;
    let accepted = commit_play(&mut stats, &table, &mut anim);
    assert!(!accepted);
    assert_eq!(anim, AnimationState::Idle);
    assert_eq!(stats.hands_remaining, 0);
    assert_eq!(stats.round_score, 0);
}

#[test]
fn play_rejected_with_empty_selection() {
    let mut stats = BaseModifiers::default();
    let table = dealt_table();
    let mut anim = AnimationState::Idle;
    assert!(!commit_play(&mut stats, &table, &mut anim));
    assert_eq!(stats.hands_remaining, 4);
}

#[test]
fn discard_rejected_with_no_discards_left() {
    let mut stats = BaseModifiers::default();
    stats.discards_remaining = 0;
    let mut table = dealt_table();
    let id = table.hand[0].id;
    toggle_card_selection(&mut table.hand, id);
    let mut anim = AnimationState::Idle;
    let accepted = commit_discard(&mut stats, &mut table, &mut anim);
    assert!(!accepted);
    assert_eq!(stats.discards_remaining, 0);
    assert_eq!(table_total(&table), 52);
    assert_eq!(table.used.len(), 0);
}

#[test]
fn pay_to_discard_requires_money() {
    let mut stats = BaseModifiers::default();
    stats.active_ability = BossAbility::PayToDiscard;
    stats.money = 0;
    let mut table = dealt_table();
    let id = table.hand[0].id;
    toggle_card_selection(&mut table.hand, id);
    let mut anim = AnimationState::Idle;
    assert!(!commit_discard(&mut stats, &mut table, &mut anim));

    stats.money = 3;
    assert!(commit_discard(&mut stats, &mut table, &mut anim));
    assert_eq!(stats.money, 2);
    assert_eq!(stats.discards_remaining, 4);
}

#[test]
fn sixth_selection_is_refused() {
    let mut table = dealt_table();
    for i in 0..5 {
        let id = table.hand[i].id;
        assert!(toggle_card_selection(&mut table.hand, id));
    }
    let sixth = table.hand[5].id;
    assert!(!toggle_card_selection(&mut table.hand, sixth));
    assert_eq!(selected_count(&table.hand), 5);
    // Deselecting is always allowed.
    let first = table.hand[0].id;
    assert!(toggle_card_selection(&mut table.hand, first));
    assert_eq!(selected_count(&table.hand), 4);
}

#[test]
fn discard_conserves_cards() {
    let mut stats = BaseModifiers::default();
    let mut table = dealt_table();
    for i in 0..3 {
        let id = table.hand[i].id;
        toggle_card_selection(&mut table.hand, id);
    }
    let mut anim = AnimationState::Idle;
    assert!(commit_discard(&mut stats, &mut table, &mut anim));
    assert_eq!(anim, AnimationState::Dealing);
    assert_eq!(table_total(&table), 52);
    assert_eq!(table.used.len(), 3);
    refill_hand(&stats, &mut table, &mut anim);
    assert_eq!(anim, AnimationState::Idle);
    assert_eq!(table_total(&table), 52);
    assert_eq!(table.hand.len(), 8);
    assert_eq!(stats.discards_remaining, 4);
    assert_eq!(stats.game_metrics.discards_used, 1);
}

#[test]
fn end_to_end_pair_of_kings() {
    let mut stats = BaseModifiers::default();
    let mut table = dealt_table();
    // Select the two Kings and three unrelated cards: ids 0 (2 of
    // Hearts), 14 (3 of Diamonds), 30 (6 of Spades).
    for id in [11, 24, 0, 14, 30] {
        assert!(toggle_card_selection(&mut table.hand, id));
    }
    let mut anim = AnimationState::Idle;
    let mut state = GameState::Playing;

    assert!(commit_play(&mut stats, &table, &mut anim));
    assert_eq!(anim, AnimationState::ScoringSeq);
    assert_eq!(stats.hands_remaining, 3);
    assert_eq!(stats.hand_rank, Some(HandRank::Pair));
    // The base category score seeds the pair.
    assert_eq!(stats.chips, 10);
    assert_eq!(stats.mult, 2);

    run_scoring_sequence(&mut stats, &table, &mut anim);
    assert_eq!(anim, AnimationState::Scoring);
    // The two Kings add ten chips each; the multiplier is untouched.
    assert_eq!(stats.chips, 30);
    assert_eq!(stats.mult, 2);

    // A roll of 99 never crits under the default ten percent chance.
    tally(&mut stats, &mut table, &mut anim, &mut state, 99);
    assert_eq!(stats.round_score, 60);
    assert_eq!(stats.total_score, 60);
    assert!(!stats.is_crit_active);
    assert_eq!(state, GameState::Playing);
    assert_eq!(anim, AnimationState::Dealing);
    assert_eq!(table.used.len(), 5);
    assert_eq!(table_total(&table), 52);

    refill_hand(&stats, &mut table, &mut anim);
    assert_eq!(anim, AnimationState::Idle);
    assert_eq!(table.hand.len(), 8);
    assert_eq!(table_total(&table), 52);
    assert_eq!(stats.game_metrics.hands_played, 1);
}

#[test]
fn win_check_precedes_loss_check() {
    let mut stats = BaseModifiers::default();
    stats.hands_remaining = 1;
    stats.target_score = 60;
    let mut table = dealt_table();
    for id in [11, 24, 0, 14, 30] {
        toggle_card_selection(&mut table.hand, id);
    }
    let mut anim = AnimationState::Idle;
    let mut state = GameState::Playing;
    assert!(commit_play(&mut stats, &table, &mut anim));
    assert_eq!(stats.hands_remaining, 0);
    run_scoring_sequence(&mut stats, &table, &mut anim);
    tally(&mut stats, &mut table, &mut anim, &mut state, 99);
    // The round score reaches the target exactly while no hands remain:
    // the win wins.
    assert_eq!(stats.round_score, 60);
    assert_eq!(state, GameState::BattleResult);
    assert!(stats.round_won);
    assert_eq!(anim, AnimationState::Idle);
}

#[test]
fn exhausted_hands_lose_when_short_of_target() {
    let mut stats = BaseModifiers::default();
    stats.hands_remaining = 1;
    stats.target_score = 1000;
    let mut table = dealt_table();
    for id in [11, 24, 0, 14, 30] {
        toggle_card_selection(&mut table.hand, id);
    }
    let mut anim = AnimationState::Idle;
    let mut state = GameState::Playing;
    assert!(commit_play(&mut stats, &table, &mut anim));
    run_scoring_sequence(&mut stats, &table, &mut anim);
    tally(&mut stats, &mut table, &mut anim, &mut state, 99);
    assert_eq!(state, GameState::GameOver);
    assert!(!stats.round_won);
}

#[test]
fn crit_scales_the_banked_total() {
    let mut stats = BaseModifiers::default();
    let mut table = dealt_table();
    for id in [11, 24, 0, 14, 30] {
        toggle_card_selection(&mut table.hand, id);
    }
    let mut anim = AnimationState::Idle;
    let mut state = GameState::Playing;
    assert!(commit_play(&mut stats, &table, &mut anim));
    run_scoring_sequence(&mut stats, &table, &mut anim);
    // A roll of 0 always crits: the 60-point total scales by 1.5x.
    tally(&mut stats, &mut table, &mut anim, &mut state, 0);
    assert!(stats.is_crit_active);
    assert_eq!(stats.round_score, 90);
}

#[test]
fn refill_stops_at_an_empty_deck() {
    let mut stats = BaseModifiers::default();
    let mut table = RoundTable::new();
    table.deck.push(card(0, 0, 5));
    table.deck.push(card(1, 1, 9));
    let mut anim = AnimationState::Dealing;
    refill_hand(&stats, &mut table, &mut anim);
    // The deck had two cards; the hand simply ends up short of eight.
    assert_eq!(table.hand.len(), 2);
    assert_eq!(table.deck.len(), 0);
    assert_eq!(anim, AnimationState::Idle);
}

#[test]
fn hand_size_minus_one_shrinks_the_refill() {
    let mut stats = BaseModifiers::default();
    stats.active_ability = BossAbility::HandSizeMinusOne;
    let mut table = RoundTable::new();
    table.deck = build_deck();
    let mut anim = AnimationState::Dealing;
    refill_hand(&stats, &mut table, &mut anim);
    assert_eq!(table.hand.len(), 7);
    assert_eq!(table_total(&table), 52);
}

#[test]
fn sort_orders_by_rank_then_suit() {
    let mut hand = vec![card(0, 2, 5), card(1, 0, 13), card(2, 1, 5), card(3, 3, 9)];
    sort_hand(&mut hand, SortMode::Rank);
    let keys: Vec<(i32, i32)> = hand.iter().map(|c| (c.value, c.suit)).collect();
    assert_eq!(keys, vec![(13, 0), (9, 3), (5, 1), (5, 2)]);

    let mut hand2 = vec![card(0, 2, 5), card(1, 0, 13), card(2, 1, 5), card(3, 2, 9)];
    sort_hand(&mut hand2, SortMode::Suit);
    let keys2: Vec<(i32, i32)> = hand2.iter().map(|c| (c.suit, c.value)).collect();
    assert_eq!(keys2, vec![(0, 13), (1, 5), (2, 9), (2, 5)]);
}

#[test]
fn fresh_round_rebuilds_the_full_card_set() {
    let mut stats = BaseModifiers::default();
    let mut table = RoundTable::new();
    start_next_round(&mut stats, &mut table);
    assert_eq!(table_total(&table), 52);
    assert_eq!(table.used.len(), 0);
    assert_eq!(table.hand.len(), 8);
    assert_eq!(table.deck.len(), 44);
    assert_eq!(stats.round, 2);
    assert_eq!(stats.hands_remaining, 4);
    assert_eq!(stats.discards_remaining, 5);
    assert_eq!(stats.round_score, 0);
    // No enemies are loaded, so the target only scales: 300 * 1.5.
    assert_eq!(stats.target_score, 450);
    assert_eq!(stats.active_ability, BossAbility::NoAbility);
}

#[test]
fn scoring_sequence_reveals_one_card_per_step() {
    let mut stats = BaseModifiers::default();
    let mut table = dealt_table();
    for id in [11, 24, 0, 14, 30] {
        toggle_card_selection(&mut table.hand, id);
    }
    let mut anim = AnimationState::Idle;
    assert!(commit_play(&mut stats, &table, &mut anim));
    assert_eq!(stats.chips, 10);

    // The selection in hand order is 2H, KH, 3D, KD, 6S; only the Kings
    // score, each adding ten chips as it is revealed.
    scoring_step(&mut stats, &table, &mut anim);
    assert_eq!(stats.chips, 10);
    scoring_step(&mut stats, &table, &mut anim);
    assert_eq!(stats.chips, 20);
    scoring_step(&mut stats, &table, &mut anim);
    assert_eq!(stats.chips, 20);
    scoring_step(&mut stats, &table, &mut anim);
    assert_eq!(stats.chips, 30);
    scoring_step(&mut stats, &table, &mut anim);
    assert_eq!(anim, AnimationState::ScoringSeq);
    // One more step finds every card revealed and moves to the tally.
    scoring_step(&mut stats, &table, &mut anim);
    assert_eq!(anim, AnimationState::Scoring);
    assert_eq!(stats.chips, 30);
    assert_eq!(stats.mult, 2);
}

#[test]
fn single_enemy_database_always_fields_that_enemy() {
    let mut stats = BaseModifiers::default();
    stats.enemy_database.push(Enemy {
        id: "rat".to_string(),
        name: "Giant Rat".to_string(),
        hp: 700,
        ability: EnemyAbility::DealDamage { damage: 17 },
    });
    let mut table = RoundTable::new();
    start_next_round(&mut stats, &mut table);
    let e = stats.current_enemy.as_ref().expect("an enemy must be drawn");
    assert_eq!(e.id, "rat");
    assert_eq!(stats.enemy_name, "Giant Rat");
    assert_eq!(stats.enemy_damage, 17);
    // The enemy's 700 hit points exceed the scaled 450 target, so the
    // target rises to them (doubled at worst under a rolled ability).
    assert!(stats.target_score == 700 || stats.target_score == 1400);
}

#[test]
fn ante_steps_every_eighth_round() {
    let mut stats = BaseModifiers::default();
    stats.round = 8;
    let mut table = RoundTable::new();
    start_next_round(&mut stats, &mut table);
    assert_eq!(stats.round, 9);
    assert_eq!(stats.ante, 2);
}
