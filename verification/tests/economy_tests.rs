use deckbattle::battle_result::{apply_round_loss, calculate_rewards, confirm_battle_result};
use deckbattle::consumable::{Consumable, ConsumableEffect};
use deckbattle::data_loader::{default_rarity, RelicData};
use deckbattle::heirloom::{Heirloom, HeirloomEffect};
use deckbattle::joker_stats::JokerBaseModifiers;
use deckbattle::metrics::GameMetrics;
use deckbattle::relic::GameRelic;
use deckbattle::shop::{buy_relic, init_shop, roll_rarity};
use deckbattle::stats::{BaseModifiers, Rune, RuneType};
use deckbattle::state::GameState;
use deckbattle::stats_menu::{spend_stat_point, StatUpgrade};
use deckbattle::rune_select::{confirm_runes, equip_rune};

fn relic(id: &str, name: &str, rarity: &str, value: i32) -> GameRelic {
    GameRelic {
        data: RelicData {
            id: id.to_string(),
            name: name.to_string(),
            description: String::new(),
            value: Some(value),
            rarity: rarity.to_string(),
        },
    }
}

fn rune(name: &str, rune_type: RuneType) -> Rune {
    Rune {
        id: name.to_lowercase(),
        name: name.to_string(),
        description: String::new(),
        rune_type,
        cost: 0,
    }
}

#[test]
fn default_rarity_is_common() {
    assert_eq!(default_rarity(), "Common");
}

#[test]
fn rarity_table() {
    assert_eq!(roll_rarity(1), "Common");
    assert_eq!(roll_rarity(10), "Common");
    assert_eq!(roll_rarity(11), "Uncommon");
    assert_eq!(roll_rarity(15), "Uncommon");
    assert_eq!(roll_rarity(16), "Rare");
    assert_eq!(roll_rarity(18), "Rare");
    assert_eq!(roll_rarity(19), "Legendary");
    assert_eq!(roll_rarity(20), "Mythic");
}

#[test]
fn rewards_count_base_interest_and_hands() {
    let mut stats = BaseModifiers::default();
    stats.money = 12;
    stats.interest_cap = 25;
    stats.hands_remaining = 3;
    let (base, interest, hands) = calculate_rewards(&stats);
    assert_eq!(base, 4);
    assert_eq!(interest, 2);
    assert_eq!(hands, 3);

    // The interest stops at the cap's worth.
    stats.money = 60;
    let (_, capped, _) = calculate_rewards(&stats);
    assert_eq!(capped, 5);
}

#[test]
fn battle_result_banks_rewards_and_opens_the_shop() {
    let mut stats = BaseModifiers::default();
    stats.money = 12;
    stats.hands_remaining = 3;
    stats.all_relics.push(relic("j_joker", "The Joker", "Common", 5));
    let mut state = GameState::BattleResult;
    confirm_battle_result(&mut stats, &mut state);
    // 12 held + 4 base + 2 interest + 3 hands.
    assert_eq!(stats.money, 21);
    assert_eq!(state, GameState::Shop);
    assert_eq!(stats.current_shop_relics.len(), 3);
}

#[test]
fn round_loss_strikes_and_consoles() {
    let mut stats = BaseModifiers::default();
    stats.current_hp = 100;
    stats.enemy_damage = 10;
    stats.money = 4;
    let over = apply_round_loss(&mut stats);
    assert!(!over);
    assert_eq!(stats.current_hp, 90);
    assert_eq!(stats.money, 5);

    stats.current_hp = 7;
    stats.enemy_damage = 25;
    let over2 = apply_round_loss(&mut stats);
    assert!(over2);
    assert_eq!(stats.current_hp, -18);
    assert_eq!(stats.money, 5);
}

#[test]
fn shop_offers_come_from_the_database() {
    let mut stats = BaseModifiers::default();
    stats.all_relics.push(relic("a", "Power Glove", "Common", 4));
    stats.all_relics.push(relic("b", "Lucky Horseshoe", "Uncommon", 6));
    stats.all_relics.push(relic("c", "Glass Shard", "Rare", 7));
    init_shop(&mut stats);
    assert_eq!(stats.current_shop_relics.len(), 3);
    for offered in &stats.current_shop_relics {
        assert!(stats.all_relics.iter().any(|r| r.data.id == offered.data.id));
    }
}

#[test]
fn buying_moves_the_relic_and_pays() {
    let mut stats = BaseModifiers::default();
    stats.money = 10;
    stats.current_shop_relics.push(relic("a", "Power Glove", "Common", 4));
    stats.current_shop_relics.push(relic("b", "Lucky Horseshoe", "Uncommon", 6));

    // The second slot costs 6.
    assert!(buy_relic(&mut stats, 1));
    assert_eq!(stats.money, 4);
    assert_eq!(stats.current_shop_relics.len(), 1);
    assert_eq!(stats.equipped_relics.len(), 1);
    assert_eq!(stats.equipped_relics[0].data.id, "b");

    // Too expensive now that only 4 remains and the price is scaled up.
    stats.shop_price_pct = 200;
    assert!(!buy_relic(&mut stats, 0));
    assert_eq!(stats.money, 4);
    assert_eq!(stats.current_shop_relics.len(), 1);

    // An index past the row is rejected.
    assert!(!buy_relic(&mut stats, 5));
}

#[test]
fn equipping_a_rune_replaces_its_colour() {
    let mut stats = BaseModifiers::default();
    stats.available_runes.push(rune("Paladin", RuneType::Red));
    stats.available_runes.push(rune("Reaper", RuneType::Red));
    stats.available_runes.push(rune("Greed", RuneType::Green));

    assert!(equip_rune(&mut stats, 0));
    assert!(equip_rune(&mut stats, 2));
    assert_eq!(stats.equipped_runes.len(), 2);
    // A second red rune replaces the first.
    assert!(equip_rune(&mut stats, 1));
    assert_eq!(stats.equipped_runes.len(), 2);
    assert_eq!(stats.equipped_runes[1].name, "Reaper");
    // Out of range is rejected.
    assert!(!equip_rune(&mut stats, 9));
}

#[test]
fn confirming_runes_applies_their_effects_in_order() {
    let mut stats = BaseModifiers::default();
    stats.equipped_runes.push(rune("Paladin", RuneType::Red));
    stats.equipped_runes.push(rune("Greed", RuneType::Green));
    stats.equipped_runes.push(rune("Force", RuneType::Blue));
    stats.equipped_runes.push(rune("Wealth", RuneType::Minor));
    let mut state = GameState::RuneSelect;
    confirm_runes(&mut stats, &mut state);
    assert_eq!(state, GameState::Playing);
    assert_eq!(stats.stat_points, 3);
    assert_eq!(stats.max_hp, 140);
    assert_eq!(stats.current_hp, 140);
    assert_eq!(stats.hands_remaining, 5);
    assert_eq!(stats.discards_remaining, 6);
    assert_eq!(stats.mult, 10);
    assert_eq!(stats.money, 7);
    assert_eq!(stats.ante_scaling_pct, 150);
}

#[test]
fn reaper_floors_at_one_hit_point() {
    let mut stats = BaseModifiers::default();
    stats.max_hp = 10;
    stats.equipped_runes.push(rune("Reaper", RuneType::Red));
    let mut state = GameState::RuneSelect;
    confirm_runes(&mut stats, &mut state);
    assert_eq!(stats.max_hp, 1);
    assert_eq!(stats.current_hp, 1);
}

#[test]
fn stat_points_buy_exactly_one_upgrade_each() {
    let mut stats = BaseModifiers::default();
    stats.stat_points = 2;
    assert!(spend_stat_point(&mut stats, StatUpgrade::MaxHp));
    assert_eq!(stats.max_hp, 110);
    assert_eq!(stats.current_hp, 110);
    assert!(spend_stat_point(&mut stats, StatUpgrade::CritChance));
    assert_eq!(stats.crit_chance_pct, 15);
    assert!(!spend_stat_point(&mut stats, StatUpgrade::CritMult));
    assert_eq!(stats.crit_mult_pct, 150);
    assert_eq!(stats.stat_points, 0);
}

#[test]
fn resource_decrements_guard_their_floor() {
    let mut stats = BaseModifiers::default();
    assert!(stats.decrement_hands(1).is_ok());
    assert_eq!(stats.hands_remaining, 3);
    assert!(stats.decrement_hands(4).is_err());
    assert_eq!(stats.hands_remaining, 3);

    assert!(stats.decrement_discards(5).is_ok());
    assert_eq!(stats.discards_remaining, 0);
    let e = stats.decrement_discards(1);
    assert_eq!(e.unwrap_err(), "Not enough discards remaining.");
    assert_eq!(stats.discards_remaining, 0);

    stats.add_money(7);
    assert_eq!(stats.money, 11);
}

#[test]
fn fresh_run_state_defaults() {
    let stats = BaseModifiers::default();
    assert_eq!(stats.round, 1);
    assert_eq!(stats.ante, 1);
    assert_eq!(stats.current_hp, 100);
    assert_eq!(stats.max_hp, 100);
    assert_eq!(stats.money, 4);
    assert_eq!(stats.interest_cap, 25);
    assert_eq!(stats.hands_remaining, 4);
    assert_eq!(stats.discards_remaining, 5);
    assert_eq!(stats.hand_size, 8);
    assert_eq!(stats.target_score, 300);
    assert_eq!(stats.crit_chance_pct, 10);
    assert_eq!(stats.crit_mult_pct, 150);
    assert_eq!(stats.enemy_name, "Giant Rat");
    assert_eq!(stats.enemy_damage, 10);
    assert!(stats.equipped_relics.is_empty());
    assert_eq!(stats.shop_price_pct, 100);
    assert_eq!(stats.ante_scaling_pct, 150);
}

#[test]
fn record_types_round_trip_their_fields() {
    let scroll = Consumable {
        id: "scroll_levelup".to_string(),
        name: "Scroll of Growth".to_string(),
        rarity: "Common".to_string(),
        cost: 3,
        effect: ConsumableEffect::LevelUp { chips: 5, mult: 1 },
        target: Some("Straight".to_string()),
        description: "Levels a hand.".to_string(),
    };
    match scroll.effect {
        ConsumableEffect::LevelUp { chips, mult } => {
            assert_eq!(chips, 5);
            assert_eq!(mult, 1);
        }
        _ => panic!("wrong effect"),
    }

    let loom = Heirloom {
        id: "loom_purse".to_string(),
        name: "Old Purse".to_string(),
        cost: 6,
        effect: HeirloomEffect::GainMoney { amount: 2 },
    };
    match loom.effect {
        HeirloomEffect::GainMoney { amount } => assert_eq!(amount, 2),
        _ => panic!("wrong effect"),
    }

    let joker = JokerBaseModifiers {
        joker_name: "Jester".to_string(),
        mult: 4,
        chips: 0,
        gold: 0,
        hands: 0,
        discards: 0,
        joker_slot: 1,
    };
    assert_eq!(joker.joker_name, "Jester");
    assert_eq!(joker.mult, 4);
}

#[test]
fn metrics_count_actions() {
    let mut m = GameMetrics::new();
    m.log_click(3);
    m.log_click(4);
    m.log_play(60);
    m.log_discard(2);
    assert_eq!(m.clicks, 2);
    assert_eq!(m.hands_played, 1);
    assert_eq!(m.discards_used, 1);
}
