use vstd::prelude::*;
use crate::arith::cap_mul;
use crate::data_loader::RelicData;
use crate::relic::GameRelic;
use crate::rng::random_below;
use crate::stats::BaseModifiers;
use crate::text::str_eq;

verus! {

/// The rarity a twenty-sided roll lands on: half the rolls are common,
/// a quarter uncommon, then rare, legendary and mythic.
pub open spec fn spec_roll_rarity(roll: int) -> Seq<char> {
    if 11 <= roll <= 15 {
        "Uncommon"@
    } else if 16 <= roll <= 18 {
        "Rare"@
    } else if roll == 19 {
        "Legendary"@
    } else if roll == 20 {
        "Mythic"@
    } else {
        "Common"@
    }
}

/// Map a twenty-sided roll to a rarity name.
pub fn roll_rarity(roll: i32) -> (r: String)
    ensures
        r@ == spec_roll_rarity(roll as int),
{
    if roll >= 11 && roll <= 15 {
        "Uncommon".to_owned()
    } else if roll >= 16 && roll <= 18 {
        "Rare".to_owned()
    } else if roll == 19 {
        "Legendary".to_owned()
    } else if roll == 20 {
        "Mythic".to_owned()
    } else {
        "Common".to_owned()
    }
}

/// A field-by-field copy of a relic.
pub fn copy_relic(r: &GameRelic) -> (c: GameRelic)
    ensures
        c == *r,
{
    GameRelic {
        data: RelicData {
            id: r.data.id.clone(),
            name: r.data.name.clone(),
            description: r.data.description.clone(),
            value: r.data.value,
            rarity: r.data.rarity.clone(),
        },
    }
}

/// The relics of the given rarity, in database order.
pub open spec fn of_rarity(rs: Seq<GameRelic>, rarity: Seq<char>) -> Seq<GameRelic>
    decreases rs.len(),
{
    if rs.len() == 0 {
        Seq::empty()
    } else if rs.last().data.rarity@ == rarity {
        of_rarity(rs.drop_last(), rarity).push(rs.last())
    } else {
        of_rarity(rs.drop_last(), rarity)
    }
}

/// Every relic of the filtered pool comes from the database and has the
/// asked-for rarity.
pub proof fn lemma_of_rarity_mem(rs: Seq<GameRelic>, rarity: Seq<char>)
    ensures
        forall|k: int|
            0 <= k < of_rarity(rs, rarity).len() ==> (#[trigger] of_rarity(rs, rarity)[k]).data.rarity@
                == rarity && rs.contains(of_rarity(rs, rarity)[k]),
    decreases rs.len(),
{
    if rs.len() > 0 {
        lemma_of_rarity_mem(rs.drop_last(), rarity);
        assert forall|k: int| 0 <= k < of_rarity(rs, rarity).len() implies (#[trigger] of_rarity(
            rs,
            rarity,
        )[k]).data.rarity@ == rarity && rs.contains(of_rarity(rs, rarity)[k]) by {
            let prev = of_rarity(rs.drop_last(), rarity);
            if k < prev.len() {
                assert(rs.drop_last().contains(prev[k]));
                let i = choose|i: int|
                    0 <= i < rs.drop_last().len() && rs.drop_last()[i] == prev[k];
                assert(rs[i] == prev[k]);
                assert(rs.contains(prev[k]));
            } else {
                assert(of_rarity(rs, rarity)[k] == rs[rs.len() - 1]);
                assert(rs.contains(rs[rs.len() - 1]));
            }
        }
    }
}

/// The filtered pool is never larger than the database.
pub proof fn lemma_of_rarity_len(rs: Seq<GameRelic>, rarity: Seq<char>)
    ensures
        of_rarity(rs, rarity).len() <= rs.len(),
    decreases rs.len(),
{
    if rs.len() > 0 {
        lemma_of_rarity_len(rs.drop_last(), rarity);
    }
}

/// A database holding the rarity yields a non-empty pool for it.
pub proof fn lemma_of_rarity_nonempty(rs: Seq<GameRelic>, rarity: Seq<char>, i: int)
    requires
        0 <= i < rs.len(),
        rs[i].data.rarity@ == rarity,
    ensures
        of_rarity(rs, rarity).len() > 0,
    decreases rs.len(),
{
    if i < rs.len() - 1 {
        assert(rs.drop_last()[i] == rs[i]);
        lemma_of_rarity_nonempty(rs.drop_last(), rarity, i);
    }
}

/// Collect the relics of the given rarity, in database order.
pub fn relics_of_rarity(all: &Vec<GameRelic>, rarity: &str) -> (pool: Vec<GameRelic>)
    ensures
        pool@ == of_rarity(all@, rarity@),
{
    let mut pool: Vec<GameRelic> = Vec::new();
    let mut i: usize = 0;
    while i < all.len()
        invariant
            i <= all@.len(),
            pool@ == of_rarity(all@.take(i as int), rarity@),
        decreases all@.len() - i,
    {
        proof {
            assert(all@.take(i as int + 1).drop_last() =~= all@.take(i as int));
        }
        if str_eq(all[i].data.rarity.as_str(), rarity) {
            let c = copy_relic(&all[i]);
            pool.push(c);
        }
        i = i + 1;
    }
    proof {
        assert(all@.take(all@.len() as int) =~= all@);
    }
    pool
}

/// Every offered relic is a record of the database.
pub open spec fn offers_from(shop: Seq<GameRelic>, db: Seq<GameRelic>) -> bool {
    forall|k: int| 0 <= k < shop.len() ==> db.contains(#[trigger] shop[k])
}

/// Roll the three shop slots: each slot draws a twenty-sided die for the
/// rarity and offers a random relic of it from the database, falling back
/// to the common pool when that rarity has none; a slot whose pool is
/// still empty offers nothing. Every offer comes from the database, and a
/// database holding at least one common relic always fills all three
/// slots.
pub fn init_shop(stats: &mut BaseModifiers)
    requires
        old(stats).all_relics@.len() <= u32::MAX,
    ensures
        *final(stats) == (BaseModifiers {
            current_shop_relics: final(stats).current_shop_relics,
            ..*old(stats)
        }),
        final(stats).current_shop_relics@.len() <= 3,
        offers_from(final(stats).current_shop_relics@, old(stats).all_relics@),
        (exists|i: int|
            0 <= i < old(stats).all_relics@.len() && (#[trigger] old(stats).all_relics@[i]).data.rarity@ == "Common"@) ==> final(stats).current_shop_relics@.len()
            == 3,
{
    stats.current_shop_relics = Vec::new();
    let ghost db = stats.all_relics@;
    let ghost has_common = exists|i: int|
        0 <= i < db.len() && (#[trigger] db[i]).data.rarity@ == "Common"@;
    let mut slot: usize = 0;
    while slot < 3
        invariant
            slot <= 3,
            db == stats.all_relics@,
            db.len() <= u32::MAX,
            has_common == exists|i: int|
                0 <= i < db.len() && (#[trigger] db[i]).data.rarity@ == "Common"@,
            *stats == (BaseModifiers {
                current_shop_relics: stats.current_shop_relics,
                ..*old(stats)
            }),
            stats.current_shop_relics@.len() <= slot,
            offers_from(stats.current_shop_relics@, db),
            has_common ==> stats.current_shop_relics@.len() == slot,
        decreases 3 - slot,
    {
        let roll = random_below(20) as i32 + 1;
        let rarity = roll_rarity(roll);
        let mut pool = relics_of_rarity(&stats.all_relics, rarity.as_str());
        let ghost mut pool_rarity = rarity@;
        if pool.len() == 0 {
            pool = relics_of_rarity(&stats.all_relics, "Common");
            proof {
                pool_rarity = "Common"@;
                if has_common {
                    let i = choose|i: int|
                        0 <= i < db.len() && (#[trigger] db[i]).data.rarity@ == "Common"@;
                    lemma_of_rarity_nonempty(db, "Common"@, i);
                }
            }
        }
        if pool.len() > 0 {
            proof {
                lemma_of_rarity_len(db, pool_rarity);
            }
            let j = random_below(pool.len() as u32) as usize;
            let c = copy_relic(&pool[j]);
            let ghost pre_push = stats.current_shop_relics@;
            proof {
                lemma_of_rarity_mem(db, pool_rarity);
                assert(db.contains(pool@[j as int]));
            }
            stats.current_shop_relics.push(c);
            proof {
                assert forall|k: int| 0 <= k < stats.current_shop_relics@.len() implies db.contains(
                    #[trigger] stats.current_shop_relics@[k],
                ) by {
                    if k < pre_push.len() {
                        assert(stats.current_shop_relics@[k] == pre_push[k]);
                    } else {
                        assert(stats.current_shop_relics@[k] == pool@[j as int]);
                    }
                }
            }
        }
        slot = slot + 1;
    }
    proof {
        assert(offers_from(stats.current_shop_relics@, old(stats).all_relics@));
    }
}

/// The shop price of a relic: its base value, never negative, scaled by
/// the run's shop price percentage.
pub open spec fn spec_relic_price(r: GameRelic, pct: u32) -> int {
    let v = match r.data.value {
        Some(v) => if v > 0 {
            v as int
        } else {
            0
        },
        None => 0,
    };
    cap_mul(v, pct as int) / 100
}

/// The shop price of a relic.
pub fn relic_price(r: &GameRelic, pct: u32) -> (p: u64)
    ensures
        p == spec_relic_price(*r, pct),
{
    let v: u64 = match r.data.value {
        Some(v) => if v > 0 {
            v as u64
        } else {
            0
        },
        None => 0,
    };
    crate::arith::sat_mul(v, pct as u64) / 100
}

/// Buy the shop offer at `index`: rejected when the slot does not exist or
/// the price exceeds the held money, leaving everything unchanged;
/// otherwise the price is paid and the relic moves from the shop row to
/// the end of the equipped list.
pub fn buy_relic(stats: &mut BaseModifiers, index: usize) -> (accepted: bool)
    ensures
        ({
            let shop = old(stats).current_shop_relics@;
            let ok = index < shop.len() && old(stats).money >= spec_relic_price(
                shop[index as int],
                old(stats).shop_price_pct,
            );
            &&& accepted == ok
            &&& !ok ==> *final(stats) == *old(stats)
            &&& ok ==> {
                &&& *final(stats) == (BaseModifiers {
                    money: (old(stats).money - spec_relic_price(
                        shop[index as int],
                        old(stats).shop_price_pct,
                    )) as u32,
                    current_shop_relics: final(stats).current_shop_relics,
                    equipped_relics: final(stats).equipped_relics,
                    ..*old(stats)
                })
                &&& final(stats).current_shop_relics@ == shop.remove(index as int)
                &&& final(stats).equipped_relics@ == old(stats).equipped_relics@.push(
                    shop[index as int],
                )
            }
        }),
{
    if index >= stats.current_shop_relics.len() {
        return false;
    }
    let price = relic_price(&stats.current_shop_relics[index], stats.shop_price_pct);
    if (stats.money as u64) < price {
        return false;
    }
    stats.money = stats.money - (price as u32);
    let r = stats.current_shop_relics.remove(index);
    stats.equipped_relics.push(r);
    true
}

} // verus!
