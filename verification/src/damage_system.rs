use vstd::prelude::*;
use vstd::string::StringExecFns;

use crate::components::{EntityId, Pools, Position};

verus! {

/// Applies the damage queued up against creatures and collects the
/// experience the player earns from kills.
pub struct DamageSystem;

/// The hit points left after the first `k` hits of `hits`.
pub open spec fn hp_after(hp: int, hits: Seq<(i32, bool)>, k: int) -> int
    decreases k,
{
    if k <= 0 {
        hp
    } else {
        hp_after(hp, hits, k - 1) - hits[k - 1].0
    }
}

/// The experience the player earns from the first `k` hits: a hundred per
/// victim level for every hit by the player that leaves the victim below 1
/// hit point (a hit on a creature already down counts again).
pub open spec fn xp_from_hits(hp: int, level: int, hits: Seq<(i32, bool)>, k: int) -> int
    decreases k,
{
    if k <= 0 {
        0
    } else {
        xp_from_hits(hp, level, hits, k - 1) + if hp_after(hp, hits, k) < 1 && hits[k - 1].1 {
            level * 100
        } else {
            0
        }
    }
}

/// Every partial result of applying `hits` fits in an `i32`.
pub open spec fn hits_fit(hp: int, level: int, hits: Seq<(i32, bool)>) -> bool {
    &&& i32::MIN <= level * 100 <= i32::MAX
    &&& forall|k: int| 0 <= k <= hits.len() ==> i32::MIN <= #[trigger] hp_after(hp, hits, k) <= i32::MAX
    &&& forall|k: int| 0 <= k <= hits.len() ==> i32::MIN <= #[trigger] xp_from_hits(hp, level, hits, k) <= i32::MAX
}

impl DamageSystem {
    /// Whether applying `hits` to a creature with `hp` hit points and level
    /// `level` stays within `i32` at every step, which `apply_damage` needs.
    pub fn damage_fits(hp: i32, level: i32, hits: &Vec<(i32, bool)>) -> (ok: bool)
        ensures
            ok == hits_fit(hp as int, level as int, hits@),
    {
        let reward: i64 = level as i64 * 100;
        if reward < i32::MIN as i64 || reward > i32::MAX as i64 {
            return false;
        }
        let mut cur: i64 = hp as i64;
        let mut xp: i64 = 0;
        let mut i: usize = 0;
        while i < hits.len()
            invariant
                i <= hits@.len(),
                i32::MIN <= level * 100 <= i32::MAX,
                reward == level * 100,
                cur == hp_after(hp as int, hits@, i as int),
                xp == xp_from_hits(hp as int, level as int, hits@, i as int),
                forall|k: int| 0 <= k <= i ==> i32::MIN <= #[trigger] hp_after(hp as int, hits@, k) <= i32::MAX,
                forall|k: int| 0 <= k <= i ==> i32::MIN <= #[trigger] xp_from_hits(hp as int, level as int, hits@, k) <= i32::MAX,
            decreases hits@.len() - i,
        {
            let (amount, from_player) = hits[i];
            cur = cur - amount as i64;
            if cur < i32::MIN as i64 || cur > i32::MAX as i64 {
                assert(!(i32::MIN <= hp_after(hp as int, hits@, i + 1) <= i32::MAX));
                return false;
            }
            if cur < 1 && from_player {
                xp = xp + reward;
            }
            if xp < i32::MIN as i64 || xp > i32::MAX as i64 {
                assert(!(i32::MIN <= xp_from_hits(hp as int, level as int, hits@, i + 1) <= i32::MAX));
                return false;
            }
            i = i + 1;
        }
        true
    }

    /// Applies the queued hits `(amount, dealt by the player)` to a
    /// creature in order, and returns the experience the player earns.
    pub fn apply_damage(pools: &mut Pools, hits: &Vec<(i32, bool)>) -> (xp_gain: i32)
        requires
            hits_fit(old(pools).hit_points.current as int, old(pools).level as int, hits@),
        ensures
            final(pools).hit_points.current == hp_after(old(pools).hit_points.current as int, hits@, hits@.len() as int),
            xp_gain == xp_from_hits(old(pools).hit_points.current as int, old(pools).level as int, hits@, hits@.len() as int),
            final(pools).hit_points.max == old(pools).hit_points.max,
            final(pools).mana == old(pools).mana,
            final(pools).xp == old(pools).xp,
            final(pools).level == old(pools).level,
            final(pools).god_mode == old(pools).god_mode,
    {
        let ghost hp0 = pools.hit_points.current as int;
        let mut xp_gain: i32 = 0;
        let mut i: usize = 0;
        while i < hits.len()
            invariant
                i <= hits@.len(),
                hits_fit(hp0, pools.level as int, hits@),
                pools.hit_points.current == hp_after(hp0, hits@, i as int),
                xp_gain == xp_from_hits(hp0, pools.level as int, hits@, i as int),
                pools.hit_points.max == old(pools).hit_points.max,
                pools.mana == old(pools).mana,
                pools.xp == old(pools).xp,
                pools.level == old(pools).level,
                pools.god_mode == old(pools).god_mode,
            decreases hits@.len() - i,
        {
            let (amount, from_player) = hits[i];
            assert(i32::MIN <= hp_after(hp0, hits@, i + 1) <= i32::MAX);
            pools.hit_points.current = pools.hit_points.current - amount;
            if pools.hit_points.current < 1 && from_player {
                assert(i32::MIN <= xp_from_hits(hp0, pools.level as int, hits@, i + 1) <= i32::MAX);
                xp_gain = xp_gain + pools.level * 100;
            }
            i = i + 1;
        }
        xp_gain
    }
}

/// The creatures below 1 hit point that are not the player, in order.
pub open spec fn dead_of(creatures: Seq<(EntityId, i32, bool)>) -> Seq<EntityId>
    decreases creatures.len(),
{
    if creatures.len() == 0 {
        Seq::empty()
    } else {
        let rest = dead_of(creatures.drop_last());
        let (e, hp, is_player) = creatures.last();
        if hp < 1 && !is_player {
            rest.push(e)
        } else {
            rest
        }
    }
}

/// The outcome of looking for the dead among creatures given as
/// `(entity, hit points, is the player)`: the non-player creatures to remove,
/// and whether the player has died, which ends the game.
pub fn find_the_dead(creatures: &Vec<(EntityId, i32, bool)>) -> (r: (Vec<EntityId>, bool))
    ensures
        r.0@ == dead_of(creatures@),
        r.1 == exists|i: int| 0 <= i < creatures@.len() && (#[trigger] creatures@[i]).1 < 1 && creatures@[i].2,
{
    let mut dead: Vec<EntityId> = Vec::new();
    let mut game_over = false;
    let mut i: usize = 0;
    while i < creatures.len()
        invariant
            i <= creatures@.len(),
            dead@ == dead_of(creatures@.subrange(0, i as int)),
            game_over == exists|j: int| 0 <= j < i && (#[trigger] creatures@[j]).1 < 1 && creatures@[j].2,
        decreases creatures@.len() - i,
    {
        assert(creatures@.subrange(0, i + 1).drop_last() =~= creatures@.subrange(0, i as int));
        let (e, hp, is_player) = creatures[i];
        if hp < 1 {
            if is_player {
                game_over = true;
            } else {
                dead.push(e);
            }
        }
        i = i + 1;
    }
    assert(creatures@.subrange(0, creatures@.len() as int) =~= creatures@);
    (dead, game_over)
}

/// The items in `links` (item, owner) owned by `owner`, in order.
pub open spec fn owned_items(links: Seq<(EntityId, EntityId)>, owner: EntityId) -> Seq<EntityId>
    decreases links.len(),
{
    if links.len() == 0 {
        Seq::empty()
    } else {
        let rest = owned_items(links.drop_last(), owner);
        if links.last().1 == owner {
            rest.push(links.last().0)
        } else {
            rest
        }
    }
}

/// Returns the items of `links` owned by `owner`.
fn collect_owned(links: &Vec<(EntityId, EntityId)>, owner: EntityId) -> (items: Vec<EntityId>)
    ensures
        items@ == owned_items(links@, owner),
{
    let mut items: Vec<EntityId> = Vec::new();
    let mut i: usize = 0;
    while i < links.len()
        invariant
            i <= links@.len(),
            items@ == owned_items(links@.subrange(0, i as int), owner),
        decreases links@.len() - i,
    {
        assert(links@.subrange(0, i + 1).drop_last() =~= links@.subrange(0, i as int));
        if links[i].1 == owner {
            items.push(links[i].0);
        }
        i = i + 1;
    }
    assert(links@.subrange(0, links@.len() as int) =~= links@);
    items
}

/// The loot a dead creature leaves: the item its loot table's roll named,
/// spawned where the creature stood. Nothing when the table named nothing
/// or the creature had no position.
pub fn loot_drop(tag: Option<String>, pos: Option<Position>) -> (spawn: Option<(String, Position)>)
    ensures
        spawn is Some <==> tag is Some && pos is Some,
        spawn matches Some(s) ==> s.0@ == tag->0@ && s.1 == pos->0,
{
    match (tag, pos) {
        (Some(t), Some(p)) => Some((t, p)),
        _ => None,
    }
}

/// What a dead creature drops where it stood: its equipped items, then the
/// items it carried. A creature without a position drops nothing.
pub fn drops_for_victim(
    victim: EntityId,
    pos: Option<Position>,
    equipped: &Vec<(EntityId, EntityId)>,
    carried: &Vec<(EntityId, EntityId)>,
) -> (drops: Vec<(EntityId, Position)>)
    ensures
        pos is None ==> drops@.len() == 0,
        pos matches Some(p) ==> drops@ == (owned_items(equipped@, victim) + owned_items(carried@, victim)).map_values(
            |e: EntityId| (e, p),
        ),
{
    let mut drops: Vec<(EntityId, Position)> = Vec::new();
    match pos {
        None => drops,
        Some(p) => {
            let mut items = collect_owned(equipped, victim);
            let mut more = collect_owned(carried, victim);
            items.append(&mut more);
            let mut i: usize = 0;
            while i < items.len()
                invariant
                    i <= items@.len(),
                    drops@ == items@.subrange(0, i as int).map_values(|e: EntityId| (e, p)),
                decreases items@.len() - i,
            {
                drops.push((items[i], p));
                i = i + 1;
                assert(drops@ =~= items@.subrange(0, i as int).map_values(|e: EntityId| (e, p)));
            }
            assert(items@.subrange(0, items@.len() as int) =~= items@);
            drops
        },
    }
}

/// Returns the log line for a creature that died: its name, then "is
/// dead".
pub fn death_message(name: &str) -> (line: String)
    ensures
        line@ == name@ + " is dead"@,
{
    let mut line = String::from_str(name);
    line.append(" is dead");
    line
}

} // verus!
