use vstd::prelude::*;

use crate::components::{Pool, Pools};
use crate::text::{framed, framed_number};

verus! {

/// What a hit leads to beyond the lost hit points.
#[derive(PartialEq, Eq, Structural, Copy, Clone, Debug)]
pub struct DamageOutcome {
    /// The hit landed: a bloodstain and a hit particle are spawned.
    pub landed: bool,
    /// The target dropped below 1 hit point: its death is processed.
    pub died: bool,
}

/// Inflicts `amount` damage. A target in god mode is untouched; otherwise it
/// loses the hit points, and it dies when left with fewer than 1.
pub fn inflict_damage(pools: &mut Pools, amount: i32) -> (outcome: DamageOutcome)
    requires
        old(pools).god_mode || i32::MIN <= old(pools).hit_points.current - amount <= i32::MAX,
    ensures
        old(pools).god_mode ==> *final(pools) == *old(pools) && outcome == (DamageOutcome { landed: false, died: false }),
        !old(pools).god_mode ==> {
            &&& final(pools).hit_points.current == old(pools).hit_points.current - amount
            &&& final(pools).hit_points.max == old(pools).hit_points.max
            &&& final(pools).mana == old(pools).mana
            &&& final(pools).xp == old(pools).xp
            &&& final(pools).level == old(pools).level
            &&& final(pools).god_mode == old(pools).god_mode
            &&& outcome.landed
            &&& outcome.died == (final(pools).hit_points.current < 1)
        },
{
    if pools.god_mode {
        return DamageOutcome { landed: false, died: false };
    }
    pools.hit_points.current = pools.hit_points.current - amount;
    DamageOutcome { landed: true, died: pools.hit_points.current < 1 }
}

/// Adds `amount` to a pool without going over its maximum.
pub open spec fn refilled(pool: Pool, amount: int) -> Pool {
    Pool { max: pool.max, current: if pool.max < pool.current + amount { pool.max } else { (pool.current + amount) as i32 } }
}

/// Heals `amount` hit points, up to the maximum.
pub fn heal_damage(pools: &mut Pools, amount: i32)
    requires
        old(pools).hit_points.current + amount <= i32::MAX,
        i32::MIN <= old(pools).hit_points.current + amount,
    ensures
        *final(pools) == (Pools { hit_points: refilled(old(pools).hit_points, amount as int), ..*old(pools) }),
{
    let total = pools.hit_points.current + amount;
    pools.hit_points.current = if pools.hit_points.max < total { pools.hit_points.max } else { total };
}

/// Restores `amount` mana, up to the maximum.
pub fn restore_mana(pools: &mut Pools, amount: i32)
    requires
        old(pools).mana.current + amount <= i32::MAX,
        i32::MIN <= old(pools).mana.current + amount,
    ensures
        *final(pools) == (Pools { mana: refilled(old(pools).mana, amount as int), ..*old(pools) }),
{
    let total = pools.mana.current + amount;
    pools.mana.current = if pools.mana.max < total { pools.mana.max } else { total };
}

/// The experience a creature needs to leave `level`.
pub open spec fn xp_to_level_up(level: int) -> int {
    level * 1000
}

/// Leaving a level takes a thousand experience per level: exactly those
/// totals reach it.
pub proof fn lemma_level_threshold(level: int, xp: int)
    ensures
        xp >= xp_to_level_up(level) <==> xp >= 1000 * level,
        level >= 1 ==> xp_to_level_up(level + 1) - xp_to_level_up(level) == 1000,
{
}

/// Adds `xp_gain` experience and goes up one level when the total reaches a
/// thousand per current level. Returns whether the level went up (the
/// caller then recomputes the maximum hit points and mana for it).
pub fn award_xp(pools: &mut Pools, xp_gain: i32) -> (leveled_up: bool)
    requires
        old(pools).xp + xp_gain <= i32::MAX,
        i32::MIN <= old(pools).xp + xp_gain,
        i32::MIN <= old(pools).level * 1000 <= i32::MAX,
        old(pools).level < i32::MAX,
    ensures
        final(pools).xp == old(pools).xp + xp_gain,
        leveled_up == (final(pools).xp >= xp_to_level_up(old(pools).level as int)),
        leveled_up == (old(pools).xp + xp_gain >= old(pools).level * 1000),
        final(pools).level == old(pools).level + if leveled_up { 1int } else { 0int },
        final(pools).hit_points == old(pools).hit_points,
        final(pools).mana == old(pools).mana,
        final(pools).god_mode == old(pools).god_mode,
{
    pools.xp = pools.xp + xp_gain;
    if pools.xp >= pools.level * 1000 {
        pools.level = pools.level + 1;
        true
    } else {
        false
    }
}

/// On going up a level, the pools grow to the maxima the new level gives
/// and are filled up.
pub fn refill_on_level_up(pools: &mut Pools, hp_max: i32, mana_max: i32)
    ensures
        *final(pools) == (Pools {
            hit_points: Pool { max: hp_max, current: hp_max },
            mana: Pool { max: mana_max, current: mana_max },
            ..*old(pools)
        }),
{
    pools.hit_points.max = hp_max;
    pools.hit_points.current = hp_max;
    pools.mana.max = mana_max;
    pools.mana.current = mana_max;
}

/// Returns the log line announcing a new level.
pub fn level_up_message(level: i32) -> (s: String)
    ensures
        s@ == framed("Congratulations, you are now level "@, level as int, Seq::empty()),
{
    proof {
        reveal_strlit("");
    }
    framed_number("Congratulations, you are now level ", level, "")
}

/// The rows, among the first `n` counted up from `player_y`, that lie
/// below row 2 of the screen, in that order.
pub open spec fn sparkle_rows(player_y: int, n: int) -> Seq<i32>
    decreases n,
{
    if n <= 0 {
        Seq::empty()
    } else {
        let rest = sparkle_rows(player_y, n - 1);
        let y = player_y - (n - 1);
        if y > 1 {
            rest.push(y as i32)
        } else {
            rest
        }
    }
}

/// Returns the rows of the column of sparkles over a player who went up a
/// level at row `player_y`: of the ten rows from the player's up, those
/// below row 2.
pub fn level_up_rows(player_y: i32) -> (rows: Vec<i32>)
    requires
        player_y >= i32::MIN + 10,
    ensures
        rows@ == sparkle_rows(player_y as int, 10),
{
    let mut rows: Vec<i32> = Vec::new();
    let mut i: i32 = 0;
    while i < 10
        invariant
            0 <= i <= 10,
            player_y >= i32::MIN + 10,
            rows@ == sparkle_rows(player_y as int, i as int),
        decreases 10 - i,
    {
        if player_y - i > 1 {
            rows.push(player_y - i);
        }
        i = i + 1;
    }
    rows
}

} // verus!
