use std::collections::HashMap;
use vstd::prelude::*;
use vstd::std_specs::hash::group_hash_axioms;

use crate::components::{EntityId, OtherLevelPosition, Position};
use crate::map::{cell_index, in_bounds, lemma_cell_in_map, GameMap, TileType};

verus! {

broadcast use group_hash_axioms;

/// Every level visited so far, by depth, and the names of the magic items
/// the player has identified.
pub struct MasterDungeonMap {
    pub maps: HashMap<i32, GameMap>,
    pub identified_items: Vec<String>,
}

impl MasterDungeonMap {
    /// Every stored level is a well-formed map stored under its own depth.
    pub open spec fn wf(&self) -> bool {
        forall|d: i32| #[trigger] self.maps@.contains_key(d) ==> self.maps@[d].wf()
    }

    /// The level stored for `depth`, if any.
    pub open spec fn stored(&self, depth: i32) -> Option<GameMap> {
        if self.maps@.contains_key(depth) {
            Some(self.maps@[depth])
        } else {
            None
        }
    }

    /// `after` holds what `self` holds, with `map` stored under its depth.
    pub open spec fn stores(&self, after: &MasterDungeonMap, map: &GameMap) -> bool {
        &&& after.maps@.contains_key(map.depth)
        &&& after.maps@[map.depth].same_as(map)
        &&& forall|d: i32| d != map.depth ==> #[trigger] after.stored(d) == self.stored(d)
        &&& after.identified_items@ == self.identified_items@
    }

    /// The names identified so far.
    pub open spec fn identified(&self) -> Set<Seq<char>> {
        Set::new(|s: Seq<char>| exists|i: int| 0 <= i < self.identified_items@.len() && (#[trigger] self.identified_items@[i])@ == s)
    }

    pub fn new() -> (dm: MasterDungeonMap)
        ensures
            dm.wf(),
            dm.maps@ == Map::<i32, GameMap>::empty(),
            dm.identified() == Set::<Seq<char>>::empty(),
    {
        let dm = MasterDungeonMap { maps: HashMap::new(), identified_items: Vec::new() };
        assert(dm.identified() =~= Set::<Seq<char>>::empty());
        dm
    }

    /// Stores a copy of `map` under its depth, replacing any earlier one.
    pub fn store_map(&mut self, map: &GameMap)
        requires
            old(self).wf(),
            map.wf(),
        ensures
            final(self).wf(),
            old(self).stores(&*final(self), map),
    {
        let copy = map.clone_map();
        self.maps.insert(map.depth, copy);
    }

    /// Returns a copy of the level stored for `depth`, if any.
    pub fn get_map(&self, depth: i32) -> (m: Option<GameMap>)
        requires
            self.wf(),
        ensures
            m is Some <==> self.maps@.contains_key(depth),
            m matches Some(m) ==> m.wf() && m.same_as(&self.maps@[depth]),
    {
        match self.maps.get(&depth) {
            Some(m) => Some(m.clone_map()),
            None => None,
        }
    }

    /// Returns whether the item named `name` has been identified.
    pub fn is_identified(&self, name: &String) -> (b: bool)
        ensures
            b == self.identified().contains(name@),
    {
        let mut i: usize = 0;
        while i < self.identified_items.len()
            invariant
                i <= self.identified_items@.len(),
                forall|j: int| 0 <= j < i ==> (#[trigger] self.identified_items@[j])@ != name@,
            decreases self.identified_items@.len() - i,
        {
            if self.identified_items[i] == *name {
                proof {
                    assert(self.identified().contains(name@));
                }
                return true;
            }
            i = i + 1;
        }
        false
    }

    /// Returns whether a level of depth `depth` has been stored, so that
    /// going there returns to it rather than building a new one.
    pub fn has_level(&self, depth: i32) -> (b: bool)
        ensures
            b == self.maps@.contains_key(depth),
    {
        self.maps.contains_key(&depth)
    }

    /// Records that the item named `name` has been identified.
    pub fn identify(&mut self, name: String)
        ensures
            final(self).identified() == old(self).identified().insert(name@),
            final(self).maps@ == old(self).maps@,
    {
        if !self.is_identified(&name) {
            let ghost n = name@;
            self.identified_items.push(name);
            proof {
                assert forall|t: Seq<char>| #[trigger] self.identified().contains(t) == old(self).identified().insert(n).contains(t) by {
                    if t == n {
                        assert(self.identified_items@[old(self).identified_items@.len() as int]@ == n);
                    }
                    if old(self).identified().contains(t) {
                        let k = choose|k: int| 0 <= k < old(self).identified_items@.len() && (#[trigger] old(self).identified_items@[k])@ == t;
                        assert(self.identified_items@[k]@ == t);
                    }
                    if self.identified().contains(t) && t != n {
                        let k = choose|k: int| 0 <= k < self.identified_items@.len() && (#[trigger] self.identified_items@[k])@ == t;
                        assert(old(self).identified_items@[k]@ == t);
                    }
                }
                assert(self.identified() =~= old(self).identified().insert(n));
            }
        } else {
            assert(old(self).identified().insert(name@) =~= old(self).identified());
        }
    }
}

/// Storing a level and then asking for its depth gives that level back, and
/// leaves every other depth as it was.
pub proof fn lemma_get_after_store(before: MasterDungeonMap, after: MasterDungeonMap, map: GameMap, depth: i32)
    requires
        before.stores(&after, &map),
    ensures
        after.stored(map.depth) matches Some(m) && m.same_as(&map),
        depth != map.depth ==> after.stored(depth) == before.stored(depth),
{
}

/// The cell the player arrives on when going to an already visited level:
/// the last up staircase when going down, the last down staircase when
/// going up.
pub open spec fn stairs_of(offset: int) -> TileType {
    if offset < 0 {
        TileType::DownStairs
    } else {
        TileType::UpStairs
    }
}

/// The index of the last cell of `tiles` holding `tile`, if any.
pub open spec fn last_index_of(tiles: Seq<TileType>, tile: TileType) -> Option<int>
    decreases tiles.len(),
{
    if tiles.len() == 0 {
        None
    } else if tiles.last() == tile {
        Some(tiles.len() - 1)
    } else {
        last_index_of(tiles.drop_last(), tile)
    }
}

/// The index found is an index of a matching cell.
pub proof fn lemma_last_index_in_range(tiles: Seq<TileType>, tile: TileType)
    ensures
        last_index_of(tiles, tile) matches Some(i) ==> 0 <= i < tiles.len() && tiles[i] == tile,
    decreases tiles.len(),
{
    if tiles.len() > 0 {
        lemma_last_index_in_range(tiles.drop_last(), tile);
    }
}

/// Returns where the player arrives on a stored level reached by moving
/// `offset` levels: the coordinates of the last matching staircase, or
/// nothing if the level has none.
pub fn arrival_position(map: &GameMap, offset: i32) -> (pos: Option<(i32, i32)>)
    requires
        map.wf(),
    ensures
        pos == (match last_index_of(map.tiles@, stairs_of(offset as int)) {
            Some(i) => Some(((i % map.width as int) as i32, (i / map.width as int) as i32)),
            None => None::<(i32, i32)>,
        }),
{
    let stair_type = if offset < 0 {
        TileType::DownStairs
    } else {
        TileType::UpStairs
    };
    let mut found: Option<usize> = None;
    let mut i: usize = 0;
    while i < map.tiles.len()
        invariant
            map.wf(),
            i <= map.tiles@.len(),
            stair_type == stairs_of(offset as int),
            found == (match last_index_of(map.tiles@.subrange(0, i as int), stair_type) {
                Some(k) => Some(k as usize),
                None => None::<usize>,
            }),
            found matches Some(k) ==> k < i,
        decreases map.tiles@.len() - i,
    {
        let ghost prefix = map.tiles@.subrange(0, i as int);
        assert(map.tiles@.subrange(0, i + 1).drop_last() =~= prefix);
        if map.tiles[i] == stair_type {
            found = Some(i);
        }
        i = i + 1;
    }
    assert(map.tiles@.subrange(0, map.tiles@.len() as int) =~= map.tiles@);
    proof {
        lemma_last_index_in_range(map.tiles@, stair_type);
    }
    match found {
        Some(k) => {
            let xy = map.idx_xy(k);
            proof {
                vstd::arithmetic::div_mod::lemma_mod_bound(k as int, map.width as int);
                vstd::arithmetic::div_mod::lemma_div_is_ordered_by_denominator(k as int, 1, map.width as int);
                vstd::arithmetic::div_mod::lemma_div_pos_is_pos(k as int, map.width as int);
            }
            Some(xy)
        },
        None => None,
    }
}

/// The other-level positions recorded when leaving level `depth`: one for
/// every positioned entity but the player, in the same order.
pub open spec fn frozen(positions: Seq<(EntityId, Position)>, player: EntityId, depth: i32) -> Seq<(EntityId, OtherLevelPosition)>
    decreases positions.len(),
{
    if positions.len() == 0 {
        Seq::empty()
    } else {
        let rest = frozen(positions.drop_last(), player, depth);
        let (e, p) = positions.last();
        if e == player {
            rest
        } else {
            rest.push((e, OtherLevelPosition { x: p.x, y: p.y, depth }))
        }
    }
}

/// The positions restored when arriving on level `depth`: one for every
/// entity but the player recorded on that level, in the same order.
pub open spec fn thawed(others: Seq<(EntityId, OtherLevelPosition)>, player: EntityId, depth: i32) -> Seq<(EntityId, Position)>
    decreases others.len(),
{
    if others.len() == 0 {
        Seq::empty()
    } else {
        let rest = thawed(others.drop_last(), player, depth);
        let (e, p) = others.last();
        if p.depth != depth || e == player {
            rest
        } else {
            rest.push((e, Position { x: p.x, y: p.y }))
        }
    }
}

/// The entries of `positions` that do not belong to the player.
pub open spec fn without_player(positions: Seq<(EntityId, Position)>, player: EntityId) -> Seq<(EntityId, Position)>
    decreases positions.len(),
{
    if positions.len() == 0 {
        Seq::empty()
    } else {
        let rest = without_player(positions.drop_last(), player);
        if positions.last().0 == player {
            rest
        } else {
            rest.push(positions.last())
        }
    }
}

/// Leaving the current level: records where every entity but the player
/// stands, so that the positions can be removed from the world.
pub fn freeze_level_entities(positions: &Vec<(EntityId, Position)>, player: EntityId, depth: i32) -> (frozen_positions: Vec<(EntityId, OtherLevelPosition)>)
    ensures
        frozen_positions@ == frozen(positions@, player, depth),
{
    let mut out: Vec<(EntityId, OtherLevelPosition)> = Vec::new();
    let mut i: usize = 0;
    while i < positions.len()
        invariant
            i <= positions@.len(),
            out@ == frozen(positions@.subrange(0, i as int), player, depth),
        decreases positions@.len() - i,
    {
        assert(positions@.subrange(0, i + 1).drop_last() =~= positions@.subrange(0, i as int));
        let (e, p) = positions[i];
        if e != player {
            out.push((e, OtherLevelPosition { x: p.x, y: p.y, depth }));
        }
        i = i + 1;
    }
    assert(positions@.subrange(0, positions@.len() as int) =~= positions@);
    out
}

/// Arriving on level `depth`: the positions to restore for the entities
/// recorded on that level, the player excepted.
pub fn thaw_level_entities(others: &Vec<(EntityId, OtherLevelPosition)>, player: EntityId, depth: i32) -> (restored: Vec<(EntityId, Position)>)
    ensures
        restored@ == thawed(others@, player, depth),
{
    let mut out: Vec<(EntityId, Position)> = Vec::new();
    let mut i: usize = 0;
    while i < others.len()
        invariant
            i <= others@.len(),
            out@ == thawed(others@.subrange(0, i as int), player, depth),
        decreases others@.len() - i,
    {
        assert(others@.subrange(0, i + 1).drop_last() =~= others@.subrange(0, i as int));
        let (e, p) = others[i];
        if !(p.depth != depth || e == player) {
            out.push((e, Position { x: p.x, y: p.y }));
        }
        i = i + 1;
    }
    assert(others@.subrange(0, others@.len() as int) =~= others@);
    out
}

/// Leaving a level and coming back to it restores every entity but the
/// player to where it stood.
pub proof fn lemma_thaw_after_freeze(positions: Seq<(EntityId, Position)>, player: EntityId, depth: i32)
    ensures
        thawed(frozen(positions, player, depth), player, depth) == without_player(positions, player),
    decreases positions.len(),
{
    if positions.len() > 0 {
        lemma_thaw_after_freeze(positions.drop_last(), player, depth);
        let rest = frozen(positions.drop_last(), player, depth);
        let (e, p) = positions.last();
        if e != player {
            let f = rest.push((e, OtherLevelPosition { x: p.x, y: p.y, depth }));
            assert(f.drop_last() =~= rest);
        }
    }
}

/// A new level below the first gets an up staircase where the player
/// starts; the first level has none, and a level without a start is left
/// as it is.
pub fn place_up_stairs(map: &mut GameMap, depth: i32, start: Option<Position>)
    requires
        old(map).wf(),
        start matches Some(p) ==> in_bounds(old(map).width as int, old(map).height as int, p.x as int, p.y as int),
    ensures
        final(map).wf(),
        final(map).same_but_tiles(&*old(map)),
        final(map).tiles@ == (match start {
            Some(p) => if depth > 1 {
                old(map).tiles@.update(cell_index(old(map).width as int, p.x as int, p.y as int), TileType::UpStairs)
            } else {
                old(map).tiles@
            },
            None => old(map).tiles@,
        }),
{
    if depth > 1 {
        if let Some(p) = start {
            proof {
                lemma_cell_in_map(map.width as int, map.height as int, p.x as int, p.y as int);
            }
            let idx = map.xy_idx(p.x, p.y);
            map.tiles.set(idx, TileType::UpStairs);
        }
    }
}

} // verus!
