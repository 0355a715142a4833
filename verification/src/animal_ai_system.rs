use vstd::prelude::*;

use crate::components::{EntityId, Point};
use crate::map::{cell_index, GameMap};

verus! {

/// Herbivores flee from whatever they see; carnivores hunt herbivores and
/// the player.
pub struct AnimalAISystem;

/// Within melee reach: closer than one and a half cells. For whole-cell
/// offsets that is a squared distance of at most 2 (the eight neighbours).
pub open spec fn in_reach(dx: int, dy: int) -> bool {
    dx * dx + dy * dy <= 2
}

/// Whether the row-major index of `p` lies inside the map, its row offset
/// fitting `i32` (a point past the right edge has the index of a cell of
/// the next row).
pub open spec fn index_in_map(map: &GameMap, p: Point) -> bool {
    &&& i32::MIN <= p.y * map.width <= i32::MAX
    &&& 0 <= cell_index(map.width as int, p.x as int, p.y as int) < map.cell_count()
}

/// The cells, among `visible`, holding something that is not an item, one
/// entry per such thing.
pub open spec fn threat_cells(map: &GameMap, visible: Seq<Point>, items: Seq<EntityId>) -> Seq<usize>
    decreases visible.len(),
{
    if visible.len() == 0 {
        Seq::empty()
    } else {
        let rest = threat_cells(map, visible.drop_last(), items);
        let p = visible.last();
        let i = cell_index(map.width as int, p.x as int, p.y as int);
        rest + non_items_in(map.tile_content@[i]@, items).map_values(|e: EntityId| i as usize)
    }
}

/// The entities of `content` that are not among `items`.
pub open spec fn non_items_in(content: Seq<EntityId>, items: Seq<EntityId>) -> Seq<EntityId>
    decreases content.len(),
{
    if content.len() == 0 {
        Seq::empty()
    } else {
        let rest = non_items_in(content.drop_last(), items);
        if items.contains(content.last()) {
            rest
        } else {
            rest.push(content.last())
        }
    }
}

impl AnimalAISystem {
    /// Whether a carnivore `dx`, `dy` cells from its prey can bite it.
    pub fn in_melee_reach(dx: i32, dy: i32) -> (b: bool)
        ensures
            b == in_reach(dx as int, dy as int),
    {
        let (x, y) = (dx as i128, dy as i128);
        assert(0 <= x * x <= 0x4000_0000_0000_0000) by (nonlinear_arith)
            requires
                -0x8000_0000 <= x <= 0x8000_0000,
        ;
        assert(0 <= y * y <= 0x4000_0000_0000_0000) by (nonlinear_arith)
            requires
                -0x8000_0000 <= y <= 0x8000_0000,
        ;
        x * x + y * y <= 2
    }

    /// The cells a herbivore runs away from: for every visible cell, one
    /// entry per non-item entity standing there.
    pub fn threats(map: &GameMap, visible: &Vec<Point>, items: &Vec<EntityId>) -> (cells: Vec<usize>)
        requires
            map.wf(),
            forall|k: int| 0 <= k < visible@.len() ==> index_in_map(map, #[trigger] visible@[k]),
        ensures
            cells@ == threat_cells(map, visible@, items@),
    {
        let mut cells: Vec<usize> = Vec::new();
        let mut i: usize = 0;
        while i < visible.len()
            invariant
                map.wf(),
                i <= visible@.len(),
                forall|k: int| 0 <= k < visible@.len() ==> index_in_map(map, #[trigger] visible@[k]),
                cells@ == threat_cells(map, visible@.subrange(0, i as int), items@),
            decreases visible@.len() - i,
        {
            assert(visible@.subrange(0, i + 1).drop_last() =~= visible@.subrange(0, i as int));
            let p = visible[i];
            assert(index_in_map(map, visible@[i as int]));
            let view_idx = map.xy_idx(p.x, p.y);
            let content = &map.tile_content[view_idx];
            let ghost prefix = cells@;
            let mut j: usize = 0;
            while j < content.len()
                invariant
                    j <= content@.len(),
                    cells@ == prefix + non_items_in(content@.subrange(0, j as int), items@).map_values(|e: EntityId| view_idx),
                decreases content@.len() - j,
            {
                let e = content[j];
                let mut is_item = false;
                let mut k: usize = 0;
                while k < items.len()
                    invariant
                        k <= items@.len(),
                        is_item == exists|m: int| 0 <= m < k && items@[m] == e,
                    decreases items@.len() - k,
                {
                    if items[k] == e {
                        is_item = true;
                    }
                    k = k + 1;
                }
                let ghost before = cells@;
                assert(content@.subrange(0, j + 1).drop_last() =~= content@.subrange(0, j as int));
                if !is_item {
                    cells.push(view_idx);
                }
                proof {
                    assert(is_item == items@.contains(e));
                    let s0 = content@.subrange(0, j as int);
                    let s1 = content@.subrange(0, j + 1);
                    assert(s1.last() == e);
                    assert(s1.drop_last() == s0);
                    assert(non_items_in(s1, items@) == if !items@.contains(e) {
                        non_items_in(s0, items@).push(e)
                    } else {
                        non_items_in(s0, items@)
                    });
                    if !is_item {
                        assert(non_items_in(s0, items@).push(e).map_values(|x: EntityId| view_idx) =~= non_items_in(s0, items@).map_values(|x: EntityId| view_idx).push(view_idx));
                    }
                    assert(cells@ =~= prefix + non_items_in(content@.subrange(0, j + 1), items@).map_values(|x: EntityId| view_idx));
                }
                j = j + 1;
            }
            assert(content@.subrange(0, content@.len() as int) =~= content@);
            i = i + 1;
        }
        assert(visible@.subrange(0, visible@.len() as int) =~= visible@);
        cells
    }
}

/// What a carnivore does about the prey it sees.
pub enum CarnivoreAction {
    /// Bite this prey, the last one seen within reach.
    Attack { target: EntityId },
    /// Head for these cells, where the prey out of reach stands.
    Chase { cells: Vec<usize> },
    /// Nothing to hunt.
    Idle,
}

/// The prey within reach that is bitten (the last one seen) and the cells
/// of the prey out of reach, over the prey `(cell, dx, dy, entity)` seen
/// so far.
pub open spec fn hunt(prey: Seq<(usize, i32, i32, EntityId)>) -> (Option<EntityId>, Seq<usize>)
    decreases prey.len(),
{
    if prey.len() == 0 {
        (None, Seq::empty())
    } else {
        let (bite, toward) = hunt(prey.drop_last());
        let (cell, dx, dy, e) = prey.last();
        if in_reach(dx as int, dy as int) {
            (Some(e), toward)
        } else {
            (bite, toward.push(cell))
        }
    }
}

impl AnimalAISystem {
    /// Given the prey a carnivore sees, as `(cell, dx, dy, entity)` with the
    /// offsets from the carnivore: it bites the last prey within reach if
    /// any; otherwise it chases the prey it saw, if any.
    pub fn carnivore_plan(prey: &Vec<(usize, i32, i32, EntityId)>) -> (action: CarnivoreAction)
        ensures
            ({
                let (bite, toward) = hunt(prey@);
                match action {
                    CarnivoreAction::Attack { target } => bite == Some(target),
                    CarnivoreAction::Chase { cells } => bite is None && toward.len() > 0 && cells@ == toward,
                    CarnivoreAction::Idle => bite is None && toward.len() == 0,
                }
            }),
    {
        let mut bite: Option<EntityId> = None;
        let mut toward: Vec<usize> = Vec::new();
        let mut i: usize = 0;
        while i < prey.len()
            invariant
                i <= prey@.len(),
                (bite, toward@) == hunt(prey@.subrange(0, i as int)),
            decreases prey@.len() - i,
        {
            assert(prey@.subrange(0, i + 1).drop_last() =~= prey@.subrange(0, i as int));
            let (cell, dx, dy, e) = prey[i];
            if Self::in_melee_reach(dx, dy) {
                bite = Some(e);
            } else {
                toward.push(cell);
            }
            i = i + 1;
        }
        assert(prey@.subrange(0, prey@.len() as int) =~= prey@);
        match bite {
            Some(target) => CarnivoreAction::Attack { target },
            None => if toward.len() > 0 {
                CarnivoreAction::Chase { cells: toward }
            } else {
                CarnivoreAction::Idle
            },
        }
    }
}

} // verus!
