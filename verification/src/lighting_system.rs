use vstd::prelude::*;

use crate::components::Point;
use crate::map::{cell_index, lemma_cell_in_map, GameMap};

verus! {

/// Lights indoor levels from the light sources' fields of view.
pub struct LightingSystem;

impl LightingSystem {
    /// The cell a light source's visible tile lights up: tiles on the first
    /// row or column, or off the map, are skipped.
    pub fn lit_cell(map: &GameMap, t: Point) -> (cell: Option<usize>)
        requires
            map.wf(),
        ensures
            cell == (if 0 < t.x < map.width && 0 < t.y < map.height {
                Some(cell_index(map.width as int, t.x as int, t.y as int) as usize)
            } else {
                None
            }),
    {
        if t.x > 0 && t.x < map.width && t.y > 0 && t.y < map.height {
            proof {
                lemma_cell_in_map(map.width as int, map.height as int, t.x as int, t.y as int);
            }
            Some(map.xy_idx(t.x, t.y))
        } else {
            None
        }
    }
}

} // verus!
