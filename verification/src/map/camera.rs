use vstd::prelude::*;

use crate::map::{cell_index, lemma_cell_in_map, GameMap};

verus! {

/// The width and height, in cells, of the part of the map shown on screen.
pub const PANE_WIDTH: i32 = 44;

/// The map window around the player: `(min_x, max_x, min_y, max_y)`, with
/// the player in the middle of a `PANE_WIDTH` square (max bounds excluded).
pub open spec fn screen_bounds(px: int, py: int) -> (int, int, int, int) {
    let min_x = px - PANE_WIDTH / 2;
    let min_y = py - PANE_WIDTH / 2;
    (min_x, min_x + PANE_WIDTH, min_y, min_y + PANE_WIDTH)
}

/// Returns the window of map cells drawn around the player at
/// `(player_x, player_y)`.
pub fn get_screen_bounds(player_x: i32, player_y: i32) -> (b: (i32, i32, i32, i32))
    requires
        i32::MIN + PANE_WIDTH / 2 <= player_x <= i32::MAX - PANE_WIDTH / 2,
        i32::MIN + PANE_WIDTH / 2 <= player_y <= i32::MAX - PANE_WIDTH / 2,
    ensures
        (b.0 as int, b.1 as int, b.2 as int, b.3 as int) == screen_bounds(player_x as int, player_y as int),
{
    let (x_chars, y_chars) = (PANE_WIDTH, PANE_WIDTH);

    let center_x = x_chars / 2;
    let center_y = y_chars / 2;

    let min_x = player_x - center_x;
    let max_x = min_x + x_chars;
    let min_y = player_y - center_y;
    let max_y = min_y + y_chars;

    (min_x, max_x, min_y, max_y)
}

/// What the camera draws for one map cell.
#[derive(PartialEq, Eq, Structural, Copy, Clone, Debug)]
pub enum CameraCell {
    /// A revealed cell of the map's inner area, drawn from its tile index.
    Tile { idx: usize },
    /// A cell of the inner area the player has not seen: nothing is drawn.
    Unseen,
    /// A cell on or beyond the map's outer ring: drawn as the boundary dot.
    Boundary,
}

impl GameMap {
    /// The decision for map cell `(tx, ty)`.
    pub open spec fn camera_cell_at(&self, tx: int, ty: int) -> CameraCell {
        if 0 < tx < self.width - 1 && 0 < ty < self.height - 1 {
            let i = cell_index(self.width as int, tx, ty);
            if self.revealed_tiles@[i] {
                CameraCell::Tile { idx: i as usize }
            } else {
                CameraCell::Unseen
            }
        } else {
            CameraCell::Boundary
        }
    }

    /// Decides what the camera draws for map cell `(tx, ty)`.
    pub fn camera_cell(&self, tx: i32, ty: i32) -> (c: CameraCell)
        requires
            self.wf(),
        ensures
            c == self.camera_cell_at(tx as int, ty as int),
    {
        let map_width = self.width - 1;
        let map_height = self.height - 1;
        if tx > 0 && tx < map_width && ty > 0 && ty < map_height {
            proof {
                lemma_cell_in_map(self.width as int, self.height as int, tx as int, ty as int);
            }
            let idx = self.xy_idx(tx, ty);
            if self.revealed_tiles[idx] {
                CameraCell::Tile { idx }
            } else {
                CameraCell::Unseen
            }
        } else {
            CameraCell::Boundary
        }
    }

    /// Where an entity standing on map cell `(x, y)` is drawn on screen when
    /// the window starts at `(min_x, min_y)`: only when the cell is in view
    /// and the screen position lies strictly inside the map's extent.
    pub open spec fn entity_screen_pos_of(&self, x: int, y: int, min_x: int, min_y: int) -> Option<(i32, i32)> {
        let sx = x - min_x;
        let sy = y - min_y;
        if self.visible_tiles@[cell_index(self.width as int, x, y)] && 0 < sx < self.width - 1 && 0 < sy
            < self.height - 1 {
            Some((sx as i32, sy as i32))
        } else {
            None
        }
    }

    /// Returns where to draw an entity standing on map cell `(x, y)`.
    pub fn entity_screen_pos(&self, x: i32, y: i32, min_x: i32, min_y: i32) -> (p: Option<(i32, i32)>)
        requires
            self.wf(),
            i32::MIN <= y * self.width <= i32::MAX,
            0 <= cell_index(self.width as int, x as int, y as int) < self.cell_count(),
            i32::MIN <= x - min_x <= i32::MAX,
            i32::MIN <= y - min_y <= i32::MAX,
        ensures
            p == self.entity_screen_pos_of(x as int, y as int, min_x as int, min_y as int),
    {
        let idx = self.xy_idx(x, y);
        if self.visible_tiles[idx] {
            let sx = x - min_x;
            let sy = y - min_y;
            if sx > 0 && sx < self.width - 1 && sy > 0 && sy < self.height - 1 {
                return Some((sx, sy));
            }
        }
        None
    }
}

impl GameMap {
    /// Where one cell of a multi-cell entity, on map cell `(x, y)`, is drawn:
    /// as for a single-cell entity, then one cell right and down.
    pub open spec fn sized_cell_screen_pos_of(&self, x: int, y: int, min_x: int, min_y: int) -> Option<(i32, i32)> {
        match self.entity_screen_pos_of(x, y, min_x, min_y) {
            Some((sx, sy)) => Some(((sx + 1) as i32, (sy + 1) as i32)),
            None => None,
        }
    }

    /// Returns where to draw one cell of a multi-cell entity.
    pub fn sized_cell_screen_pos(&self, x: i32, y: i32, min_x: i32, min_y: i32) -> (p: Option<(i32, i32)>)
        requires
            self.wf(),
            i32::MIN <= y * self.width <= i32::MAX,
            0 <= cell_index(self.width as int, x as int, y as int) < self.cell_count(),
            i32::MIN <= x - min_x <= i32::MAX,
            i32::MIN <= y - min_y <= i32::MAX,
        ensures
            p == self.sized_cell_screen_pos_of(x as int, y as int, min_x as int, min_y as int),
    {
        match self.entity_screen_pos(x, y, min_x, min_y) {
            Some((sx, sy)) => Some((sx + 1, sy + 1)),
            None => None,
        }
    }
}

/// Whether entity `a` is drawn before entity `b`, given their render
/// orders: higher orders first, and among equal orders the one listed
/// first.
pub open spec fn drawn_before(orders: Seq<i32>, a: usize, b: usize) -> bool {
    orders[a as int] > orders[b as int] || (orders[a as int] == orders[b as int] && a < b)
}

/// Whether `seq` lists the entities `0..n` in the order they are drawn.
pub open spec fn is_draw_order(orders: Seq<i32>, seq: Seq<usize>, n: int) -> bool {
    &&& seq.len() == n
    &&& forall|p: int| 0 <= p < seq.len() ==> #[trigger] seq[p] < n
    &&& forall|j: usize| j < n ==> #[trigger] seq.contains(j)
    &&& forall|p: int, q: int| 0 <= p < q < seq.len() ==> drawn_before(orders, #[trigger] seq[p], #[trigger] seq[q])
}

/// Returns the order in which the entities with render orders `orders` are
/// drawn, as their indices: each entity once, higher render orders first,
/// entities of equal order in the order they are listed (so that lower
/// ones are drawn over).
pub fn draw_order(orders: &Vec<i32>) -> (seq: Vec<usize>)
    ensures
        is_draw_order(orders@, seq@, orders@.len() as int),
{
    let mut seq: Vec<usize> = Vec::new();
    let mut i: usize = 0;
    while i < orders.len()
        invariant
            i <= orders@.len(),
            is_draw_order(orders@, seq@, i as int),
        decreases orders@.len() - i,
    {
        let key = orders[i];
        let mut p: usize = 0;
        while p < seq.len() && orders[seq[p]] >= key
            invariant
                p <= seq@.len(),
                is_draw_order(orders@, seq@, i as int),
                i < orders@.len(),
                key == orders@[i as int],
                forall|q: int| 0 <= q < p ==> orders@[#[trigger] seq@[q] as int] >= key,
            decreases seq@.len() - p,
        {
            p = p + 1;
        }
        let ghost before = seq@;
        proof {
            assert forall|q: int| p <= q < before.len() implies orders@[#[trigger] before[q] as int] < key by {
                if p < before.len() {
                    assert(orders@[before[p as int] as int] < key);
                    if q > p {
                        assert(drawn_before(orders@, before[p as int], before[q]));
                    }
                }
            }
        }
        seq.insert(p, i);
        proof {
            assert(seq@ == before.insert(p as int, i));
            assert forall|j: usize| j < i + 1 implies #[trigger] seq@.contains(j) by {
                if j == i {
                    assert(seq@[p as int] == j);
                } else {
                    assert(before.contains(j));
                    let r0 = choose|r: int| 0 <= r < before.len() && before[r] == j;
                    if r0 < p {
                        assert(seq@[r0] == j);
                    } else {
                        assert(seq@[r0 + 1] == j);
                    }
                }
            }
            assert forall|a: int, b: int| 0 <= a < b < seq@.len() implies drawn_before(orders@, #[trigger] seq@[a], #[trigger] seq@[b]) by {
                if a < p && b < p {
                    assert(seq@[a] == before[a] && seq@[b] == before[b]);
                } else if a < p && b == p {
                    assert(before[a] < i);
                } else if a < p && b > p {
                    assert(seq@[a] == before[a] && seq@[b] == before[b - 1]);
                } else if a == p {
                    assert(seq@[b] == before[b - 1]);
                } else {
                    assert(seq@[a] == before[a - 1] && seq@[b] == before[b - 1]);
                }
            }
        }
        i = i + 1;
    }
    seq
}

} // verus!
