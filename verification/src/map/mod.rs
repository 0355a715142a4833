use std::collections::HashSet;
use vstd::math::{max, min};
use vstd::prelude::*;
use vstd::std_specs::hash::group_hash_axioms;

use crate::components::EntityId;
use crate::rect::{half_toward_zero, lemma_overlaps_shares_a_cell, Rect};

pub mod camera;
pub mod dungeon;
pub mod themes;
pub mod tiletype;

pub use tiletype::{tile_opaque, tile_walkable, TileType};
use tiletype::{is_opaque, is_walkable};


verus! {

broadcast use group_hash_axioms;

/// One level of the dungeon: a `width` x `height` grid stored row by row.
pub struct GameMap {
    pub tiles: Vec<TileType>,
    pub width: i32,
    pub height: i32,
    pub revealed_tiles: Vec<bool>,
    pub visible_tiles: Vec<bool>,
    pub blocked: Vec<bool>,
    pub depth: i32,
    pub bloodstains: HashSet<usize>,
    pub view_blocked: HashSet<usize>,
    pub name: String,
    pub outdoors: bool,
    pub tile_content: Vec<Vec<EntityId>>,
    pub rooms: Vec<Rect>,
}

/// The row-major index of cell `(x, y)` on a map `w` cells wide.
pub open spec fn cell_index(w: int, x: int, y: int) -> int {
    y * w + x
}

/// Cell `(x, y)` lies on a map of `w` x `h` cells.
pub open spec fn in_bounds(w: int, h: int, x: int, y: int) -> bool {
    0 <= x < w && 0 <= y < h
}

/// The centre of a room, as `Rect::center` computes it.
pub open spec fn center_of(r: Rect) -> (int, int) {
    (half_toward_zero(r.x1 + r.x2), half_toward_zero(r.y1 + r.y2))
}

/// Whether digging `room` on a map `w` wide reaches cell index `i`: some
/// cell of the room has that index.
pub open spec fn room_covers(w: int, room: Rect, i: int) -> bool {
    exists|x: int, y: int| room.x1 < x <= room.x2 && room.y1 < y <= room.y2 && #[trigger] cell_index(w, x, y) == i
}

/// Whether digging `room` on a map `w` wide has reached cell index `i`
/// before the cell `(x_lim, y_lim)`: some cell of the room in an earlier
/// row, or earlier in row `y_lim`, has that index.
pub open spec fn room_digs(w: int, room: Rect, i: int, y_lim: int, x_lim: int) -> bool {
    exists|x: int, y: int|
        room.x1 < x <= room.x2 && room.y1 < y <= room.y2 && (y < y_lim || (y == y_lim && x < x_lim))
            && #[trigger] cell_index(w, x, y) == i
}

impl GameMap {
    /// The number of cells of the map.
    pub open spec fn cell_count(&self) -> int {
        self.width * self.height
    }

    /// Every per-cell layer holds exactly one entry per cell, and the cell
    /// count fits the index arithmetic.
    pub open spec fn wf(&self) -> bool {
        &&& 0 <= self.width
        &&& 0 <= self.height
        &&& self.cell_count() <= i32::MAX
        &&& self.tiles@.len() == self.cell_count()
        &&& self.revealed_tiles@.len() == self.cell_count()
        &&& self.visible_tiles@.len() == self.cell_count()
        &&& self.blocked@.len() == self.cell_count()
        &&& self.tile_content@.len() == self.cell_count()
        &&& forall|i: usize| #[trigger] self.bloodstains@.contains(i) ==> i < self.cell_count()
        &&& forall|i: usize| #[trigger] self.view_blocked@.contains(i) ==> i < self.cell_count()
    }

    /// Both maps hold the same values.
    pub open spec fn same_as(&self, other: &GameMap) -> bool {
        &&& self.tiles@ == other.tiles@
        &&& self.width == other.width
        &&& self.height == other.height
        &&& self.revealed_tiles@ == other.revealed_tiles@
        &&& self.visible_tiles@ == other.visible_tiles@
        &&& self.blocked@ == other.blocked@
        &&& self.depth == other.depth
        &&& self.bloodstains@ == other.bloodstains@
        &&& self.view_blocked@ == other.view_blocked@
        &&& self.name@ == other.name@
        &&& self.outdoors == other.outdoors
        &&& self.tile_content@.len() == other.tile_content@.len()
        &&& forall|i: int| 0 <= i < self.tile_content@.len() ==> (#[trigger] self.tile_content@[i])@ == other.tile_content@[i]@
        &&& self.rooms@ == other.rooms@
    }

    /// The tile at cell `(x, y)`.
    pub open spec fn tile_at(&self, x: int, y: int) -> TileType {
        self.tiles@[cell_index(self.width as int, x, y)]
    }

    /// Generates an empty map, consisting entirely of solid walls.
    pub fn new(new_depth: i32, width: i32, height: i32, name: String) -> (map: GameMap)
        requires
            0 <= width,
            0 <= height,
            width * height <= i32::MAX,
        ensures
            map.wf(),
            map.width == width,
            map.height == height,
            map.depth == new_depth,
            map.name@ == name@,
            map.outdoors,
            map.rooms@.len() == 0,
            map.bloodstains@.is_empty(),
            map.view_blocked@.is_empty(),
            forall|i: int| 0 <= i < map.cell_count() ==> {
                &&& #[trigger] map.tiles@[i] == TileType::Wall
                &&& !map.revealed_tiles@[i]
                &&& !map.visible_tiles@[i]
                &&& !map.blocked@[i]
                &&& map.tile_content@[i]@.len() == 0
            },
    {
        let count: usize = (width * height) as usize;
        let mut tiles: Vec<TileType> = Vec::new();
        let mut revealed_tiles: Vec<bool> = Vec::new();
        let mut visible_tiles: Vec<bool> = Vec::new();
        let mut blocked: Vec<bool> = Vec::new();
        let mut tile_content: Vec<Vec<EntityId>> = Vec::new();
        let mut i: usize = 0;
        while i < count
            invariant
                i <= count,
                tiles@.len() == i,
                revealed_tiles@.len() == i,
                visible_tiles@.len() == i,
                blocked@.len() == i,
                tile_content@.len() == i,
                forall|j: int| 0 <= j < i ==> {
                    &&& #[trigger] tiles@[j] == TileType::Wall
                    &&& !revealed_tiles@[j]
                    &&& !visible_tiles@[j]
                    &&& !blocked@[j]
                    &&& tile_content@[j]@.len() == 0
                },
            decreases count - i,
        {
            tiles.push(TileType::Wall);
            revealed_tiles.push(false);
            visible_tiles.push(false);
            blocked.push(false);
            tile_content.push(Vec::new());
            i = i + 1;
        }
        GameMap {
            tiles,
            width,
            height,
            revealed_tiles,
            visible_tiles,
            blocked,
            depth: new_depth,
            bloodstains: HashSet::new(),
            view_blocked: HashSet::new(),
            name,
            outdoors: true,
            tile_content,
            rooms: Vec::new(),
        }
    }

    /// Returns the index in the 1D tile array via row-major indexing.
    pub fn xy_idx(&self, x: i32, y: i32) -> (idx: usize)
        requires
            i32::MIN <= y * self.width <= i32::MAX,
            i32::MIN <= cell_index(self.width as int, x as int, y as int) <= i32::MAX,
        ensures
            idx == (cell_index(self.width as int, x as int, y as int) as i32) as usize,
            0 <= cell_index(self.width as int, x as int, y as int) ==> idx as int
                == cell_index(self.width as int, x as int, y as int),
    {
        (y * self.width + x) as usize
    }

    /// Returns the `(x, y)` coordinates of an index into the tile array.
    pub fn idx_xy(&self, idx: usize) -> (xy: (i32, i32))
        requires
            self.width > 0,
            idx <= i32::MAX,
        ensures
            xy.0 == idx as int % self.width as int,
            xy.1 == idx as int / self.width as int,
    {
        (idx as i32 % self.width, idx as i32 / self.width)
    }
}

/// A step the path finder may take out of a cell: the index of the cell it
/// leads to, and whether it is a diagonal step.
#[derive(PartialEq, Eq, Structural, Copy, Clone, Debug)]
pub struct Exit {
    pub idx: usize,
    pub diagonal: bool,
}

/// `s` with `e` appended when `b` holds.
pub open spec fn push_if(s: Seq<Exit>, b: bool, e: Exit) -> Seq<Exit> {
    if b {
        s.push(e)
    } else {
        s
    }
}

/// The exit from cell `(x, y)` to the cell `dx` columns and `dy` rows away.
pub open spec fn exit_to(w: int, x: int, y: int, dx: int, dy: int, diagonal: bool) -> Exit {
    Exit { idx: cell_index(w, x + dx, y + dy) as usize, diagonal }
}

/// The step from `(x, y)` to the neighbour `dx` columns and `dy` rows
/// away, on a map `w` cells wide: that cell's index, diagonal when it moves
/// along both axes.
pub open spec fn neighbour_exit(w: int, x: int, y: int, dx: int, dy: int) -> Exit {
    Exit { idx: cell_index(w, x + dx, y + dy) as usize, diagonal: dx != 0 && dy != 0 }
}

/// `(dx, dy)` is one of the eight offsets to a neighbouring cell.
pub open spec fn is_neighbour_offset(dx: int, dy: int) -> bool {
    -1 <= dx <= 1 && -1 <= dy <= 1 && !(dx == 0 && dy == 0)
}

/// The position of a neighbour offset in the order the exits are listed:
/// west, east, north, south, north-west, north-east, south-west,
/// south-east.
pub open spec fn offset_rank(dx: int, dy: int) -> int {
    if dx == -1 && dy == 0 {
        0
    } else if dx == 1 && dy == 0 {
        1
    } else if dx == 0 && dy == -1 {
        2
    } else if dx == 0 && dy == 1 {
        3
    } else if dx == -1 && dy == -1 {
        4
    } else if dx == 1 && dy == -1 {
        5
    } else if dx == -1 && dy == 1 {
        6
    } else if dx == 1 && dy == 1 {
        7
    } else {
        8
    }
}

/// `exits` are exactly the open neighbours of `(x, y)`, each once: every
/// exit steps to a neighbouring cell where a step is allowed, flagged
/// diagonal exactly when it moves along both axes; every neighbour where a
/// step is allowed is among them; no cell is listed twice; and they come
/// in the order west, east, north, south, then the diagonals north-west,
/// north-east, south-west, south-east.
pub open spec fn exits_are_open_neighbours(map: GameMap, x: int, y: int, exits: Seq<Exit>) -> bool {
    let w = map.width as int;
    &&& forall|k: int| #![trigger exits[k]] 0 <= k < exits.len() ==> exists|dx: int, dy: int|
        is_neighbour_offset(dx, dy) && map.exit_ok(x + dx, y + dy) && exits[k] == #[trigger] neighbour_exit(w, x, y, dx, dy)
    &&& forall|dx: int, dy: int|
        is_neighbour_offset(dx, dy) && map.exit_ok(x + dx, y + dy) ==> exits.contains(#[trigger] neighbour_exit(w, x, y, dx, dy))
    &&& forall|i: int, j: int| 0 <= i < j < exits.len() ==> (#[trigger] exits[i]).idx != (#[trigger] exits[j]).idx
    &&& forall|i: int, j: int| 0 <= i < j < exits.len() ==> listed_before(w, x, y, #[trigger] exits[i], #[trigger] exits[j])
}

/// `e` steps from `(x, y)` to an open neighbour among the first `m`
/// offsets.
spec fn early_open_exit(map: GameMap, x: int, y: int, e: Exit, m: int) -> bool {
    exists|dx: int, dy: int|
        is_neighbour_offset(dx, dy) && offset_rank(dx, dy) < m && map.exit_ok(x + dx, y + dy) && e
            == #[trigger] neighbour_exit(map.width as int, x, y, dx, dy)
}

/// `later` comes after `earlier` in the listing order of the neighbour
/// offsets.
pub open spec fn listed_before(w: int, x: int, y: int, earlier: Exit, later: Exit) -> bool {
    exists|a: int, b: int, c: int, d: int|
        is_neighbour_offset(a, b) && is_neighbour_offset(c, d) && offset_rank(a, b) < offset_rank(c, d) && earlier
            == #[trigger] neighbour_exit(w, x, y, a, b) && later == #[trigger] neighbour_exit(w, x, y, c, d)
}

/// The exits listed so far hold only open neighbours among the first `m`
/// offsets, every such one, each once.
spec fn exits_so_far(map: GameMap, x: int, y: int, exits: Seq<Exit>, m: int) -> bool {
    let w = map.width as int;
    &&& forall|k: int| 0 <= k < exits.len() ==> early_open_exit(map, x, y, #[trigger] exits[k], m)
    &&& forall|dx: int, dy: int|
        is_neighbour_offset(dx, dy) && offset_rank(dx, dy) < m && map.exit_ok(x + dx, y + dy) ==> exits.contains(
            #[trigger] neighbour_exit(w, x, y, dx, dy),
        )
    &&& forall|i: int, j: int| 0 <= i < j < exits.len() ==> (#[trigger] exits[i]).idx != (#[trigger] exits[j]).idx
    &&& forall|i: int, j: int| 0 <= i < j < exits.len() ==> listed_before(w, x, y, #[trigger] exits[i], #[trigger] exits[j])
}

/// Adding the exit for the offset of rank `m`, when a step there is
/// allowed, keeps the exits listed so far right.
proof fn lemma_exit_step(map: GameMap, x: int, y: int, exits: Seq<Exit>, m: int, dx0: int, dy0: int)
    requires
        map.wf(),
        map.width > 0,
        0 <= x < map.width,
        0 <= y,
        is_neighbour_offset(dx0, dy0),
        offset_rank(dx0, dy0) == m,
        exits_so_far(map, x, y, exits, m),
    ensures
        exits_so_far(
            map,
            x,
            y,
            push_if(exits, map.exit_ok(x + dx0, y + dy0), neighbour_exit(map.width as int, x, y, dx0, dy0)),
            m + 1,
        ),
{
    let w = map.width as int;
    let e = neighbour_exit(w, x, y, dx0, dy0);
    let ok = map.exit_ok(x + dx0, y + dy0);
    let after = push_if(exits, ok, e);
    assert forall|k: int| 0 <= k < after.len() implies early_open_exit(map, x, y, #[trigger] after[k], m + 1) by {
        if k < exits.len() {
            assert(after[k] == exits[k]);
            assert(early_open_exit(map, x, y, exits[k], m));
            let (dx, dy) = choose|dx: int, dy: int|
                is_neighbour_offset(dx, dy) && offset_rank(dx, dy) < m && map.exit_ok(x + dx, y + dy) && exits[k]
                    == #[trigger] neighbour_exit(w, x, y, dx, dy);
            assert(after[k] == neighbour_exit(w, x, y, dx, dy));
        } else {
            assert(after[k] == neighbour_exit(w, x, y, dx0, dy0));
        }
    }
    assert forall|dx: int, dy: int|
        is_neighbour_offset(dx, dy) && offset_rank(dx, dy) < m + 1 && map.exit_ok(x + dx, y + dy) implies after.contains(
        #[trigger] neighbour_exit(w, x, y, dx, dy),
    ) by {
        if offset_rank(dx, dy) < m {
            assert(exits.contains(neighbour_exit(w, x, y, dx, dy)));
            let k = choose|k: int| 0 <= k < exits.len() && exits[k] == neighbour_exit(w, x, y, dx, dy);
            assert(after[k] == exits[k]);
        } else {
            assert(dx == dx0 && dy == dy0);
            assert(after[exits.len() as int] == e);
        }
    }
    assert forall|i: int, j: int| 0 <= i < j < after.len() implies (#[trigger] after[i]).idx != (#[trigger] after[j]).idx by {
        if j < exits.len() {
            assert(after[i] == exits[i] && after[j] == exits[j]);
        } else {
            assert(after[i] == exits[i]);
            assert(early_open_exit(map, x, y, exits[i], m));
            let (dx, dy) = choose|dx: int, dy: int|
                is_neighbour_offset(dx, dy) && offset_rank(dx, dy) < m && map.exit_ok(x + dx, y + dy) && exits[i]
                    == #[trigger] neighbour_exit(w, x, y, dx, dy);
            lemma_cell_in_map(w, map.height as int, x + dx, y + dy);
            lemma_cell_in_map(w, map.height as int, x + dx0, y + dy0);
            if cell_index(w, x + dx, y + dy) == cell_index(w, x + dx0, y + dy0) {
                lemma_cell_index_injective(w, x + dx, y + dy, x + dx0, y + dy0);
            }
        }
    }
    assert forall|i: int, j: int| 0 <= i < j < after.len() implies listed_before(w, x, y, #[trigger] after[i], #[trigger] after[j]) by {
        if j < exits.len() {
            assert(after[i] == exits[i] && after[j] == exits[j]);
        } else {
            assert(after[i] == exits[i]);
            assert(early_open_exit(map, x, y, exits[i], m));
            let (a, b) = choose|dx: int, dy: int|
                is_neighbour_offset(dx, dy) && offset_rank(dx, dy) < m && map.exit_ok(x + dx, y + dy) && exits[i]
                    == #[trigger] neighbour_exit(w, x, y, dx, dy);
            assert(after[j] == neighbour_exit(w, x, y, dx0, dy0));
            assert(after[i] == neighbour_exit(w, x, y, a, b));
        }
    }
    assert(after == push_if(exits, map.exit_ok(x + dx0, y + dy0), neighbour_exit(map.width as int, x, y, dx0, dy0)));
    assert(exits_so_far(map, x, y, after, m + 1));
}

/// The four neighbour bits of a wall cell: north 1, south 2, west 4, east 8.
pub open spec fn wall_mask_of(n: bool, s: bool, w: bool, e: bool) -> int {
    (if n { 1int } else { 0int }) + (if s { 2int } else { 0int }) + (if w { 4int } else { 0int })
        + (if e { 8int } else { 0int })
}

impl GameMap {
    /// A step onto cell `(x, y)` stays off the outer ring of the map and
    /// onto a cell that is not blocked.
    pub open spec fn exit_ok(&self, x: int, y: int) -> bool {
        &&& 1 <= x <= self.width - 1
        &&& 1 <= y <= self.height - 1
        &&& !self.blocked@[cell_index(self.width as int, x, y)]
    }

    /// The exits of cell `idx`, in the order west, east, north, south,
    /// north-west, north-east, south-west, south-east.
    pub open spec fn exits_of(&self, idx: int) -> Seq<Exit> {
        let w = self.width as int;
        let x = idx % w;
        let y = idx / w;
        let s1 = push_if(Seq::empty(), self.exit_ok(x - 1, y), exit_to(w, x, y, -1, 0, false));
        let s2 = push_if(s1, self.exit_ok(x + 1, y), exit_to(w, x, y, 1, 0, false));
        let s3 = push_if(s2, self.exit_ok(x, y - 1), exit_to(w, x, y, 0, -1, false));
        let s4 = push_if(s3, self.exit_ok(x, y + 1), exit_to(w, x, y, 0, 1, false));
        let s5 = push_if(s4, self.exit_ok(x - 1, y - 1), exit_to(w, x, y, -1, -1, true));
        let s6 = push_if(s5, self.exit_ok(x + 1, y - 1), exit_to(w, x, y, 1, -1, true));
        let s7 = push_if(s6, self.exit_ok(x - 1, y + 1), exit_to(w, x, y, -1, 1, true));
        push_if(s7, self.exit_ok(x + 1, y + 1), exit_to(w, x, y, 1, 1, true))
    }

    /// The exits of a cell lead to exactly its open neighbours, each once.
    pub proof fn lemma_exits_are_open_neighbours(self, idx: int)
        requires
            self.wf(),
            self.width > 0,
            0 <= idx < self.cell_count(),
        ensures
            exits_are_open_neighbours(self, idx % (self.width as int), idx / (self.width as int), self.exits_of(idx)),
    {
        let w = self.width as int;
        let x = idx % w;
        let y = idx / w;
        vstd::arithmetic::div_mod::lemma_div_pos_is_pos(idx, w);
        vstd::arithmetic::div_mod::lemma_mod_bound(idx, w);
        let e0 = Seq::<Exit>::empty();
        let e1 = push_if(e0, self.exit_ok(x - 1, y), exit_to(w, x, y, -1, 0, false));
        let e2 = push_if(e1, self.exit_ok(x + 1, y), exit_to(w, x, y, 1, 0, false));
        let e3 = push_if(e2, self.exit_ok(x, y - 1), exit_to(w, x, y, 0, -1, false));
        let e4 = push_if(e3, self.exit_ok(x, y + 1), exit_to(w, x, y, 0, 1, false));
        let e5 = push_if(e4, self.exit_ok(x - 1, y - 1), exit_to(w, x, y, -1, -1, true));
        let e6 = push_if(e5, self.exit_ok(x + 1, y - 1), exit_to(w, x, y, 1, -1, true));
        let e7 = push_if(e6, self.exit_ok(x - 1, y + 1), exit_to(w, x, y, -1, 1, true));
        let e8 = push_if(e7, self.exit_ok(x + 1, y + 1), exit_to(w, x, y, 1, 1, true));
        assert(exits_so_far(self, x, y, e0, 0));
        assert(e1 == push_if(e0, self.exit_ok(x - 1, y), neighbour_exit(w, x, y, -1, 0)));
        lemma_exit_step(self, x, y, e0, 0, -1, 0);
        assert(e2 == push_if(e1, self.exit_ok(x + 1, y), neighbour_exit(w, x, y, 1, 0)));
        lemma_exit_step(self, x, y, e1, 1, 1, 0);
        assert(e3 == push_if(e2, self.exit_ok(x, y - 1), neighbour_exit(w, x, y, 0, -1)));
        lemma_exit_step(self, x, y, e2, 2, 0, -1);
        assert(e4 == push_if(e3, self.exit_ok(x, y + 1), neighbour_exit(w, x, y, 0, 1)));
        lemma_exit_step(self, x, y, e3, 3, 0, 1);
        assert(e5 == push_if(e4, self.exit_ok(x - 1, y - 1), neighbour_exit(w, x, y, -1, -1)));
        lemma_exit_step(self, x, y, e4, 4, -1, -1);
        assert(e6 == push_if(e5, self.exit_ok(x + 1, y - 1), neighbour_exit(w, x, y, 1, -1)));
        lemma_exit_step(self, x, y, e5, 5, 1, -1);
        assert(e7 == push_if(e6, self.exit_ok(x - 1, y + 1), neighbour_exit(w, x, y, -1, 1)));
        lemma_exit_step(self, x, y, e6, 6, -1, 1);
        assert(e8 == push_if(e7, self.exit_ok(x + 1, y + 1), neighbour_exit(w, x, y, 1, 1)));
        lemma_exit_step(self, x, y, e7, 7, 1, 1);
        assert(e8 == self.exits_of(idx));
        assert(exits_so_far(self, x, y, e8, 8));
    }

    /// Cell `(x, y)` is a wall the player has seen.
    pub open spec fn revealed_wall(&self, x: int, y: int) -> bool {
        let i = cell_index(self.width as int, x, y);
        self.tiles@[i] == TileType::Wall && self.revealed_tiles@[i]
    }

    /// Returns whether a step onto `(x, y)` stays within the map's inner area
    /// and onto a cell that is not blocked.
    pub fn is_exit_valid(&self, x: i32, y: i32) -> (valid: bool)
        requires
            self.wf(),
        ensures
            valid == self.exit_ok(x as int, y as int),
    {
        if x < 1 || x > self.width - 1 || y < 1 || y > self.height - 1 {
            return false;
        }
        proof {
            lemma_cell_in_map(self.width as int, self.height as int, x as int, y as int);
        }
        let idx = self.xy_idx(x, y);
        !self.blocked[idx]
    }

    /// The cells a walker can step to from `idx`: the four neighbours first,
    /// then the four diagonal ones, each only where `is_exit_valid` holds.
    #[verifier::spinoff_prover]
    #[verifier::rlimit(40)]
    pub fn get_available_exits(&self, idx: usize) -> (exits: Vec<Exit>)
        requires
            self.wf(),
            self.width > 0,
            idx < self.cell_count(),
        ensures
            exits@ == self.exits_of(idx as int),
            exits_are_open_neighbours(*self, idx as int % self.width as int, idx as int / self.width as int, exits@),
    {
        proof {
            self.lemma_exits_are_open_neighbours(idx as int);
        }
        let (x, y) = self.idx_xy(idx);
        let w = self.width as usize;
        let ghost wi = self.width as int;
        proof {
            lemma_idx_xy_roundtrip(wi, idx as int);
            vstd::arithmetic::div_mod::lemma_div_pos_is_pos(idx as int, wi);
            vstd::arithmetic::div_mod::lemma_mod_bound(idx as int, wi);
            lemma_row_below_height(wi, self.height as int, idx as int);
        }
        let ghost xi = x as int;
        let ghost yi = y as int;
        proof {
            assert((yi - 1) * wi == yi * wi - wi) by (nonlinear_arith);
            assert((yi + 1) * wi == yi * wi + wi) by (nonlinear_arith);
        }
        let ghost s1 = push_if(Seq::empty(), self.exit_ok(xi - 1, yi), exit_to(wi, xi, yi, -1, 0, false));
        let ghost s2 = push_if(s1, self.exit_ok(xi + 1, yi), exit_to(wi, xi, yi, 1, 0, false));
        let ghost s3 = push_if(s2, self.exit_ok(xi, yi - 1), exit_to(wi, xi, yi, 0, -1, false));
        let ghost s4 = push_if(s3, self.exit_ok(xi, yi + 1), exit_to(wi, xi, yi, 0, 1, false));
        let ghost s5 = push_if(s4, self.exit_ok(xi - 1, yi - 1), exit_to(wi, xi, yi, -1, -1, true));
        let ghost s6 = push_if(s5, self.exit_ok(xi + 1, yi - 1), exit_to(wi, xi, yi, 1, -1, true));
        let ghost s7 = push_if(s6, self.exit_ok(xi - 1, yi + 1), exit_to(wi, xi, yi, -1, 1, true));
        let ghost s8 = push_if(s7, self.exit_ok(xi + 1, yi + 1), exit_to(wi, xi, yi, 1, 1, true));
        let mut exits: Vec<Exit> = Vec::new();
        if self.is_exit_valid(x - 1, y) {
            exits.push(Exit { idx: idx - 1, diagonal: false });
        }
        assert(exits@ =~= s1);
        if self.is_exit_valid(x + 1, y) {
            exits.push(Exit { idx: idx + 1, diagonal: false });
        }
        assert(exits@ =~= s2);
        if self.is_exit_valid(x, y - 1) {
            proof { lemma_row_start_at_least_width(wi, xi, yi); }
            exits.push(Exit { idx: idx - w, diagonal: false });
        }
        assert(exits@ =~= s3);
        if self.is_exit_valid(x, y + 1) {
            proof { lemma_step_down_in_range(wi, self.height as int, xi, yi); }
            exits.push(Exit { idx: idx + w, diagonal: false });
        }
        assert(exits@ =~= s4);
        if self.is_exit_valid(x - 1, y - 1) {
            proof { lemma_row_start_at_least_width(wi, xi, yi); }
            exits.push(Exit { idx: idx - w - 1, diagonal: true });
        }
        assert(exits@ =~= s5);
        if self.is_exit_valid(x + 1, y - 1) {
            proof { lemma_row_start_at_least_width(wi, xi, yi); }
            exits.push(Exit { idx: idx - w + 1, diagonal: true });
        }
        assert(exits@ =~= s6);
        if self.is_exit_valid(x - 1, y + 1) {
            proof { lemma_step_down_in_range(wi, self.height as int, xi, yi); }
            exits.push(Exit { idx: idx + w - 1, diagonal: true });
        }
        assert(exits@ =~= s7);
        if self.is_exit_valid(x + 1, y + 1) {
            proof { lemma_step_down_in_range(wi, self.height as int, xi, yi); }
            exits.push(Exit { idx: idx + w + 1, diagonal: true });
        }
        assert(exits@ =~= s8);
        assert(exits@ =~= self.exits_of(idx as int));
        exits
    }

    /// Marks as blocked exactly the cells whose tile cannot be walked on.
    pub fn populate_blocked(&mut self)
        requires
            old(self).wf(),
        ensures
            final(self).wf(),
            final(self).tiles@ == old(self).tiles@,
            final(self).width == old(self).width,
            final(self).height == old(self).height,
            final(self).revealed_tiles@ == old(self).revealed_tiles@,
            final(self).visible_tiles@ == old(self).visible_tiles@,
            final(self).tile_content@ == old(self).tile_content@,
            final(self).depth == old(self).depth,
            final(self).bloodstains@ == old(self).bloodstains@,
            final(self).view_blocked@ == old(self).view_blocked@,
            final(self).rooms@ == old(self).rooms@,
            final(self).outdoors == old(self).outdoors,
            final(self).name@ == old(self).name@,
            forall|i: int|
                0 <= i < old(self).cell_count() ==> #[trigger] final(self).blocked@[i]
                    == !is_walkable(old(self).tiles@[i]),
    {
        let n = self.tiles.len();
        let mut i: usize = 0;
        while i < n
            invariant
                self.wf(),
                n == self.tiles@.len(),
                i <= n,
                self.tiles@ == old(self).tiles@,
                self.width == old(self).width,
                self.height == old(self).height,
                self.revealed_tiles@ == old(self).revealed_tiles@,
                self.visible_tiles@ == old(self).visible_tiles@,
                self.tile_content@ == old(self).tile_content@,
                self.depth == old(self).depth,
                self.bloodstains@ == old(self).bloodstains@,
                self.view_blocked@ == old(self).view_blocked@,
                self.rooms@ == old(self).rooms@,
                self.outdoors == old(self).outdoors,
                self.name@ == old(self).name@,
                forall|j: int| 0 <= j < i ==> #[trigger] self.blocked@[j] == !is_walkable(self.tiles@[j]),
            decreases n - i,
        {
            let walkable = tile_walkable(self.tiles[i]);
            self.blocked.set(i, !walkable);
            i = i + 1;
        }
    }

    /// Whether a cell blocks the line of sight. Index 0 and indices past the
    /// map count as opaque; otherwise walls and cells that something stands
    /// in the way of do.
    pub fn is_opaque(&self, idx: usize) -> (opaque: bool)
        requires
            self.wf(),
        ensures
            opaque == (if 0 < idx < self.tiles@.len() {
                is_opaque(self.tiles@[idx as int]) || self.view_blocked@.contains(idx)
            } else {
                true
            }),
    {
        if idx > 0 && idx < self.tiles.len() {
            tile_opaque(self.tiles[idx]) || self.view_blocked.contains(&idx)
        } else {
            true
        }
    }

    /// Empties the list of entities standing in every cell.
    pub fn clear_content_index(&mut self)
        requires
            old(self).wf(),
        ensures
            final(self).wf(),
            final(self).tiles@ == old(self).tiles@,
            final(self).width == old(self).width,
            final(self).height == old(self).height,
            final(self).revealed_tiles@ == old(self).revealed_tiles@,
            final(self).visible_tiles@ == old(self).visible_tiles@,
            final(self).blocked@ == old(self).blocked@,
            final(self).depth == old(self).depth,
            final(self).rooms@ == old(self).rooms@,
            final(self).bloodstains@ == old(self).bloodstains@,
            final(self).view_blocked@ == old(self).view_blocked@,
            final(self).outdoors == old(self).outdoors,
            final(self).name@ == old(self).name@,
            final(self).tile_content@.len() == old(self).tile_content@.len(),
            forall|i: int| 0 <= i < old(self).cell_count() ==> #[trigger] final(self).tile_content@[i]@.len() == 0,
    {
        let n = self.tile_content.len();
        let mut i: usize = 0;
        while i < n
            invariant
                self.wf(),
                n == self.tile_content@.len(),
                i <= n,
                self.tiles@ == old(self).tiles@,
                self.width == old(self).width,
                self.height == old(self).height,
                self.revealed_tiles@ == old(self).revealed_tiles@,
                self.visible_tiles@ == old(self).visible_tiles@,
                self.blocked@ == old(self).blocked@,
                self.depth == old(self).depth,
                self.rooms@ == old(self).rooms@,
                self.bloodstains@ == old(self).bloodstains@,
                self.view_blocked@ == old(self).view_blocked@,
                self.outdoors == old(self).outdoors,
                self.name@ == old(self).name@,
                self.tile_content@.len() == old(self).tile_content@.len(),
                forall|j: int| 0 <= j < i ==> #[trigger] self.tile_content@[j]@.len() == 0,
            decreases n - i,
        {
            self.tile_content.set(i, Vec::new());
            i = i + 1;
        }
    }

    /// Returns whether cell `(x, y)` is a wall that has been revealed.
    pub fn is_revealed_and_wall(&self, x: i32, y: i32) -> (b: bool)
        requires
            self.wf(),
            in_bounds(self.width as int, self.height as int, x as int, y as int),
        ensures
            b == self.revealed_wall(x as int, y as int),
    {
        proof {
            lemma_cell_in_map(self.width as int, self.height as int, x as int, y as int);
        }
        let idx = self.xy_idx(x, y);
        self.tiles[idx] == TileType::Wall && self.revealed_tiles[idx]
    }
}

impl GameMap {
    /// Everything but the terrain is the same on both maps.
    pub open spec fn same_but_tiles(&self, other: &GameMap) -> bool {
        &&& self.width == other.width
        &&& self.height == other.height
        &&& self.revealed_tiles@ == other.revealed_tiles@
        &&& self.visible_tiles@ == other.visible_tiles@
        &&& self.blocked@ == other.blocked@
        &&& self.depth == other.depth
        &&& self.bloodstains@ == other.bloodstains@
        &&& self.view_blocked@ == other.view_blocked@
        &&& self.name@ == other.name@
        &&& self.outdoors == other.outdoors
        &&& self.tile_content@ == other.tile_content@
        &&& self.rooms@ == other.rooms@
    }

    /// Whether digging `room` stays within the index arithmetic and the map:
    /// every cell strictly right of and below its first corner, up to and
    /// including its second corner, has a row offset that fits `i32` and an
    /// index inside the map. (A cell past the right edge has the index of a
    /// cell of the next row, as row-major indexing gives it.)
    pub open spec fn room_fits(&self, room: Rect) -> bool {
        forall|x: int, y: int|
            room.x1 < x <= room.x2 && room.y1 < y <= room.y2 ==> {
                &&& i32::MIN <= y * self.width <= i32::MAX
                &&& 0 <= #[trigger] cell_index(self.width as int, x, y) < self.cell_count()
            }
    }

    /// Digs out the inside of `room`: every cell strictly right of and below
    /// its first corner, up to and including its second corner, becomes
    /// floor, each at its row-major index.
    pub fn apply_room_to_map(&mut self, room: &Rect)
        requires
            old(self).wf(),
            room.y1 < i32::MAX,
            room.y1 < room.y2 ==> room.x1 < i32::MAX,
            old(self).room_fits(*room),
        ensures
            final(self).wf(),
            final(self).same_but_tiles(&*old(self)),
            forall|i: int|
                0 <= i < old(self).cell_count() ==> #[trigger] final(self).tiles@[i] == if room_covers(
                    old(self).width as int,
                    *room,
                    i,
                ) {
                    TileType::Floor
                } else {
                    old(self).tiles@[i]
                },
            -1 <= room.x1 && -1 <= room.y1 && room.x2 < old(self).width && room.y2 < old(self).height ==> forall|
                x: int,
                y: int,
            |
                in_bounds(old(self).width as int, old(self).height as int, x, y) ==> #[trigger] final(self).tile_at(x, y)
                    == if room.x1 < x <= room.x2 && room.y1 < y <= room.y2 {
                    TileType::Floor
                } else {
                    old(self).tile_at(x, y)
                },
    {
        let ghost w = self.width as int;
        let ghost h = self.height as int;
        let ghost r = *room;
        let mut y: i64 = room.y1 as i64 + 1;
        while y <= room.y2 as i64
            invariant
                self.wf(),
                self.same_but_tiles(&*old(self)),
                w == self.width,
                h == self.height,
                r == *room,
                old(self).room_fits(r),
                room.y1 < room.y2 ==> room.x1 < i32::MAX,
                room.y1 + 1 <= y <= room.y2 + 1 || (y == room.y1 + 1 && room.y2 < y),
                forall|i: int|
                    0 <= i < old(self).cell_count() ==> #[trigger] self.tiles@[i] == if room_digs(
                        w,
                        r,
                        i,
                        y as int,
                        room.x1 + 1,
                    ) {
                        TileType::Floor
                    } else {
                        old(self).tiles@[i]
                    },
            decreases room.y2 + 1 - y,
        {
            let mut x: i64 = room.x1 as i64 + 1;
            while x <= room.x2 as i64
                invariant
                    self.wf(),
                    self.same_but_tiles(&*old(self)),
                    w == self.width,
                    h == self.height,
                    r == *room,
                    old(self).room_fits(r),
                    room.y1 < y <= room.y2,
                    room.x1 + 1 <= x <= room.x2 + 1 || (x == room.x1 + 1 && room.x2 < x),
                    forall|i: int|
                        0 <= i < old(self).cell_count() ==> #[trigger] self.tiles@[i] == if room_digs(
                            w,
                            r,
                            i,
                            y as int,
                            x as int,
                        ) {
                            TileType::Floor
                        } else {
                            old(self).tiles@[i]
                        },
                decreases room.x2 + 1 - x,
            {
                proof {
                    assert(r.x1 < x <= r.x2 && r.y1 < y <= r.y2);
                    let c = cell_index(old(self).width as int, x as int, y as int);
                    assert(i32::MIN <= y * old(self).width <= i32::MAX && 0 <= c < old(self).cell_count());
                }
                let idx = self.xy_idx(x as i32, y as i32);
                let ghost before = self.tiles@;
                self.tiles.set(idx, TileType::Floor);
                proof {
                    assert forall|i: int| 0 <= i < old(self).cell_count() implies #[trigger] self.tiles@[i] == if room_digs(
                        w,
                        r,
                        i,
                        y as int,
                        x + 1,
                    ) {
                        TileType::Floor
                    } else {
                        old(self).tiles@[i]
                    } by {
                        if i == idx as int {
                            assert(cell_index(w, x as int, y as int) == i);
                        } else {
                            assert(self.tiles@[i] == before[i]);
                            if room_digs(w, r, i, y as int, x + 1) {
                                let (px, py) = choose|px: int, py: int|
                                    r.x1 < px <= r.x2 && r.y1 < py <= r.y2 && (py < y || (py == y && px < x + 1))
                                        && #[trigger] cell_index(w, px, py) == i;
                                if py == y && px == x {
                                    assert(false);
                                }
                                assert(room_digs(w, r, i, y as int, x as int));
                            }
                        }
                    }
                }
                x = x + 1;
            }
            proof {
                assert forall|i: int| 0 <= i < old(self).cell_count() implies room_digs(w, r, i, y as int, x as int)
                    == room_digs(w, r, i, y + 1, r.x1 + 1) by {
                    if room_digs(w, r, i, y + 1, r.x1 + 1) {
                        let (px, py) = choose|px: int, py: int|
                            r.x1 < px <= r.x2 && r.y1 < py <= r.y2 && (py < y + 1 || (py == y + 1 && px < r.x1 + 1))
                                && #[trigger] cell_index(w, px, py) == i;
                        assert(r.x1 < px <= r.x2 && r.y1 < py <= r.y2 && (py < y || (py == y && px < x))
                            && cell_index(w, px, py) == i);
                    }
                }
            }
            y = y + 1;
        }
        proof {
            assert forall|i: int| 0 <= i < old(self).cell_count() implies #[trigger] self.tiles@[i] == if room_covers(
                w,
                r,
                i,
            ) {
                TileType::Floor
            } else {
                old(self).tiles@[i]
            } by {
                if room_digs(w, r, i, y as int, r.x1 + 1) {
                    let (px, py) = choose|px: int, py: int|
                        r.x1 < px <= r.x2 && r.y1 < py <= r.y2 && (py < y || (py == y && px < r.x1 + 1))
                            && #[trigger] cell_index(w, px, py) == i;
                    assert(r.x1 < px <= r.x2 && r.y1 < py <= r.y2 && cell_index(w, px, py) == i);
                }
                if room_covers(w, r, i) {
                    let (px, py) = choose|px: int, py: int|
                        r.x1 < px <= r.x2 && r.y1 < py <= r.y2 && #[trigger] cell_index(w, px, py) == i;
                    assert(r.x1 < px <= r.x2 && r.y1 < py <= r.y2 && (py < y || (py == y && px < r.x1 + 1))
                        && cell_index(w, px, py) == i);
                }
            }
            if -1 <= r.x1 && -1 <= r.y1 && r.x2 < w && r.y2 < h {
                assert forall|cx: int, cy: int| in_bounds(w, h, cx, cy) implies #[trigger] self.tile_at(cx, cy) == if r.x1
                    < cx <= r.x2 && r.y1 < cy <= r.y2 {
                    TileType::Floor
                } else {
                    old(self).tile_at(cx, cy)
                } by {
                    lemma_cell_in_map(w, h, cx, cy);
                    let i = cell_index(w, cx, cy);
                    assert(self.tile_at(cx, cy) == self.tiles@[i]);
                    if r.x1 < cx <= r.x2 && r.y1 < cy <= r.y2 {
                        assert(room_covers(w, r, i));
                    } else if room_covers(w, r, i) {
                        let (px, py) = choose|px: int, py: int|
                            r.x1 < px <= r.x2 && r.y1 < py <= r.y2 && #[trigger] cell_index(w, px, py) == i;
                        lemma_cell_index_injective(w, px, py, cx, cy);
                    }
                }
            }
        }
    }

    /// Digs a horizontal corridor along row `y` between columns `x1` and
    /// `x2`, both included. Cells whose index falls outside the map, and the
    /// cell of index 0, are left alone.
    pub fn apply_horizontal_tunnel(&mut self, x1: i32, x2: i32, y: i32)
        requires
            old(self).wf(),
            i32::MIN <= y * old(self).width <= i32::MAX,
            i32::MIN <= y * old(self).width + x1 <= i32::MAX,
            i32::MIN <= y * old(self).width + x2 <= i32::MAX,
        ensures
            final(self).wf(),
            final(self).same_but_tiles(&*old(self)),
            forall|i: int|
                0 <= i < old(self).cell_count() ==> #[trigger] final(self).tiles@[i] == if 0 < i
                    && y * old(self).width + min(x1 as int, x2 as int) <= i <= y * old(self).width + max(x1 as int, x2 as int) {
                    TileType::Floor
                } else {
                    old(self).tiles@[i]
                },
    {
        let ghost base = y * self.width;
        let lo = if x1 < x2 { x1 } else { x2 };
        let hi = if x1 < x2 { x2 } else { x1 };
        let mut xw: i64 = lo as i64;
        while xw <= hi as i64
            invariant
                self.wf(),
                self.same_but_tiles(&*old(self)),
                base == y * self.width,
                lo <= xw <= hi + 1,
                lo == min(x1 as int, x2 as int),
                hi == max(x1 as int, x2 as int),
                i32::MIN <= base + lo,
                base + hi <= i32::MAX,
                i32::MIN <= base <= i32::MAX,
                forall|i: int|
                    0 <= i < old(self).cell_count() ==> #[trigger] self.tiles@[i] == if 0 < i && base + lo <= i
                        < base + xw {
                        TileType::Floor
                    } else {
                        old(self).tiles@[i]
                    },
            decreases hi + 1 - xw,
        {
            let x = xw as i32;
            let idx = self.xy_idx(x, y);
            proof {
                if base + x < 0 {
                    lemma_negative_index_far(base + x);
                }
            }
            if idx > 0 && idx < (self.width * self.height) as usize {
                self.tiles.set(idx, TileType::Floor);
            }
            xw = xw + 1;
        }
    }

    /// Digs a vertical corridor along column `x` between rows `y1` and `y2`,
    /// both included. Cells whose index falls outside the map, and the cell
    /// of index 0, are left alone.
    pub fn apply_vertical_tunnel(&mut self, y1: i32, y2: i32, x: i32)
        requires
            old(self).wf(),
            i32::MIN <= y1 * old(self).width + x <= i32::MAX,
            i32::MIN <= y2 * old(self).width + x <= i32::MAX,
            i32::MIN <= y1 * old(self).width <= i32::MAX,
            i32::MIN <= y2 * old(self).width <= i32::MAX,
        ensures
            final(self).wf(),
            final(self).same_but_tiles(&*old(self)),
            forall|i: int|
                0 <= i < old(self).cell_count() ==> #[trigger] final(self).tiles@[i] == if 0 < i
                    && exists|r: int| min(y1 as int, y2 as int) <= r <= max(y1 as int, y2 as int) && i == cell_index(old(self).width as int, x as int, r) {
                    TileType::Floor
                } else {
                    old(self).tiles@[i]
                },
    {
        let ghost w = self.width as int;
        let lo = if y1 < y2 { y1 } else { y2 };
        let hi = if y1 < y2 { y2 } else { y1 };
        let mut yw: i64 = lo as i64;
        while yw <= hi as i64
            invariant
                self.wf(),
                self.same_but_tiles(&*old(self)),
                w == self.width,
                w >= 0,
                lo <= yw <= hi + 1,
                lo == min(y1 as int, y2 as int),
                hi == max(y1 as int, y2 as int),
                i32::MIN <= lo * w + x,
                hi * w + x <= i32::MAX,
                i32::MIN <= lo * w,
                hi * w <= i32::MAX,
                forall|i: int|
                    0 <= i < old(self).cell_count() ==> #[trigger] self.tiles@[i] == if 0 < i && exists|r: int|
                        lo <= r < yw && i == cell_index(w, x as int, r) {
                        TileType::Floor
                    } else {
                        old(self).tiles@[i]
                    },
            decreases hi + 1 - yw,
        {
            let y = yw as i32;
            proof {
                assert(lo * w <= y * w <= hi * w) by (nonlinear_arith)
                    requires
                        lo <= y <= hi,
                        w >= 0,
                ;
            }
            let idx = self.xy_idx(x, y);
            proof {
                if cell_index(w, x as int, y as int) < 0 {
                    lemma_negative_index_far(cell_index(w, x as int, y as int));
                }
            }
            let ghost before = self.tiles@;
            if idx > 0 && idx < (self.width * self.height) as usize {
                self.tiles.set(idx, TileType::Floor);
            }
            proof {
                assert forall|i: int| 0 <= i < old(self).cell_count() implies #[trigger] self.tiles@[i]
                    == if 0 < i && exists|r: int| lo <= r < yw + 1 && i == cell_index(w, x as int, r) {
                    TileType::Floor
                } else {
                    old(self).tiles@[i]
                } by {
                    if i == cell_index(w, x as int, y as int) {
                        assert(lo <= y < yw + 1 && i == cell_index(w, x as int, y as int));
                    } else {
                        assert(self.tiles@[i] == before[i]);
                        if exists|r: int| lo <= r < yw + 1 && i == cell_index(w, x as int, r) {
                            let r = choose|r: int| lo <= r < yw + 1 && i == cell_index(w, x as int, r);
                            assert(r != y);
                            assert(lo <= r < yw && i == cell_index(w, x as int, r));
                        }
                    }
                }
            }
            yw = yw + 1;
        }
    }
}

/// Cell `(x, y)` lies on the outer ring of a `w` x `h` map.
pub open spec fn on_border(w: int, h: int, x: int, y: int) -> bool {
    x == 0 || x == w - 1 || y == 0 || y == h - 1
}

/// Index `i` is the index of some cell on the outer ring of a `w` x `h` map.
pub open spec fn is_border_index(w: int, h: int, i: int) -> bool {
    exists|x: int, y: int| in_bounds(w, h, x, y) && on_border(w, h, x, y) && cell_index(w, x, y) == i
}

/// The most rooms the room-and-corridor generator tries to place.
pub const MAX_ROOMS: i32 = 30;

/// The smallest side of a generated room.
pub const MIN_SIZE: i32 = 6;

/// One past the largest side of a generated room.
pub const MAX_SIZE: i32 = 10;

/// The width of the map that the room-and-corridor generator lays out.
pub const ROOMS_MAP_WIDTH: i32 = 80;

/// The height of the map that the room-and-corridor generator lays out.
pub const ROOMS_MAP_HEIGHT: i32 = 50;

/// Some roll among the first `n` names cell `(x, y)`.
pub open spec fn rolled_cell(rolls: Seq<(i32, i32)>, n: int, x: int, y: int) -> bool {
    exists|k: int| 0 <= k < n && #[trigger] rolls[k].0 == x && rolls[k].1 == y
}

/// Every roll names a cell with column `1..=w-1` and row `1..=h-1`, as the
/// test layout's dice do.
pub open spec fn test_rolls_ok(w: int, h: int, rolls: Seq<(i32, i32)>) -> bool {
    forall|k: int| 0 <= k < rolls.len() ==> 1 <= #[trigger] rolls[k].0 <= w - 1 && 1 <= rolls[k].1 <= h - 1
}

/// The tile of cell `(x, y)` in the test layout for the given rolls: the
/// outer ring is wall; any other cell is wall when a roll names it and it is
/// not the player's starting cell `(40, 25)`, and floor otherwise.
pub open spec fn test_tile(w: int, h: int, rolls: Seq<(i32, i32)>, x: int, y: int) -> TileType {
    if on_border(w, h, x, y) {
        TileType::Wall
    } else if rolled_cell(rolls, rolls.len() as int, x, y) && cell_index(w, x, y) != cell_index(w, 40, 25) {
        TileType::Wall
    } else {
        TileType::Floor
    }
}

/// `tiles` is the test layout of a `w` x `h` map for the given rolls.
pub open spec fn is_test_layout(w: int, h: int, rolls: Seq<(i32, i32)>, tiles: Seq<TileType>) -> bool {
    &&& tiles.len() == w * h
    &&& forall|x: int, y: int|
        in_bounds(w, h, x, y) ==> #[trigger] tiles[cell_index(w, x, y)] == test_tile(w, h, rolls, x, y)
}

/// The inner cells (off the outer ring) that are walls.
pub open spec fn inner_walls(w: int, h: int, tiles: Seq<TileType>) -> Set<(int, int)> {
    Set::new(
        |c: (int, int)|
            in_bounds(w, h, c.0, c.1) && !on_border(w, h, c.0, c.1) && tiles[cell_index(w, c.0, c.1)]
                == TileType::Wall,
    )
}

/// The cells the rolls name.
pub open spec fn rolled_cells(rolls: Seq<(i32, i32)>) -> Set<(int, int)> {
    rolls.map_values(|r: (i32, i32)| (r.0 as int, r.1 as int)).to_set()
}

/// A test layout has no more inner walls than it had rolls.
pub proof fn lemma_test_layout_walls(w: int, h: int, rolls: Seq<(i32, i32)>, tiles: Seq<TileType>)
    requires
        is_test_layout(w, h, rolls, tiles),
    ensures
        inner_walls(w, h, tiles).len() <= rolls.len(),
        inner_walls(w, h, tiles).finite(),
{
    let cells = rolls.map_values(|r: (i32, i32)| (r.0 as int, r.1 as int));
    assert forall|c: (int, int)| #[trigger] inner_walls(w, h, tiles).contains(c) implies rolled_cells(rolls).contains(c) by {
        assert(tiles[cell_index(w, c.0, c.1)] == test_tile(w, h, rolls, c.0, c.1));
        let k = choose|k: int| 0 <= k < rolls.len() && #[trigger] rolls[k].0 == c.0 && rolls[k].1 == c.1;
        assert(cells[k] == c);
    }
    vstd::seq_lib::seq_to_set_is_finite(cells);
    vstd::set_lib::lemma_len_subset(inner_walls(w, h, tiles), rolled_cells(rolls));
    cells.lemma_cardinality_of_set();
}

impl GameMap {
    /// Returns a layout with solid walls all around and 400 random rolls for
    /// more walls, which spare the player's starting cell `(40, 25)`.
    pub fn new_map_test(&self) -> (map: Vec<TileType>)
        requires
            self.wf(),
            self.width >= 2,
            self.height >= 2,
            cell_index(self.width as int, 40, 25) <= i32::MAX,
        ensures
            exists|rolls: Seq<(i32, i32)>|
                rolls.len() == 400 && test_rolls_ok(self.width as int, self.height as int, rolls)
                    && #[trigger] is_test_layout(self.width as int, self.height as int, rolls, map@),
            map@.len() == self.cell_count(),
            inner_walls(self.width as int, self.height as int, map@).len() <= 400,
    {
        let mut rng = crate::rng::new_generator();
        let mut rolls: Vec<(i32, i32)> = Vec::new();
        let mut n: i32 = 0;
        while n < 400
            invariant
                0 <= n <= 400,
                rolls@.len() == n,
                self.width >= 2,
                self.height >= 2,
                test_rolls_ok(self.width as int, self.height as int, rolls@),
            decreases 400 - n,
        {
            let rx = crate::rng::roll_dice(&mut rng, 1, self.width - 1);
            let ry = crate::rng::roll_dice(&mut rng, 1, self.height - 1);
            rolls.push((rx, ry));
            n = n + 1;
        }
        let map = self.test_layout_from_rolls(&rolls);
        proof {
            lemma_test_layout_walls(self.width as int, self.height as int, rolls@, map@);
        }
        map
    }

    /// The test layout for the given rolls: solid walls all around; every
    /// other cell is a wall when some roll names it and it is not the
    /// player's starting cell `(40, 25)`, and floor otherwise.
    #[verifier::rlimit(40)]
    pub fn test_layout_from_rolls(&self, rolls: &Vec<(i32, i32)>) -> (map: Vec<TileType>)
        requires
            self.wf(),
            self.width >= 2,
            self.height >= 2,
            cell_index(self.width as int, 40, 25) <= i32::MAX,
            test_rolls_ok(self.width as int, self.height as int, rolls@),
        ensures
            is_test_layout(self.width as int, self.height as int, rolls@, map@),
    {
        let ghost w = self.width as int;
        let ghost h = self.height as int;
        let ghost spawn = cell_index(w, 40, 25);
        let count: usize = (self.width * self.height) as usize;
        let mut map: Vec<TileType> = Vec::new();
        let mut k: usize = 0;
        while k < count
            invariant
                k <= count,
                count == w * h,
                map@.len() == k,
                forall|i: int| 0 <= i < k ==> #[trigger] map@[i] == TileType::Floor,
            decreases count - k,
        {
            map.push(TileType::Floor);
            k = k + 1;
        }
        proof {
            assert forall|cx: int, cy: int| in_bounds(w, h, cx, cy) implies #[trigger] map@[cell_index(w, cx, cy)]
                == TileType::Floor by {
                lemma_cell_in_map(w, h, cx, cy);
            }
        }
        // Setting window boundaries as walls
        let mut x: i32 = 0;
        while x < self.width
            invariant
                self.wf(),
                w == self.width,
                h == self.height,
                w >= 2,
                h >= 2,
                0 <= x <= w,
                map@.len() == w * h,
                forall|cx: int, cy: int|
                    in_bounds(w, h, cx, cy) ==> #[trigger] map@[cell_index(w, cx, cy)] == if (cy == 0 || cy == h - 1) && cx < x {
                        TileType::Wall
                    } else {
                        TileType::Floor
                    },
            decreases w - x,
        {
            proof {
                lemma_cell_in_map(w, h, x as int, 0);
                lemma_cell_in_map(w, h, x as int, h - 1);
            }
            let top = self.xy_idx(x, 0);
            map.set(top, TileType::Wall);
            let bottom = self.xy_idx(x, self.height - 1);
            map.set(bottom, TileType::Wall);
            proof {
                assert forall|cx: int, cy: int| in_bounds(w, h, cx, cy) implies #[trigger] map@[cell_index(w, cx, cy)]
                    == if (cy == 0 || cy == h - 1) && cx < x + 1 {
                    TileType::Wall
                } else {
                    TileType::Floor
                } by {
                    lemma_cell_in_map(w, h, cx, cy);
                    if cell_index(w, cx, cy) == top {
                        lemma_cell_index_injective(w, cx, cy, x as int, 0);
                    }
                    if cell_index(w, cx, cy) == bottom {
                        lemma_cell_index_injective(w, cx, cy, x as int, h - 1);
                    }
                }
            }
            x = x + 1;
        }
        let mut y: i32 = 0;
        while y < self.height
            invariant
                self.wf(),
                w == self.width,
                h == self.height,
                w >= 2,
                h >= 2,
                0 <= y <= h,
                map@.len() == w * h,
                forall|cx: int, cy: int|
                    in_bounds(w, h, cx, cy) ==> #[trigger] map@[cell_index(w, cx, cy)] == if (cy == 0 || cy == h - 1) || ((cx
                        == 0 || cx == w - 1) && cy < y) {
                        TileType::Wall
                    } else {
                        TileType::Floor
                    },
            decreases h - y,
        {
            proof {
                lemma_cell_in_map(w, h, 0, y as int);
                lemma_cell_in_map(w, h, w - 1, y as int);
            }
            let left = self.xy_idx(0, y);
            map.set(left, TileType::Wall);
            let right = self.xy_idx(self.width - 1, y);
            map.set(right, TileType::Wall);
            proof {
                assert forall|cx: int, cy: int| in_bounds(w, h, cx, cy) implies #[trigger] map@[cell_index(w, cx, cy)]
                    == if (cy == 0 || cy == h - 1) || ((cx == 0 || cx == w - 1) && cy < y + 1) {
                    TileType::Wall
                } else {
                    TileType::Floor
                } by {
                    lemma_cell_in_map(w, h, cx, cy);
                    if cell_index(w, cx, cy) == left {
                        lemma_cell_index_injective(w, cx, cy, 0, y as int);
                    }
                    if cell_index(w, cx, cy) == right {
                        lemma_cell_index_injective(w, cx, cy, w - 1, y as int);
                    }
                }
            }
            y = y + 1;
        }
        // Random walls on ~10% of the cells
        proof {
            assert(25 * w >= 0) by (nonlinear_arith)
                requires
                    w >= 2,
            ;
        }
        let spawn_idx = self.xy_idx(40, 25);
        let mut n: usize = 0;
        while n < rolls.len()
            invariant
                self.wf(),
                w == self.width,
                h == self.height,
                w >= 2,
                h >= 2,
                0 <= n <= rolls@.len(),
                test_rolls_ok(w, h, rolls@),
                spawn_idx as int == spawn,
                map@.len() == w * h,
                forall|cx: int, cy: int|
                    in_bounds(w, h, cx, cy) ==> #[trigger] map@[cell_index(w, cx, cy)] == if on_border(w, h, cx, cy) {
                        TileType::Wall
                    } else if rolled_cell(rolls@, n as int, cx, cy) && cell_index(w, cx, cy) != spawn {
                        TileType::Wall
                    } else {
                        TileType::Floor
                    },
            decreases rolls@.len() - n,
        {
            let (rx, ry) = rolls[n];
            assert(1 <= rolls@[n as int].0 <= w - 1 && 1 <= rolls@[n as int].1 <= h - 1);
            proof {
                lemma_cell_in_map(w, h, rx as int, ry as int);
            }
            let idx = self.xy_idx(rx, ry);
            let ghost before = map@;
            if idx != spawn_idx {
                map.set(idx, TileType::Wall);
            }
            proof {
                assert forall|cx: int, cy: int| in_bounds(w, h, cx, cy) implies #[trigger] map@[cell_index(w, cx, cy)]
                    == if on_border(w, h, cx, cy) {
                    TileType::Wall
                } else if rolled_cell(rolls@, n + 1, cx, cy) && cell_index(w, cx, cy) != spawn {
                    TileType::Wall
                } else {
                    TileType::Floor
                } by {
                    lemma_cell_in_map(w, h, cx, cy);
                    assert(before[cell_index(w, cx, cy)] == if on_border(w, h, cx, cy) {
                        TileType::Wall
                    } else if rolled_cell(rolls@, n as int, cx, cy) && cell_index(w, cx, cy) != spawn {
                        TileType::Wall
                    } else {
                        TileType::Floor
                    });
                    if cx == rx && cy == ry {
                        assert(rolls@[n as int].0 == cx && rolls@[n as int].1 == cy);
                        assert(rolled_cell(rolls@, n + 1, cx, cy));
                    } else {
                        if cell_index(w, cx, cy) == idx {
                            lemma_cell_index_injective(w, cx, cy, rx as int, ry as int);
                        }
                        if rolled_cell(rolls@, n + 1, cx, cy) {
                            let k = choose|k: int| 0 <= k < n + 1 && #[trigger] rolls@[k].0 == cx && rolls@[k].1 == cy;
                            assert(k < n);
                            assert(rolled_cell(rolls@, n as int, cx, cy));
                        }
                        if rolled_cell(rolls@, n as int, cx, cy) {
                            let k = choose|k: int| 0 <= k < n && #[trigger] rolls@[k].0 == cx && rolls@[k].1 == cy;
                            assert(rolled_cell(rolls@, n + 1, cx, cy));
                        }
                    }
                }
            }
            n = n + 1;
        }
        proof {
            assert forall|cx: int, cy: int| in_bounds(w, h, cx, cy) implies #[trigger] map@[cell_index(w, cx, cy)]
                == test_tile(w, h, rolls@, cx, cy) by {
                assert(rolls@.len() == n);
            }
        }
        map
    }
}

/// Within a map, the index interval of a row segment holds exactly the
/// cells of that segment.
pub proof fn lemma_row_segment_cells(w: int, h: int, y: int, lo: int, hi: int, cx: int, cy: int)
    requires
        0 <= y < h,
        0 <= lo,
        hi < w,
        in_bounds(w, h, cx, cy),
    ensures
        (y * w + lo <= cell_index(w, cx, cy) <= y * w + hi) <==> (cy == y && lo <= cx <= hi),
{
    if cy < y {
        assert(cy * w + w <= y * w) by (nonlinear_arith)
            requires
                cy < y,
                w > 0,
        ;
    } else if cy > y {
        assert(y * w + w <= cy * w) by (nonlinear_arith)
            requires
                cy > y,
                w > 0,
        ;
    }
}

/// Within a map, the indices of a column segment are exactly the cells of
/// that segment.
pub proof fn lemma_column_segment_cells(w: int, h: int, x: int, lo: int, hi: int, cx: int, cy: int)
    requires
        0 <= x < w,
        0 <= lo,
        in_bounds(w, h, cx, cy),
    ensures
        (exists|r: int| lo <= r <= hi && cell_index(w, cx, cy) == cell_index(w, x, r)) <==> (cx == x && lo <= cy
            <= hi),
{
    if exists|r: int| lo <= r <= hi && cell_index(w, cx, cy) == cell_index(w, x, r) {
        let r = choose|r: int| lo <= r <= hi && cell_index(w, cx, cy) == cell_index(w, x, r);
        lemma_cell_index_injective(w, cx, cy, x, r);
    }
    if cx == x && lo <= cy <= hi {
        assert(lo <= cy <= hi && cell_index(w, cx, cy) == cell_index(w, x, cy));
    }
}

impl GameMap {
    /// The layout kept by the room-and-corridor generator: solid outer ring,
    /// only walls and floors, rooms inside the ring that never overlap, and
    /// every room's inside dug out.
    pub open spec fn rooms_layout_ok(&self) -> bool {
        let w = self.width as int;
        let h = self.height as int;
        &&& forall|x: int, y: int| #![trigger self.tile_at(x, y)]
            in_bounds(w, h, x, y) ==> (self.tile_at(x, y) == TileType::Wall || self.tile_at(x, y) == TileType::Floor)
        &&& forall|x: int, y: int| #![trigger self.tile_at(x, y)]
            in_bounds(w, h, x, y) && on_border(w, h, x, y) ==> self.tile_at(x, y) == TileType::Wall
        &&& forall|k: int| 0 <= k < self.rooms@.len() ==> {
            let r = #[trigger] self.rooms@[k];
            &&& 0 <= r.x1
            &&& r.x1 + 6 <= r.x2 <= w - 2
            &&& 0 <= r.y1
            &&& r.y1 + 6 <= r.y2 <= h - 2
        }
        &&& forall|j: int, k: int| #![trigger self.rooms@[j], self.rooms@[k]]
            0 <= j < k < self.rooms@.len() ==> !self.rooms@[j].overlaps(&self.rooms@[k])
        &&& forall|k: int, x: int, y: int| #![trigger self.rooms@[k], self.tile_at(x, y)]
            0 <= k < self.rooms@.len() && in_bounds(w, h, x, y) && self.rooms@[k].x1 < x <= self.rooms@[k].x2
                && self.rooms@[k].y1 < y <= self.rooms@[k].y2 ==> self.tile_at(x, y) == TileType::Floor
    }

    /// Whether the L-shaped corridor from `a` to `b` is dug: the cells of
    /// row `a.1` between the two columns, and the cells of column `b.0`
    /// between the two rows, are floor.
    pub open spec fn joined(&self, a: (int, int), b: (int, int)) -> bool {
        &&& forall|x: int| min(a.0, b.0) <= x <= max(a.0, b.0) ==> #[trigger] self.tile_at(x, a.1) == TileType::Floor
        &&& forall|y: int| min(a.1, b.1) <= y <= max(a.1, b.1) ==> #[trigger] self.tile_at(b.0, y) == TileType::Floor
    }

    /// Every room is joined to the one before it by the corridor between
    /// their centres.
    pub open spec fn rooms_joined(&self) -> bool {
        forall|k: int| 1 <= k < self.rooms@.len() ==> self.joined(center_of(self.rooms@[k - 1]), center_of(#[trigger] self.rooms@[k]))
    }

    /// Every floor cell was dug for a room: it lies inside some room, or on
    /// the corridor that joins some room to the one before it.
    pub open spec fn floors_dug(&self) -> bool {
        forall|x: int, y: int| #![trigger self.tile_at(x, y)]
            in_bounds(self.width as int, self.height as int, x, y) && self.tile_at(x, y) == TileType::Floor
                ==> dug_for(self.rooms@, x, y)
    }

    /// Every cell either became floor or kept its tile, and only cells away
    /// from the outer ring changed.
    pub open spec fn dug_from(&self, before: &GameMap) -> bool {
        let w = self.width as int;
        let h = self.height as int;
        &&& self.wf()
        &&& self.same_but_tiles(before)
        &&& forall|x: int, y: int| #![trigger self.tile_at(x, y)]
            in_bounds(w, h, x, y) ==> (self.tile_at(x, y) == before.tile_at(x, y) || (self.tile_at(x, y)
                == TileType::Floor && !on_border(w, h, x, y)))
    }

    /// Digs a corridor from `(x1, y1)` to `(x2, y2)`: first along row `y1`
    /// then along column `x2`, or the other way round.
    #[verifier::spinoff_prover]
    #[verifier::rlimit(30)]
    fn dig_corridor(&mut self, x1: i32, y1: i32, x2: i32, y2: i32, horizontal_first: bool)
        requires
            old(self).wf(),
            old(self).width == ROOMS_MAP_WIDTH,
            old(self).height == ROOMS_MAP_HEIGHT,
            1 <= x1 <= ROOMS_MAP_WIDTH - 2,
            1 <= x2 <= ROOMS_MAP_WIDTH - 2,
            1 <= y1 <= ROOMS_MAP_HEIGHT - 2,
            1 <= y2 <= ROOMS_MAP_HEIGHT - 2,
        ensures
            final(self).dug_from(&*old(self)),
            forall|cx: int, cy: int| #![trigger final(self).tile_at(cx, cy)]
                in_bounds(old(self).width as int, old(self).height as int, cx, cy) ==> final(self).tile_at(cx, cy)
                    == old(self).tile_at(cx, cy) || on_corridor((x1 as int, y1 as int), (x2 as int, y2 as int), cx, cy),
            forall|x: int| min(x1 as int, x2 as int) <= x <= max(x1 as int, x2 as int) ==> #[trigger] final(self).tile_at(
                x,
                y1 as int,
            ) == TileType::Floor,
            forall|y: int| min(y1 as int, y2 as int) <= y <= max(y1 as int, y2 as int) ==> #[trigger] final(self).tile_at(
                x2 as int,
                y,
            ) == TileType::Floor,
    {
        let ghost w = self.width as int;
        let ghost h = self.height as int;
        let ghost start = *self;
        proof {
            assert(y1 * self.width == y1 * ROOMS_MAP_WIDTH);
            assert(y2 * self.width == y2 * ROOMS_MAP_WIDTH);
        }
        if horizontal_first {
            assert(i32::MIN <= y1 * self.width <= i32::MAX && i32::MIN <= y1 * self.width + x1 <= i32::MAX
                && i32::MIN <= y1 * self.width + x2 <= i32::MAX);
            self.apply_horizontal_tunnel(x1, x2, y1);
            let ghost mid = *self;
            proof {
                assert forall|cx: int, cy: int| #![trigger mid.tile_at(cx, cy)] in_bounds(w, h, cx, cy) implies
                    (mid.tile_at(cx, cy) == start.tile_at(cx, cy) || (mid.tile_at(cx, cy) == TileType::Floor
                        && !on_border(w, h, cx, cy))) by {
                    lemma_cell_in_map(w, h, cx, cy);
                    lemma_row_segment_cells(w, h, y1 as int, min(x1 as int, x2 as int), max(x1 as int, x2 as int), cx, cy);
                }
            }
            assert(self.width == ROOMS_MAP_WIDTH);
            assert(i32::MIN <= y1 * self.width + x2 <= i32::MAX && i32::MIN <= y2 * self.width + x2 <= i32::MAX
                && i32::MIN <= y1 * self.width <= i32::MAX && i32::MIN <= y2 * self.width <= i32::MAX);
            self.apply_vertical_tunnel(y1, y2, x2);
            proof {
                assert forall|cx: int, cy: int| #![trigger self.tile_at(cx, cy)] in_bounds(w, h, cx, cy) implies
                    (self.tile_at(cx, cy) == start.tile_at(cx, cy) || (self.tile_at(cx, cy) == TileType::Floor
                        && !on_border(w, h, cx, cy))) by {
                    lemma_cell_in_map(w, h, cx, cy);
                    lemma_column_segment_cells(w, h, x2 as int, min(y1 as int, y2 as int), max(y1 as int, y2 as int), cx, cy);
                    assert(mid.tile_at(cx, cy) == start.tile_at(cx, cy) || (mid.tile_at(cx, cy) == TileType::Floor
                        && !on_border(w, h, cx, cy)));
                }
                assert forall|x: int| min(x1 as int, x2 as int) <= x <= max(x1 as int, x2 as int) implies #[trigger] self.tile_at(
                    x,
                    y1 as int,
                ) == TileType::Floor by {
                    lemma_cell_in_map(w, h, x, y1 as int);
                    assert(mid.tiles@[cell_index(w, x, y1 as int)] == TileType::Floor);
                }
                assert forall|y: int| min(y1 as int, y2 as int) <= y <= max(y1 as int, y2 as int) implies #[trigger] self.tile_at(
                    x2 as int,
                    y,
                ) == TileType::Floor by {
                    lemma_cell_in_map(w, h, x2 as int, y);
                    assert(0 < cell_index(w, x2 as int, y));
                }
            }
        } else {
            self.apply_vertical_tunnel(y1, y2, x2);
            let ghost mid = *self;
            proof {
                assert forall|cx: int, cy: int| #![trigger mid.tile_at(cx, cy)] in_bounds(w, h, cx, cy) implies
                    (mid.tile_at(cx, cy) == start.tile_at(cx, cy) || (mid.tile_at(cx, cy) == TileType::Floor
                        && !on_border(w, h, cx, cy))) by {
                    lemma_cell_in_map(w, h, cx, cy);
                    lemma_column_segment_cells(w, h, x2 as int, min(y1 as int, y2 as int), max(y1 as int, y2 as int), cx, cy);
                }
            }
            self.apply_horizontal_tunnel(x1, x2, y1);
            proof {
                assert forall|cx: int, cy: int| #![trigger self.tile_at(cx, cy)] in_bounds(w, h, cx, cy) implies
                    (self.tile_at(cx, cy) == start.tile_at(cx, cy) || (self.tile_at(cx, cy) == TileType::Floor
                        && !on_border(w, h, cx, cy))) by {
                    lemma_cell_in_map(w, h, cx, cy);
                    lemma_row_segment_cells(w, h, y1 as int, min(x1 as int, x2 as int), max(x1 as int, x2 as int), cx, cy);
                    assert(mid.tile_at(cx, cy) == start.tile_at(cx, cy) || (mid.tile_at(cx, cy) == TileType::Floor
                        && !on_border(w, h, cx, cy)));
                }
                assert forall|x: int| min(x1 as int, x2 as int) <= x <= max(x1 as int, x2 as int) implies #[trigger] self.tile_at(
                    x,
                    y1 as int,
                ) == TileType::Floor by {
                    lemma_cell_in_map(w, h, x, y1 as int);
                    assert(0 < cell_index(w, x, y1 as int));
                }
                assert forall|y: int| min(y1 as int, y2 as int) <= y <= max(y1 as int, y2 as int) implies #[trigger] self.tile_at(
                    x2 as int,
                    y,
                ) == TileType::Floor by {
                    lemma_cell_in_map(w, h, x2 as int, y);
                    assert(0 < cell_index(w, x2 as int, y));
                    assert(mid.tiles@[cell_index(w, x2 as int, y)] == TileType::Floor);
                }
            }
        }
    }
}

/// Cell `(x, y)` lies inside `room` (its walls excluded).
pub open spec fn in_room(room: Rect, x: int, y: int) -> bool {
    room.x1 < x <= room.x2 && room.y1 < y <= room.y2
}

/// Cell `(x, y)` lies on the L-shaped corridor from `a` to `b`: along row
/// `a.1` between the two columns, or along column `b.0` between the two rows.
pub open spec fn on_corridor(a: (int, int), b: (int, int), x: int, y: int) -> bool {
    (y == a.1 && min(a.0, b.0) <= x <= max(a.0, b.0)) || (x == b.0 && min(a.1, b.1) <= y <= max(a.1, b.1))
}

/// Cell `(x, y)` is dug for the rooms: it lies inside one of them, or on the
/// corridor joining one of them to the one before it.
pub open spec fn dug_for(rooms: Seq<Rect>, x: int, y: int) -> bool {
    ||| exists|k: int| 0 <= k < rooms.len() && in_room(#[trigger] rooms[k], x, y)
    ||| exists|k: int| 1 <= k < rooms.len() && on_corridor(center_of(rooms[k - 1]), center_of(#[trigger] rooms[k]), x, y)
}

/// Adding a room, dug out and joined to the last one, keeps every floor cell
/// accounted for.
proof fn lemma_floors_dug_after_new_room(before: GameMap, dug: GameMap, after: GameMap, room: Rect)
    requires
        before.floors_dug(),
        dug.width == before.width,
        dug.height == before.height,
        forall|cx: int, cy: int| #![trigger dug.tile_at(cx, cy)]
            in_bounds(before.width as int, before.height as int, cx, cy) ==> dug.tile_at(cx, cy) == before.tile_at(cx, cy)
                || in_room(room, cx, cy) || (before.rooms@.len() > 0 && on_corridor(
                center_of(before.rooms@.last()),
                center_of(room),
                cx,
                cy,
            )),
        after.tiles@ == dug.tiles@,
        after.width == dug.width,
        after.height == dug.height,
        after.rooms@ == before.rooms@.push(room),
    ensures
        after.floors_dug(),
{
    let n = before.rooms@.len() as int;
    assert forall|x: int, y: int| #![trigger after.tile_at(x, y)]
        in_bounds(after.width as int, after.height as int, x, y) && after.tile_at(x, y) == TileType::Floor implies dug_for(
        after.rooms@,
        x,
        y,
    ) by {
        assert(dug.tile_at(x, y) == after.tile_at(x, y));
        if in_room(room, x, y) {
            assert(after.rooms@[n] == room);
            assert(in_room(after.rooms@[n], x, y));
        } else if before.rooms@.len() > 0 && on_corridor(center_of(before.rooms@.last()), center_of(room), x, y) {
            assert(after.rooms@[n] == room);
            assert(after.rooms@[n - 1] == before.rooms@.last());
            assert(on_corridor(center_of(after.rooms@[n - 1]), center_of(after.rooms@[n]), x, y));
        } else {
            assert(before.tile_at(x, y) == TileType::Floor);
            assert(dug_for(before.rooms@, x, y));
            if exists|k: int| 0 <= k < before.rooms@.len() && in_room(#[trigger] before.rooms@[k], x, y) {
                let k = choose|k: int| 0 <= k < before.rooms@.len() && in_room(#[trigger] before.rooms@[k], x, y);
                assert(after.rooms@[k] == before.rooms@[k]);
                assert(in_room(after.rooms@[k], x, y));
            } else {
                let k = choose|k: int|
                    1 <= k < before.rooms@.len() && on_corridor(
                        center_of(before.rooms@[k - 1]),
                        center_of(#[trigger] before.rooms@[k]),
                        x,
                        y,
                    );
                assert(after.rooms@[k] == before.rooms@[k]);
                assert(after.rooms@[k - 1] == before.rooms@[k - 1]);
                assert(on_corridor(center_of(after.rooms@[k - 1]), center_of(after.rooms@[k]), x, y));
            }
        }
    }
}

/// No cell lies in two of the rooms, their walls included.
pub open spec fn rooms_apart(rooms: Seq<Rect>) -> bool {
    forall|j: int, k: int, x: int, y: int|
        0 <= j < k < rooms.len() && #[trigger] rooms[j].covers(x, y) ==> !#[trigger] rooms[k].covers(x, y)
}

/// The rooms of a room-and-corridor layout never share a cell, not even a
/// wall: a room that would touch an earlier one is not kept.
pub proof fn lemma_rooms_apart(map: GameMap)
    requires
        map.rooms_layout_ok(),
    ensures
        rooms_apart(map.rooms@),
{
    assert forall|j: int, k: int, x: int, y: int|
        0 <= j < k < map.rooms@.len() && #[trigger] map.rooms@[j].covers(x, y) implies !#[trigger] map.rooms@[k].covers(x, y) by {
        let a = map.rooms@[j];
        let b = map.rooms@[k];
        assert(!a.overlaps(&b));
        lemma_overlaps_shares_a_cell(a, b);
    }
}

/// A room candidate: the first corner `(x, y)`, the width and height, and
/// whether the corridor to the previous room is dug along the row first.
pub type RoomCandidate = (i32, i32, i32, i32, bool);

/// The rectangle a candidate proposes.
pub open spec fn cand_rect(c: RoomCandidate) -> Rect {
    Rect { x1: c.0, x2: (c.0 + c.2) as i32, y1: c.1, y2: (c.1 + c.3) as i32 }
}

/// A candidate as the generator's dice make it: sides in
/// `MIN_SIZE..MAX_SIZE`, and a first corner that keeps the room off the
/// outer ring.
pub open spec fn cand_ok(c: RoomCandidate) -> bool {
    &&& MIN_SIZE <= c.2 < MAX_SIZE
    &&& MIN_SIZE <= c.3 < MAX_SIZE
    &&& 0 <= c.0 <= ROOMS_MAP_WIDTH - 2 - c.2
    &&& 0 <= c.1 <= ROOMS_MAP_HEIGHT - 2 - c.3
}

/// `room` overlaps none of `rooms`.
pub open spec fn fits_among(rooms: Seq<Rect>, room: Rect) -> bool {
    forall|k: int| 0 <= k < rooms.len() ==> !room.overlaps(&#[trigger] rooms[k])
}

/// The rooms kept from a run of proposed rooms: each in turn is kept when it
/// overlaps no room kept before it.
pub open spec fn kept_rooms(proposed: Seq<Rect>) -> Seq<Rect>
    decreases proposed.len(),
{
    if proposed.len() == 0 {
        Seq::empty()
    } else {
        let before = kept_rooms(proposed.drop_last());
        if fits_among(before, proposed.last()) {
            before.push(proposed.last())
        } else {
            before
        }
    }
}

/// The rooms kept from a run of candidates.
pub open spec fn rooms_from(cands: Seq<RoomCandidate>) -> Seq<Rect> {
    kept_rooms(cands.map_values(|c: RoomCandidate| cand_rect(c)))
}

/// Never more rooms are kept than proposed, and the first proposal is always
/// kept, so some room is kept from any proposals at all.
pub proof fn lemma_kept_rooms_len(proposed: Seq<Rect>)
    ensures
        kept_rooms(proposed).len() <= proposed.len(),
        proposed.len() >= 1 ==> kept_rooms(proposed).len() >= 1,
    decreases proposed.len(),
{
    if proposed.len() > 0 {
        lemma_kept_rooms_len(proposed.drop_last());
        if proposed.len() == 1 {
            assert(kept_rooms(proposed.drop_last()) =~= Seq::<Rect>::empty());
        }
    }
}

/// Returns whether `room` overlaps none of `rooms`.
pub fn fits(rooms: &Vec<Rect>, room: &Rect) -> (ok: bool)
    ensures
        ok == fits_among(rooms@, *room),
{
    let mut ok = true;
    let mut j: usize = 0;
    while j < rooms.len()
        invariant
            j <= rooms@.len(),
            ok <==> forall|k: int| 0 <= k < j ==> !room.overlaps(&#[trigger] rooms@[k]),
        decreases rooms@.len() - j,
    {
        if room.intersects(&rooms[j]) {
            ok = false;
        }
        j = j + 1;
    }
    ok
}

impl GameMap {
    /// Makes a new map of up to thirty random rooms that do not overlap, each
    /// joined to the previous one by an L-shaped corridor between their
    /// centres. The dice are rolled for thirty candidates, and for the
    /// corridor of each kept room after the first.
    pub fn new_map_rooms_and_corridors() -> (map: GameMap)
        ensures
            exists|cands: Seq<RoomCandidate>|
                cands.len() == MAX_ROOMS && (forall|k: int| 0 <= k < cands.len() ==> cand_ok(#[trigger] cands[k]))
                    && map.rooms@ == #[trigger] rooms_from(cands),
            map.wf(),
            map.width == ROOMS_MAP_WIDTH,
            map.height == ROOMS_MAP_HEIGHT,
            1 <= map.rooms@.len() <= 30,
            map.rooms_layout_ok(),
            map.rooms_joined(),
            map.floors_dug(),
            rooms_apart(map.rooms@),
            map.depth == 1,
            map.name@ == Seq::<char>::empty(),
            map.outdoors,
    {
        let mut rng = crate::rng::new_generator();
        let mut cands: Vec<RoomCandidate> = Vec::new();
        let mut kept: Vec<Rect> = Vec::new();
        let mut n: i32 = 0;
        while n < MAX_ROOMS
            invariant
                0 <= n <= MAX_ROOMS,
                cands@.len() == n,
                forall|k: int| 0 <= k < cands@.len() ==> cand_ok(#[trigger] cands@[k]),
            decreases MAX_ROOMS - n,
        {
            let rw = crate::rng::range(&mut rng, MIN_SIZE, MAX_SIZE);
            let rh = crate::rng::range(&mut rng, MIN_SIZE, MAX_SIZE);
            let x = crate::rng::roll_dice(&mut rng, 1, ROOMS_MAP_WIDTH - 1 - rw) - 1;
            let y = crate::rng::roll_dice(&mut rng, 1, ROOMS_MAP_HEIGHT - 1 - rh) - 1;
            let room = Rect::new(x, y, rw, rh);
            // The corridor coin is drawn only for a kept room after the first.
            let mut row_first = false;
            if fits(&kept, &room) {
                if kept.len() > 0 {
                    row_first = crate::rng::range(&mut rng, 0, 2) == 1;
                }
                kept.push(room);
            }
            cands.push((x, y, rw, rh, row_first));
            n = n + 1;
        }
        let map = Self::rooms_from_rolls(&cands);
        proof {
            lemma_kept_rooms_len(cands@.map_values(|c: RoomCandidate| cand_rect(c)));
            lemma_rooms_apart(map);
        }
        map
    }

    /// Lays out the rooms and corridors for the given candidates, in order:
    /// a candidate's room is kept when it overlaps no room kept before it;
    /// a kept room is dug out and, after the first, joined to the previous
    /// kept room by an L-shaped corridor between their centres (along the
    /// row first or the column first, as the candidate says; both dig the
    /// same cells).
    #[verifier::rlimit(40)]
    pub fn rooms_from_rolls(cands: &Vec<RoomCandidate>) -> (map: GameMap)
        requires
            forall|k: int| 0 <= k < cands@.len() ==> cand_ok(#[trigger] cands@[k]),
        ensures
            map.rooms@ == rooms_from(cands@),
            map.wf(),
            map.width == ROOMS_MAP_WIDTH,
            map.height == ROOMS_MAP_HEIGHT,
            map.rooms_layout_ok(),
            map.rooms_joined(),
            map.floors_dug(),
            rooms_apart(map.rooms@),
            map.rooms@.len() <= cands@.len(),
            cands@.len() >= 1 ==> map.rooms@.len() >= 1,
            map.depth == 1,
            map.name@ == Seq::<char>::empty(),
            map.outdoors,
    {
        let ghost proposed = cands@.map_values(|c: RoomCandidate| cand_rect(c));
        let mut map = GameMap::new(1, ROOMS_MAP_WIDTH, ROOMS_MAP_HEIGHT, String::new());
        let ghost w = ROOMS_MAP_WIDTH as int;
        let ghost h = ROOMS_MAP_HEIGHT as int;
        proof {
            assert forall|x: int, y: int| #![trigger map.tile_at(x, y)] in_bounds(w, h, x, y) implies map.tile_at(x, y)
                == TileType::Wall by {
                lemma_cell_in_map(w, h, x, y);
            }
            assert(proposed.take(0) =~= Seq::<Rect>::empty());
            assert(map.floors_dug());
        }
        let mut i: usize = 0;
        while i < cands.len()
            invariant
                map.wf(),
                map.width == ROOMS_MAP_WIDTH,
                map.height == ROOMS_MAP_HEIGHT,
                0 <= i <= cands@.len(),
                w == ROOMS_MAP_WIDTH,
                h == ROOMS_MAP_HEIGHT,
                forall|k: int| 0 <= k < cands@.len() ==> cand_ok(#[trigger] cands@[k]),
                proposed == cands@.map_values(|c: RoomCandidate| cand_rect(c)),
                map.rooms@ == kept_rooms(proposed.take(i as int)),
                map.rooms_layout_ok(),
                map.rooms_joined(),
                map.floors_dug(),
                map.depth == 1,
                map.name@ == Seq::<char>::empty(),
                map.outdoors,
            decreases cands@.len() - i,
        {
            let (x, y, rw, rh, row_first) = cands[i];
            assert(cand_ok(cands@[i as int]));
            let new_room = Rect::new(x, y, rw, rh);
            proof {
                assert(proposed[i as int] == new_room);
                assert(proposed.take(i + 1).drop_last() =~= proposed.take(i as int));
                assert(proposed.take(i + 1).last() == new_room);
            }
            let ok = fits(&map.rooms, &new_room);
            if ok {
                let ghost before = map;
                map.apply_room_to_map(&new_room);
                let ghost after_room = map;
                proof {
                    assert forall|cx: int, cy: int| #![trigger after_room.tile_at(cx, cy)] in_bounds(w, h, cx, cy) implies
                        (after_room.tile_at(cx, cy) == before.tile_at(cx, cy) || (after_room.tile_at(cx, cy)
                            == TileType::Floor && !on_border(w, h, cx, cy))) by {
                        assert(0 <= new_room.x1 && new_room.x2 <= w - 2);
                        assert(0 <= new_room.y1 && new_room.y2 <= h - 2);
                        assert(after_room.tile_at(cx, cy) == if new_room.x1 < cx <= new_room.x2 && new_room.y1 < cy <= new_room.y2 {
                            TileType::Floor
                        } else {
                            before.tile_at(cx, cy)
                        });
                    }
                }
                if map.rooms.len() > 0 {
                    let (new_x, new_y) = new_room.center();
                    let last = map.rooms.len() - 1;
                    let (old_x, old_y) = map.rooms[last].center();
                    proof {
                        let r = map.rooms@[last as int];
                        assert(r == before.rooms@[last as int]);
                    }
                    if row_first {
                        map.dig_corridor(old_x, old_y, new_x, new_y, true);
                    } else {
                        map.dig_corridor(old_x, old_y, new_x, new_y, false);
                    }
                    assert(map.joined(center_of(before.rooms@[last as int]), center_of(new_room)));
                    proof {
                        assert forall|cx: int, cy: int| #![trigger map.tile_at(cx, cy)] in_bounds(w, h, cx, cy) implies
                            (map.tile_at(cx, cy) == before.tile_at(cx, cy) || (map.tile_at(cx, cy)
                                == TileType::Floor && !on_border(w, h, cx, cy))) by {
                            assert(after_room.tile_at(cx, cy) == before.tile_at(cx, cy) || (after_room.tile_at(cx, cy)
                                == TileType::Floor && !on_border(w, h, cx, cy)));
                        }
                        assert forall|cx: int, cy: int| #![trigger map.tile_at(cx, cy)] in_bounds(w, h, cx, cy)
                            && new_room.x1 < cx <= new_room.x2 && new_room.y1 < cy <= new_room.y2 implies
                            map.tile_at(cx, cy) == TileType::Floor by {
                            assert(after_room.tile_at(cx, cy) == TileType::Floor);
                        }
                    }
                }
                let ghost before_push = map;
                proof {
                    assert forall|cx: int, cy: int| #![trigger before_push.tile_at(cx, cy)] in_bounds(w, h, cx, cy) implies
                        before_push.tile_at(cx, cy) == before.tile_at(cx, cy) || in_room(new_room, cx, cy) || (
                        before.rooms@.len() > 0 && on_corridor(center_of(before.rooms@.last()), center_of(new_room), cx, cy)) by {
                        assert(after_room.tile_at(cx, cy) == if new_room.x1 < cx <= new_room.x2 && new_room.y1 < cy <= new_room.y2 {
                            TileType::Floor
                        } else {
                            before.tile_at(cx, cy)
                        });
                    }
                }
                map.rooms.push(new_room);
                proof {
                    lemma_floors_dug_after_new_room(before, before_push, map, new_room);
                    lemma_layout_after_new_room(before, before_push, map, new_room);
                    lemma_joined_after_new_room(before, before_push, map, new_room);
                }
            }
            i = i + 1;
        }
        proof {
            assert(proposed.take(cands@.len() as int) =~= proposed);
            lemma_kept_rooms_len(proposed);
            lemma_rooms_apart(map);
        }
        map
    }
}

/// Digging only ever turns cells into floor, so a corridor dug earlier
/// stays dug; and the corridor just dug joins the new room to the last one.
proof fn lemma_joined_after_new_room(before: GameMap, dug: GameMap, after: GameMap, room: Rect)
    requires
        before.wf(),
        before.width == ROOMS_MAP_WIDTH,
        before.height == ROOMS_MAP_HEIGHT,
        before.rooms_layout_ok(),
        before.rooms_joined(),
        dug.width == before.width,
        dug.height == before.height,
        dug.rooms@ == before.rooms@,
        forall|cx: int, cy: int| #![trigger dug.tile_at(cx, cy)]
            in_bounds(before.width as int, before.height as int, cx, cy) ==> (dug.tile_at(cx, cy) == before.tile_at(cx, cy)
                || dug.tile_at(cx, cy) == TileType::Floor),
        before.rooms@.len() > 0 ==> dug.joined(center_of(before.rooms@.last()), center_of(room)),
        after.tiles@ == dug.tiles@,
        after.width == dug.width,
        after.height == dug.height,
        after.rooms@ == dug.rooms@.push(room),
    ensures
        after.rooms_joined(),
{
    let w = before.width as int;
    let h = before.height as int;
    assert forall|k: int| 1 <= k < after.rooms@.len() implies after.joined(
        center_of(after.rooms@[k - 1]),
        center_of(#[trigger] after.rooms@[k]),
    ) by {
        let a = center_of(after.rooms@[k - 1]);
        let b = center_of(after.rooms@[k]);
        if k < before.rooms@.len() {
            let ra = before.rooms@[k - 1];
            let rb = before.rooms@[k];
            assert(before.joined(center_of(ra), center_of(rb)));
            assert forall|x: int| min(a.0, b.0) <= x <= max(a.0, b.0) implies #[trigger] after.tile_at(x, a.1) == TileType::Floor by {
                assert(before.tile_at(x, a.1) == TileType::Floor);
                assert(in_bounds(w, h, x, a.1));
                assert(dug.tile_at(x, a.1) == before.tile_at(x, a.1) || dug.tile_at(x, a.1) == TileType::Floor);
            }
            assert forall|y: int| min(a.1, b.1) <= y <= max(a.1, b.1) implies #[trigger] after.tile_at(b.0, y) == TileType::Floor by {
                assert(before.tile_at(b.0, y) == TileType::Floor);
                assert(in_bounds(w, h, b.0, y));
                assert(dug.tile_at(b.0, y) == before.tile_at(b.0, y) || dug.tile_at(b.0, y) == TileType::Floor);
            }
        } else {
            assert(after.rooms@[k - 1] == before.rooms@.last());
            assert(after.rooms@[k] == room);
            assert forall|x: int| min(a.0, b.0) <= x <= max(a.0, b.0) implies #[trigger] after.tile_at(x, a.1) == TileType::Floor by {
                assert(dug.tile_at(x, a.1) == TileType::Floor);
            }
            assert forall|y: int| min(a.1, b.1) <= y <= max(a.1, b.1) implies #[trigger] after.tile_at(b.0, y) == TileType::Floor by {
                assert(dug.tile_at(b.0, y) == TileType::Floor);
            }
        }
    }
}

/// Digging a room that overlaps no earlier room, joining it up, and
/// recording it keeps the room-and-corridor layout.
proof fn lemma_layout_after_new_room(before: GameMap, dug: GameMap, after: GameMap, room: Rect)
    requires
        before.wf(),
        before.width == ROOMS_MAP_WIDTH,
        before.height == ROOMS_MAP_HEIGHT,
        before.rooms_layout_ok(),
        0 <= room.x1,
        room.x1 + 6 <= room.x2 <= ROOMS_MAP_WIDTH - 2,
        0 <= room.y1,
        room.y1 + 6 <= room.y2 <= ROOMS_MAP_HEIGHT - 2,
        forall|k: int| 0 <= k < before.rooms@.len() ==> !room.overlaps(&#[trigger] before.rooms@[k]),
        dug.wf(),
        dug.same_but_tiles(&before),
        forall|cx: int, cy: int| #![trigger dug.tile_at(cx, cy)]
            in_bounds(before.width as int, before.height as int, cx, cy) ==> (dug.tile_at(cx, cy) == before.tile_at(cx, cy)
                || (dug.tile_at(cx, cy) == TileType::Floor && !on_border(before.width as int, before.height as int, cx, cy))),
        forall|cx: int, cy: int| #![trigger dug.tile_at(cx, cy)]
            in_bounds(before.width as int, before.height as int, cx, cy) && room.x1 < cx <= room.x2 && room.y1 < cy
                <= room.y2 ==> dug.tile_at(cx, cy) == TileType::Floor,
        after.tiles@ == dug.tiles@,
        after.width == dug.width,
        after.height == dug.height,
        after.rooms@ == dug.rooms@.push(room),
    ensures
        after.rooms_layout_ok(),
{
    let w = before.width as int;
    let h = before.height as int;
    assert forall|x: int, y: int| #![trigger after.tile_at(x, y)] in_bounds(w, h, x, y) implies (after.tile_at(x, y)
        == TileType::Wall || after.tile_at(x, y) == TileType::Floor) by {
        assert(dug.tile_at(x, y) == before.tile_at(x, y) || dug.tile_at(x, y) == TileType::Floor);
        assert(before.tile_at(x, y) == TileType::Wall || before.tile_at(x, y) == TileType::Floor);
    }
    assert forall|x: int, y: int| #![trigger after.tile_at(x, y)] in_bounds(w, h, x, y) && on_border(w, h, x, y) implies
        after.tile_at(x, y) == TileType::Wall by {
        assert(dug.tile_at(x, y) == before.tile_at(x, y) || dug.tile_at(x, y) == TileType::Floor);
        assert(before.tile_at(x, y) == TileType::Wall);
    }
    assert forall|j: int, k: int| #![trigger after.rooms@[j], after.rooms@[k]]
        0 <= j < k < after.rooms@.len() implies !after.rooms@[j].overlaps(&after.rooms@[k]) by {
        if k == before.rooms@.len() {
            assert(!room.overlaps(&before.rooms@[j]));
        } else {
            assert(!before.rooms@[j].overlaps(&before.rooms@[k]));
        }
    }
    assert forall|k: int, x: int, y: int| #![trigger after.rooms@[k], after.tile_at(x, y)]
        0 <= k < after.rooms@.len() && in_bounds(w, h, x, y) && after.rooms@[k].x1 < x <= after.rooms@[k].x2
            && after.rooms@[k].y1 < y <= after.rooms@[k].y2 implies after.tile_at(x, y) == TileType::Floor by {
        assert(dug.tile_at(x, y) == before.tile_at(x, y) || dug.tile_at(x, y) == TileType::Floor);
        if k < before.rooms@.len() {
            let r = before.rooms@[k];
            assert(before.tile_at(x, y) == TileType::Floor);
        }
    }
    assert forall|k: int| 0 <= k < after.rooms@.len() implies {
        let r = #[trigger] after.rooms@[k];
        &&& 0 <= r.x1
        &&& r.x1 + 6 <= r.x2 <= w - 2
        &&& 0 <= r.y1
        &&& r.y1 + 6 <= r.y2 <= h - 2
    } by {
        if k < before.rooms@.len() {
            let r = before.rooms@[k];
        }
    }
}

/// A negative index, once converted to `usize`, lies past any map.
pub proof fn lemma_negative_index_far(v: int)
    requires
        i32::MIN <= v < 0,
    ensures
        ((v as i32) as usize) > i32::MAX,
{
    let vi = v as i32;
    assert(vi < 0 ==> (vi as usize) > (i32::MAX as usize)) by (bit_vector);
}

/// Returns a copy of the first `n` entries of `v`.
fn copy_prefix<T: Copy>(v: &Vec<T>, n: usize) -> (r: Vec<T>)
    requires
        n <= v@.len(),
    ensures
        r@ == v@.subrange(0, n as int),
{
    let mut r: Vec<T> = Vec::new();
    let mut i: usize = 0;
    while i < n
        invariant
            i <= n,
            n <= v@.len(),
            r@ == v@.subrange(0, i as int),
        decreases n - i,
    {
        r.push(v[i]);
        i = i + 1;
    }
    r
}

/// Returns a copy of `v`.
fn copy_vec<T: Copy>(v: &Vec<T>) -> (r: Vec<T>)
    ensures
        r@ == v@,
{
    let r = copy_prefix(v, v.len());
    assert(v@.subrange(0, v@.len() as int) =~= v@);
    r
}

/// Returns a copy of a set of cell indices, all below `count`.
fn copy_index_set(s: &HashSet<usize>, count: usize) -> (r: HashSet<usize>)
    requires
        forall|i: usize| #[trigger] s@.contains(i) ==> i < count,
    ensures
        r@ == s@,
{
    let mut r: HashSet<usize> = HashSet::new();
    let mut i: usize = 0;
    while i < count
        invariant
            i <= count,
            forall|j: usize| #[trigger] r@.contains(j) <==> (j < i && s@.contains(j)),
        decreases count - i,
    {
        if s.contains(&i) {
            r.insert(i);
        }
        i = i + 1;
    }
    assert(r@ =~= s@);
    r
}

impl GameMap {
    /// Returns a copy of the map.
    pub fn clone_map(&self) -> (copy: GameMap)
        requires
            self.wf(),
        ensures
            copy.wf(),
            copy.same_as(self),
    {
        let n = self.tile_content.len();
        let mut tile_content: Vec<Vec<EntityId>> = Vec::new();
        let mut i: usize = 0;
        while i < n
            invariant
                i <= n,
                n == self.tile_content@.len(),
                tile_content@.len() == i,
                forall|j: int| 0 <= j < i ==> (#[trigger] tile_content@[j])@ == self.tile_content@[j]@,
            decreases n - i,
        {
            tile_content.push(copy_vec(&self.tile_content[i]));
            i = i + 1;
        }
        let count = self.tiles.len();
        let copy = GameMap {
            tiles: copy_vec(&self.tiles),
            width: self.width,
            height: self.height,
            revealed_tiles: copy_vec(&self.revealed_tiles),
            visible_tiles: copy_vec(&self.visible_tiles),
            blocked: copy_vec(&self.blocked),
            depth: self.depth,
            bloodstains: copy_index_set(&self.bloodstains, count),
            view_blocked: copy_index_set(&self.view_blocked, count),
            name: self.name.clone(),
            outdoors: self.outdoors,
            tile_content,
            rooms: copy_vec(&self.rooms),
        };
        copy
    }

    /// Reveals every cell of row `row`, as the magic-mapping scroll does one
    /// row per frame.
    pub fn reveal_row(&mut self, row: i32)
        requires
            old(self).wf(),
            0 <= row < old(self).height,
        ensures
            final(self).wf(),
            final(self).tiles@ == old(self).tiles@,
            final(self).width == old(self).width,
            final(self).height == old(self).height,
            final(self).visible_tiles@ == old(self).visible_tiles@,
            final(self).blocked@ == old(self).blocked@,
            final(self).depth == old(self).depth,
            final(self).rooms@ == old(self).rooms@,
            forall|x: int, y: int|
                in_bounds(old(self).width as int, old(self).height as int, x, y) ==> #[trigger] final(self).revealed_tiles@[cell_index(old(self).width as int, x, y)]
                    == (y == row || old(self).revealed_tiles@[cell_index(old(self).width as int, x, y)]),
    {
        let ghost w = self.width as int;
        let ghost h = self.height as int;
        let mut x: i32 = 0;
        while x < self.width
            invariant
                self.wf(),
                w == self.width,
                h == self.height,
                0 <= row < h,
                0 <= x <= w,
                self.tiles@ == old(self).tiles@,
                self.visible_tiles@ == old(self).visible_tiles@,
                self.blocked@ == old(self).blocked@,
                self.depth == old(self).depth,
                self.rooms@ == old(self).rooms@,
                forall|cx: int, cy: int|
                    in_bounds(w, h, cx, cy) ==> #[trigger] self.revealed_tiles@[cell_index(w, cx, cy)] == ((cy == row
                        && cx < x) || old(self).revealed_tiles@[cell_index(w, cx, cy)]),
            decreases w - x,
        {
            proof {
                lemma_cell_in_map(w, h, x as int, row as int);
            }
            let idx = self.xy_idx(x, row);
            let ghost before = self.revealed_tiles@;
            self.revealed_tiles.set(idx, true);
            proof {
                assert forall|cx: int, cy: int| in_bounds(w, h, cx, cy) implies #[trigger] self.revealed_tiles@[cell_index(w, cx, cy)]
                    == ((cy == row && cx < x + 1) || old(self).revealed_tiles@[cell_index(w, cx, cy)]) by {
                    lemma_cell_in_map(w, h, cx, cy);
                    if cx != x || cy != row {
                        if cell_index(w, cx, cy) == cell_index(w, x as int, row as int) {
                            lemma_cell_index_injective(w, cx, cy, x as int, row as int);
                        }
                        assert(self.revealed_tiles@[cell_index(w, cx, cy)] == before[cell_index(w, cx, cy)]);
                    }
                }
            }
            x = x + 1;
        }
    }

    /// Marks the cell of index `tile_idx` as stained with blood.
    pub fn bloodstain(&mut self, tile_idx: usize)
        requires
            old(self).wf(),
            tile_idx < old(self).cell_count(),
        ensures
            final(self).wf(),
            final(self).same_but_bloodstains(&*old(self)),
            final(self).bloodstains@ == old(self).bloodstains@.insert(tile_idx),
    {
        self.bloodstains.insert(tile_idx);
    }

    /// Everything but the bloodstains is the same on both maps.
    pub open spec fn same_but_bloodstains(&self, other: &GameMap) -> bool {
        &&& self.tiles@ == other.tiles@
        &&& self.width == other.width
        &&& self.height == other.height
        &&& self.revealed_tiles@ == other.revealed_tiles@
        &&& self.visible_tiles@ == other.visible_tiles@
        &&& self.blocked@ == other.blocked@
        &&& self.depth == other.depth
        &&& self.view_blocked@ == other.view_blocked@
        &&& self.name@ == other.name@
        &&& self.outdoors == other.outdoors
        &&& self.tile_content@ == other.tile_content@
        &&& self.rooms@ == other.rooms@
    }
}

impl GameMap {
    /// Moves a blocking creature from cell `from` to cell `to` if `to` is
    /// free: `from` is freed and `to` becomes blocked. Returns whether the
    /// move happened.
    pub fn move_blocker(&mut self, from: usize, to: usize) -> (moved: bool)
        requires
            old(self).wf(),
            from < old(self).cell_count(),
            to < old(self).cell_count(),
        ensures
            final(self).wf(),
            moved == !old(self).blocked@[to as int],
            moved ==> final(self).blocked@ == old(self).blocked@.update(from as int, false).update(to as int, true),
            !moved ==> final(self).blocked@ == old(self).blocked@,
            final(self).tiles@ == old(self).tiles@,
            final(self).width == old(self).width,
            final(self).height == old(self).height,
            final(self).revealed_tiles@ == old(self).revealed_tiles@,
            final(self).visible_tiles@ == old(self).visible_tiles@,
            final(self).tile_content@ == old(self).tile_content@,
            final(self).depth == old(self).depth,
            final(self).rooms@ == old(self).rooms@,
    {
        if self.blocked[to] {
            return false;
        }
        self.blocked.set(from, false);
        self.blocked.set(to, true);
        true
    }
}

/// A cell of the map has an index inside the map.
pub proof fn lemma_cell_in_map(w: int, h: int, x: int, y: int)
    requires
        in_bounds(w, h, x, y),
    ensures
        0 <= y * w <= (h - 1) * w,
        0 <= cell_index(w, x, y) < w * h,
{
    assert(0 <= y * w <= (h - 1) * w) by (nonlinear_arith)
        requires
            0 <= x < w,
            0 <= y < h,
    ;
    assert((h - 1) * w + w == w * h) by (nonlinear_arith);
}

/// The row of an index inside the map lies above the map's last row.
pub proof fn lemma_row_below_height(w: int, h: int, idx: int)
    requires
        0 < w,
        0 <= idx < w * h,
    ensures
        idx / w < h,
{
    vstd::arithmetic::div_mod::lemma_fundamental_div_mod(idx, w);
    vstd::arithmetic::div_mod::lemma_mod_bound(idx, w);
    if idx / w >= h {
        assert(w * (idx / w) >= w * h) by (nonlinear_arith)
            requires
                idx / w >= h,
                w > 0,
        ;
    }
}

/// A cell below the first row has an index of at least one row's width.
pub proof fn lemma_row_start_at_least_width(w: int, x: int, y: int)
    requires
        0 <= x < w,
        1 <= y,
    ensures
        cell_index(w, x, y) >= w + x,
{
    assert(y * w >= w) by (nonlinear_arith)
        requires
            1 <= y,
            0 < w,
    ;
}

/// One row further down still fits the index arithmetic.
pub proof fn lemma_step_down_in_range(w: int, h: int, x: int, y: int)
    requires
        0 <= x < w,
        0 <= y,
        y + 1 < h,
        w * h <= i32::MAX,
    ensures
        cell_index(w, x, y) + w + 1 <= i32::MAX,
{
    lemma_cell_in_map(w, h, x, y + 1);
    assert(cell_index(w, x, y + 1) == cell_index(w, x, y) + w) by (nonlinear_arith);
}

/// Converting coordinates to an index and back gives the coordinates again.
pub proof fn lemma_xy_idx_roundtrip(w: int, x: int, y: int)
    requires
        0 <= x < w,
        0 <= y,
    ensures
        cell_index(w, x, y) % w == x,
        cell_index(w, x, y) / w == y,
{
    vstd::arithmetic::div_mod::lemma_fundamental_div_mod_converse(cell_index(w, x, y), w, y, x);
}

/// Converting an index to coordinates and back gives the index again.
pub proof fn lemma_idx_xy_roundtrip(w: int, idx: int)
    requires
        0 < w,
        0 <= idx,
    ensures
        cell_index(w, idx % w, idx / w) == idx,
        in_bounds(w, idx / w + 1, idx % w, idx / w),
{
    vstd::arithmetic::div_mod::lemma_fundamental_div_mod(idx, w);
    vstd::arithmetic::div_mod::lemma_div_pos_is_pos(idx, w);
    vstd::arithmetic::mul::lemma_mul_is_commutative(w, idx / w);
}

/// Two cells of a map `w` wide have the same index only if they are the same cell.
pub proof fn lemma_cell_index_injective(w: int, x1: int, y1: int, x2: int, y2: int)
    requires
        0 <= x1 < w,
        0 <= x2 < w,
        0 <= y1,
        0 <= y2,
        cell_index(w, x1, y1) == cell_index(w, x2, y2),
    ensures
        x1 == x2,
        y1 == y2,
{
    lemma_xy_idx_roundtrip(w, x1, y1);
    lemma_xy_idx_roundtrip(w, x2, y2);
}

} // verus!
