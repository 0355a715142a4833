use vstd::prelude::*;

use crate::glyph::{cp437_code, to_cp437};
use crate::map::camera::PANE_WIDTH;
use crate::map::{GameMap, TileType};
use crate::rect::half_toward_zero;

verus! {

/// The look a level is drawn with.
#[derive(PartialEq, Eq, Structural, Copy, Clone, Debug)]
pub enum Theme {
    Default,
    Forest,
    LimestoneCavern,
    Mushroom,
}

/// Column from which, on depth 7, the mushroom forest gives way to the
/// default look: the map width less the pane width divided by 2.75.
pub open spec fn mushroom_edge(width: int) -> int {
    width - PANE_WIDTH * 4 / 11
}

/// The theme of a cell in column `x` of a map of depth `depth`, `width` wide.
pub open spec fn theme_at(depth: int, width: int, x: int) -> Theme {
    if depth == 8 || depth == 9 {
        Theme::Mushroom
    } else if depth == 7 {
        if x > mushroom_edge(width) {
            Theme::Default
        } else {
            Theme::Mushroom
        }
    } else if depth == 5 {
        if x < half_toward_zero(width) {
            Theme::LimestoneCavern
        } else {
            Theme::Default
        }
    } else if depth == 4 || depth == 3 {
        Theme::LimestoneCavern
    } else if depth == 2 {
        Theme::Forest
    } else {
        Theme::Default
    }
}

/// Picks the theme of a cell in column `x` on a level of depth `depth`.
pub fn theme_for(depth: i32, width: i32, x: i32) -> (theme: Theme)
    requires
        width >= i32::MIN + PANE_WIDTH * 4 / 11,
    ensures
        theme == theme_at(depth as int, width as int, x as int),
{
    match depth {
        8 | 9 => Theme::Mushroom,
        7 => {
            if x > width - PANE_WIDTH * 4 / 11 {
                Theme::Default
            } else {
                Theme::Mushroom
            }
        },
        5 => {
            if x < width / 2 {
                Theme::LimestoneCavern
            } else {
                Theme::Default
            }
        },
        4 => Theme::LimestoneCavern,
        3 => Theme::LimestoneCavern,
        2 => Theme::Forest,
        _ => Theme::Default,
    }
}

/// The character drawn for a tile under a theme (walls of the default
/// theme are drawn by their neighbours instead, see `wall_glyph_for`).
pub open spec fn theme_char_of(theme: Theme, tile: TileType) -> char {
    match theme {
        Theme::Default => match tile {
            TileType::Floor => '.',
            TileType::WoodFloor => '░',
            TileType::Wall => '#',
            TileType::DownStairs => '>',
            TileType::Bridge => '.',
            TileType::Road => '≡',
            TileType::Grass => '"',
            TileType::ShallowWater => '~',
            TileType::DeepWater => '≈',
            TileType::Gravel => ';',
            TileType::UpStairs => '<',
        },
        Theme::Forest => match tile {
            TileType::Wall => '♣',
            TileType::Bridge => '.',
            TileType::Road => '≡',
            TileType::Grass => '"',
            TileType::ShallowWater => '~',
            TileType::DeepWater => '≈',
            TileType::Gravel => ';',
            TileType::DownStairs => '>',
            TileType::UpStairs => '<',
            _ => '"',
        },
        Theme::LimestoneCavern => match tile {
            TileType::Wall => '▒',
            TileType::Bridge => '.',
            TileType::Road => '≡',
            TileType::Grass => '"',
            TileType::ShallowWater => '░',
            TileType::DeepWater => '▓',
            TileType::Gravel => ';',
            TileType::DownStairs => '>',
            TileType::UpStairs => '<',
            _ => '░',
        },
        Theme::Mushroom => match tile {
            TileType::Wall => '♠',
            TileType::Bridge => '.',
            TileType::Road => '≡',
            TileType::Grass => '"',
            TileType::ShallowWater => '~',
            TileType::DeepWater => '≈',
            TileType::Gravel => ';',
            TileType::DownStairs => '>',
            TileType::UpStairs => '<',
            _ => '"',
        },
    }
}

/// Returns the character a tile is drawn with under a theme.
pub fn theme_char(theme: Theme, tile: TileType) -> (c: char)
    ensures
        c == theme_char_of(theme, tile),
{
    match theme {
        Theme::Default => match tile {
            TileType::Floor => '.',
            TileType::WoodFloor => '░',
            TileType::Wall => '#',
            TileType::DownStairs => '>',
            TileType::Bridge => '.',
            TileType::Road => '≡',
            TileType::Grass => '"',
            TileType::ShallowWater => '~',
            TileType::DeepWater => '≈',
            TileType::Gravel => ';',
            TileType::UpStairs => '<',
        },
        Theme::Forest => match tile {
            TileType::Wall => '♣',
            TileType::Bridge => '.',
            TileType::Road => '≡',
            TileType::Grass => '"',
            TileType::ShallowWater => '~',
            TileType::DeepWater => '≈',
            TileType::Gravel => ';',
            TileType::DownStairs => '>',
            TileType::UpStairs => '<',
            _ => '"',
        },
        Theme::LimestoneCavern => match tile {
            TileType::Wall => '▒',
            TileType::Bridge => '.',
            TileType::Road => '≡',
            TileType::Grass => '"',
            TileType::ShallowWater => '░',
            TileType::DeepWater => '▓',
            TileType::Gravel => ';',
            TileType::DownStairs => '>',
            TileType::UpStairs => '<',
            _ => '░',
        },
        Theme::Mushroom => match tile {
            TileType::Wall => '♠',
            TileType::Bridge => '.',
            TileType::Road => '≡',
            TileType::Grass => '"',
            TileType::ShallowWater => '~',
            TileType::DeepWater => '≈',
            TileType::Gravel => ';',
            TileType::DownStairs => '>',
            TileType::UpStairs => '<',
            _ => '"',
        },
    }
}

/// The line-drawing code for a wall whose revealed wall neighbours are
/// given by `mask` (north 1, south 2, west 4, east 8).
pub open spec fn glyph_for_mask(mask: int) -> u16 {
    if mask == 0 {
        9
    } else if mask == 1 || mask == 2 || mask == 3 {
        186
    } else if mask == 4 || mask == 8 || mask == 12 {
        205
    } else if mask == 5 {
        188
    } else if mask == 6 {
        187
    } else if mask == 7 {
        185
    } else if mask == 9 {
        200
    } else if mask == 10 {
        201
    } else if mask == 11 {
        204
    } else if mask == 13 {
        202
    } else if mask == 14 {
        203
    } else if mask == 15 {
        206
    } else {
        35
    }
}

/// The arms of a code-page-437 double-line box piece, as (north, south,
/// west, east); the pillar `9` (a ring) has none.
pub open spec fn box_arms(glyph: u16) -> (bool, bool, bool, bool) {
    if glyph == 186 {
        (true, true, false, false)
    } else if glyph == 205 {
        (false, false, true, true)
    } else if glyph == 188 {
        (true, false, true, false)
    } else if glyph == 187 {
        (false, true, true, false)
    } else if glyph == 185 {
        (true, true, true, false)
    } else if glyph == 200 {
        (true, false, false, true)
    } else if glyph == 201 {
        (false, true, false, true)
    } else if glyph == 204 {
        (true, true, false, true)
    } else if glyph == 202 {
        (true, false, true, true)
    } else if glyph == 203 {
        (false, true, true, true)
    } else if glyph == 206 {
        (true, true, true, true)
    } else {
        (false, false, false, false)
    }
}

/// `glyph` joins a wall to exactly its wall neighbours `(n, s, w, e)`: it is
/// a box piece or the pillar, it reaches every neighbour, and it reaches
/// past a missing neighbour only to continue the straight line of a wall
/// with one neighbour (a lone north or south neighbour is drawn as a
/// vertical line, a lone west or east one as a horizontal line).
pub open spec fn joins_neighbours(glyph: u16, n: bool, s: bool, w: bool, e: bool) -> bool {
    let (an, as_, aw, ae) = box_arms(glyph);
    let count = (if n { 1int } else { 0 }) + (if s { 1int } else { 0 }) + (if w { 1int } else { 0 }) + (if e {
        1int
    } else {
        0
    });
    &&& glyph == 9 || glyph == 186 || glyph == 205 || (185 <= glyph <= 188) || (200 <= glyph <= 206)
    &&& (n ==> an) && (s ==> as_) && (w ==> aw) && (e ==> ae)
    &&& (an && !n) ==> count == 1 && s
    &&& (as_ && !s) ==> count == 1 && n
    &&& (aw && !w) ==> count == 1 && e
    &&& (ae && !e) ==> count == 1 && w
    &&& (count == 0 <==> glyph == 9)
}

/// The line piece for a wall joins it to exactly its revealed wall
/// neighbours, for every combination of them.
pub proof fn lemma_wall_glyph_joins_neighbours(n: bool, s: bool, w: bool, e: bool)
    ensures
        joins_neighbours(glyph_for_mask(crate::map::wall_mask_of(n, s, w, e)), n, s, w, e),
{
}

impl GameMap {
    /// The neighbour bits of cell `(x, y)`: which of the four cells beside it
    /// are walls the player has seen.
    pub open spec fn wall_mask(&self, x: int, y: int) -> int {
        crate::map::wall_mask_of(
            self.revealed_wall(x, y - 1),
            self.revealed_wall(x, y + 1),
            self.revealed_wall(x - 1, y),
            self.revealed_wall(x + 1, y),
        )
    }

    /// The code a default-theme wall at `(x, y)` is drawn with: `#` on the
    /// outer ring, otherwise the line piece that joins it to its revealed
    /// wall neighbours.
    pub open spec fn wall_glyph_at(&self, x: int, y: int) -> u16 {
        if x < 1 || x > self.width - 2 || y < 1 || y > self.height - 2 {
            35
        } else {
            glyph_for_mask(self.wall_mask(x, y))
        }
    }

    /// The code a cell is drawn with: its theme's character, except that
    /// default-theme walls are joined to their neighbours.
    pub open spec fn glyph_at(&self, idx: int) -> u16 {
        let w = self.width as int;
        let x = idx % w;
        let y = idx / w;
        let theme = theme_at(self.depth as int, w, x);
        let tile = self.tiles@[idx];
        if theme == Theme::Default && tile == TileType::Wall {
            self.wall_glyph_at(x, y)
        } else {
            cp437_code(theme_char_of(theme, tile))
        }
    }
}

/// Returns the line-drawing code for the wall at `(x, y)`.
pub fn get_wall_glyph(map: &GameMap, x: i32, y: i32) -> (glyph: u16)
    requires
        map.wf(),
    ensures
        glyph == map.wall_glyph_at(x as int, y as int),
        !(1 <= x <= map.width - 2 && 1 <= y <= map.height - 2) ==> glyph == 35,
        1 <= x <= map.width - 2 && 1 <= y <= map.height - 2 ==> joins_neighbours(
            glyph,
            map.revealed_wall(x as int, y as int - 1),
            map.revealed_wall(x as int, y as int + 1),
            map.revealed_wall(x as int - 1, y as int),
            map.revealed_wall(x as int + 1, y as int),
        ),
{
    proof {
        lemma_wall_glyph_joins_neighbours(
            map.revealed_wall(x as int, y as int - 1),
            map.revealed_wall(x as int, y as int + 1),
            map.revealed_wall(x as int - 1, y as int),
            map.revealed_wall(x as int + 1, y as int),
        );
    }
    if x < 1 || x > map.width - 2 || y < 1 || y > map.height - 2 {
        return 35;
    }
    let mut mask: u8 = 0;

    if map.is_revealed_and_wall(x, y - 1) {
        mask += 1;
    }
    if map.is_revealed_and_wall(x, y + 1) {
        mask += 2;
    }
    if map.is_revealed_and_wall(x - 1, y) {
        mask += 4;
    }
    if map.is_revealed_and_wall(x + 1, y) {
        mask += 8;
    }

    match mask {
        0 => 9,
        1 => 186,
        2 => 186,
        3 => 186,
        4 => 205,
        5 => 188,
        6 => 187,
        7 => 185,
        8 => 205,
        9 => 200,
        10 => 201,
        11 => 204,
        12 => 205,
        13 => 202,
        14 => 203,
        15 => 206,
        _ => 35,
    }
}

/// Returns the code the cell of index `idx` is drawn with.
pub fn tile_glyph(idx: usize, map: &GameMap) -> (glyph: u16)
    requires
        map.wf(),
        map.width > 0,
        idx < map.cell_count(),
    ensures
        glyph == map.glyph_at(idx as int),
{
    let (x, y) = map.idx_xy(idx);
    let theme = theme_for(map.depth, map.width, x);
    let tile = map.tiles[idx];
    if theme == Theme::Default && tile == TileType::Wall {
        get_wall_glyph(map, x, y)
    } else {
        to_cp437(theme_char(theme, tile))
    }
}

} // verus!
