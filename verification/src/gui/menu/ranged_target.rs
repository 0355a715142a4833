use vstd::prelude::*;

use super::ItemMenuResult;
use crate::components::Point;

verus! {

/// Whether `pt` is within `range` of `from`: its straight-line distance is
/// at most `range`.
pub open spec fn within_range(from: Point, pt: Point, range: int) -> bool {
    let dx = pt.x - from.x;
    let dy = pt.y - from.y;
    range >= 0 && dx * dx + dy * dy <= range * range
}

/// Whether a map cell lands on the camera's view, away from its border: its
/// screen position, relative to the view's corner `(min_x, min_y)`, is more
/// than one cell inside each edge of the `max - min` wide view.
pub open spec fn well_inside_view(pt: Point, min_x: int, max_x: int, min_y: int, max_y: int) -> bool {
    let sx = pt.x - min_x;
    let sy = pt.y - min_y;
    sx > 1 && sx < (max_x - min_x) - 1 && sy > 1 && sy < (max_y - min_y) - 1
}

/// Whether the ranged targeting screen offers a visible cell.
pub open spec fn targetable(player: Point, pt: Point, range: int, bounds: (int, int, int, int)) -> bool {
    within_range(player, pt, range) && well_inside_view(pt, bounds.0, bounds.1, bounds.2, bounds.3)
}

/// The cells of `visible` that can be targeted, in order.
pub open spec fn targetable_cells(player: Point, visible: Seq<Point>, range: int, bounds: (int, int, int, int)) -> Seq<Point>
    decreases visible.len(),
{
    if visible.len() == 0 {
        Seq::empty()
    } else {
        let rest = targetable_cells(player, visible.drop_last(), range, bounds);
        if targetable(player, visible.last(), range, bounds) {
            rest.push(visible.last())
        } else {
            rest
        }
    }
}

/// Returns the cells the player can target with an item of reach `range`:
/// those of the player's view within reach and well inside the camera's
/// view `(min_x, max_x, min_y, max_y)`.
pub fn target_cells(player: Point, visible: &Vec<Point>, range: i32, bounds: (i32, i32, i32, i32)) -> (cells: Vec<Point>)
    ensures
        cells@ == targetable_cells(
            player,
            visible@,
            range as int,
            (bounds.0 as int, bounds.1 as int, bounds.2 as int, bounds.3 as int),
        ),
{
    let ghost b = (bounds.0 as int, bounds.1 as int, bounds.2 as int, bounds.3 as int);
    let (min_x, max_x, min_y, max_y) = bounds;
    let mut cells: Vec<Point> = Vec::new();
    let mut i: usize = 0;
    while i < visible.len()
        invariant
            i <= visible@.len(),
            b == (bounds.0 as int, bounds.1 as int, bounds.2 as int, bounds.3 as int),
            bounds == (min_x, max_x, min_y, max_y),
            cells@ == targetable_cells(player, visible@.subrange(0, i as int), range as int, b),
        decreases visible@.len() - i,
    {
        let pt = visible[i];
        let dx: i128 = pt.x as i128 - player.x as i128;
        let dy: i128 = pt.y as i128 - player.y as i128;
        let r: i128 = range as i128;
        assert(0 <= dx * dx <= 0x1_0000_0000_0000_0000) by (nonlinear_arith)
            requires
                -0x1_0000_0000 <= dx <= 0x1_0000_0000,
        ;
        assert(0 <= dy * dy <= 0x1_0000_0000_0000_0000) by (nonlinear_arith)
            requires
                -0x1_0000_0000 <= dy <= 0x1_0000_0000,
        ;
        assert(0 <= r * r <= 0x1_0000_0000_0000_0000) by (nonlinear_arith)
            requires
                -0x1_0000_0000 <= r <= 0x1_0000_0000,
        ;
        let in_reach: bool = r >= 0 && dx * dx + dy * dy <= r * r;
        let sx: i64 = pt.x as i64 - min_x as i64;
        let sy: i64 = pt.y as i64 - min_y as i64;
        let inside: bool = sx > 1 && sx < (max_x as i64 - min_x as i64) - 1 && sy > 1 && sy < (
        max_y as i64 - min_y as i64) - 1;
        proof {
            assert(visible@.subrange(0, i + 1).drop_last() =~= visible@.subrange(0, i as int));
            assert(visible@.subrange(0, i + 1).last() == visible@[i as int]);
            assert((in_reach && inside) == targetable(player, visible@[i as int], range as int, b));
        }
        if in_reach && inside {
            cells.push(pt);
        }
        i = i + 1;
    }
    proof {
        assert(visible@.subrange(0, visible@.len() as int) =~= visible@);
    }
    cells
}

/// Whether `cells` holds the cell `(x, y)`.
pub open spec fn offers(cells: Seq<Point>, x: int, y: int) -> bool {
    exists|i: int| 0 <= i < cells.len() && cells[i].x == x && cells[i].y == y
}

/// The targeting screen's answer to the mouse. Without a view of the map it
/// cancels. Otherwise the mouse's map cell is its screen cell shifted by
/// the view's corner; a left click selects that cell when it is offered and
/// cancels when it is not; without a click nothing happens.
pub open spec fn target_answer(
    available: Option<Seq<Point>>,
    mouse: (int, int),
    min_x: int,
    min_y: int,
    left_click: bool,
) -> (ItemMenuResult, Option<(int, int)>) {
    match available {
        None => (ItemMenuResult::Cancel, None),
        Some(cells) => {
            let mx = mouse.0 + min_x;
            let my = mouse.1 + min_y;
            if !left_click {
                (ItemMenuResult::NoResponse, None)
            } else if offers(cells, mx, my) {
                (ItemMenuResult::Selected, Some((mx, my)))
            } else {
                (ItemMenuResult::Cancel, None)
            }
        },
    }
}

/// Returns the targeting screen's answer to the mouse at screen cell
/// `mouse`, given the offered cells (`None` when the player has no view).
pub fn ranged_target(
    available: Option<&Vec<Point>>,
    mouse: (i32, i32),
    min_x: i32,
    min_y: i32,
    left_click: bool,
) -> (r: (ItemMenuResult, Option<Point>))
    requires
        i32::MIN <= mouse.0 + min_x <= i32::MAX,
        i32::MIN <= mouse.1 + min_y <= i32::MAX,
    ensures
        ({
            let a = target_answer(
                match available { Some(v) => Some(v@), None => None },
                (mouse.0 as int, mouse.1 as int),
                min_x as int,
                min_y as int,
                left_click,
            );
            &&& r.0 == a.0
            &&& r.1 is Some <==> a.1 is Some
            &&& r.1 is Some ==> (r.1->0.x as int, r.1->0.y as int) == a.1->0
        }),
{
    let cells = match available {
        None => return (ItemMenuResult::Cancel, None),
        Some(v) => v,
    };
    let mx = mouse.0 + min_x;
    let my = mouse.1 + min_y;
    let mut valid = false;
    let mut i: usize = 0;
    while i < cells.len()
        invariant
            i <= cells@.len(),
            valid == exists|j: int| 0 <= j < i && cells@[j].x == mx && cells@[j].y == my,
        decreases cells@.len() - i,
    {
        if cells[i].x == mx && cells[i].y == my {
            valid = true;
        }
        i = i + 1;
    }
    proof {
        if valid {
            let j = choose|j: int| 0 <= j < i && cells@[j].x == mx && cells@[j].y == my;
            assert(offers(cells@, mx as int, my as int));
        }
    }
    if !left_click {
        (ItemMenuResult::NoResponse, None)
    } else if valid {
        (ItemMenuResult::Selected, Some(Point { x: mx, y: my }))
    } else {
        (ItemMenuResult::Cancel, None)
    }
}

} // verus!
