use vstd::prelude::*;
use vstd::string::StringExecFns;

use crate::components::{Attribute, EntityId, HungerState, Pool, Pools};
use crate::gui::item_render::{name_with_count, with_count};
use crate::text::{framed, framed_number};
use crate::map::camera::PANE_WIDTH;
use crate::rect::half_toward_zero;
use crate::text::{byte_len, decimal, i32_to_string, utf8_len};

verus! {

/// The colours the side panel uses for text.
#[derive(PartialEq, Eq, Structural, Copy, Clone, Debug)]
pub enum HudColor {
    Red,
    White,
    Green,
    Orange,
}

/// Returns where the level's name sits on the top border: its column and
/// the width of the banner, the name's length in bytes and an end cap on
/// each side. The banner is centred on the map pane; the width is
/// converted to `i32` as the game does, wrapping.
pub fn name_banner(name: &String) -> (r: (i32, i32))
    requires
        utf8_len(name@) + 2 <= usize::MAX,
    ensures
        r.1 == (utf8_len(name@) + 2) as i32,
        r.0 == PANE_WIDTH - half_toward_zero(r.1 as int),
{
    let len = byte_len(name);
    let width: i32 = #[verifier::truncate] ((len + 2) as i32);
    (PANE_WIDTH - width / 2, width)
}

/// `label`, the pool's current value, a slash and its maximum.
pub open spec fn pool_line(label: Seq<char>, pool: Pool) -> Seq<char> {
    label + decimal(pool.current as int) + "/"@ + decimal(pool.max as int)
}

/// Returns a pool's line, such as `Health: 7/10`.
pub fn pool_text(label: &str, pool: Pool) -> (s: String)
    ensures
        s@ == pool_line(label@, pool),
{
    let mut s = String::from_str(label);
    let current = i32_to_string(pool.current);
    s.append(current.as_str());
    s.append("/");
    let max = i32_to_string(pool.max);
    s.append(max.as_str());
    s
}

/// The experience earned since the current level began: each level takes
/// a thousand points.
pub open spec fn xp_into_level(pools: Pools) -> int {
    pools.xp - (pools.level - 1) * 1000
}

/// Returns the experience bar's value.
pub fn xp_progress(pools: &Pools) -> (xp: i32)
    requires
        i32::MIN <= (pools.level - 1) * 1000 <= i32::MAX,
        i32::MIN <= xp_into_level(*pools) <= i32::MAX,
    ensures
        xp == xp_into_level(*pools),
{
    let level_start = (pools.level - 1) * 1000;
    pools.xp - level_start
}

/// How an attribute is shown: the colour of its modifiers' sign (red when
/// negative, white when none, green when positive), its total (base and
/// modifiers), and whether a `+` precedes its bonus (when positive).
#[derive(PartialEq, Eq, Structural, Copy, Clone, Debug)]
pub struct AttributeView {
    pub color: HudColor,
    pub total: i32,
    pub plus_sign: bool,
}

/// Returns how an attribute is shown.
pub fn draw_attribute(attribute: &Attribute) -> (v: AttributeView)
    requires
        i32::MIN <= attribute.base + attribute.modifiers <= i32::MAX,
    ensures
        v.color == (if attribute.modifiers < 0 {
            HudColor::Red
        } else if attribute.modifiers == 0 {
            HudColor::White
        } else {
            HudColor::Green
        }),
        v.total == attribute.base + attribute.modifiers,
        v.plus_sign == (attribute.bonus > 0),
{
    let color = if attribute.modifiers < 0 {
        HudColor::Red
    } else if attribute.modifiers == 0 {
        HudColor::White
    } else {
        HudColor::Green
    };
    AttributeView { color, total: attribute.base + attribute.modifiers, plus_sign: attribute.bonus > 0 }
}

/// The dice of a weapon: `NdS`, then the bonus with its sign when it is
/// not zero.
pub open spec fn dice_text(n_dice: int, die_type: int, bonus: int) -> Seq<char> {
    let dice = decimal(n_dice) + "d"@ + decimal(die_type);
    if bonus < 0 {
        dice + decimal(bonus)
    } else if bonus == 0 {
        dice
    } else {
        dice + "+"@ + decimal(bonus)
    }
}

/// The line on the log box's top border describing the wielded weapon:
/// its name and dice, its range and firing keys if it shoots, between end
/// caps.
pub open spec fn weapon_line(name: Seq<char>, n_dice: int, die_type: int, bonus: int, range: Option<i32>) -> Seq<char> {
    "┤ "@ + name + " ("@ + dice_text(n_dice, die_type, bonus) + ")"@ + (match range {
        Some(r) => " (range: "@ + decimal(r as int) + ", F to fire, V cycle targets)"@,
        None => Seq::empty(),
    }) + " ├"@
}

/// Returns the line describing the wielded weapon.
pub fn weapon_info(name: &str, n_dice: i32, die_type: i32, bonus: i32, range: Option<i32>) -> (s: String)
    ensures
        s@ == weapon_line(name@, n_dice as int, die_type as int, bonus as int, range),
{
    let mut s = String::from_str("┤ ");
    s.append(name);
    s.append(" (");
    let n = i32_to_string(n_dice);
    s.append(n.as_str());
    s.append("d");
    let die = i32_to_string(die_type);
    s.append(die.as_str());
    if bonus < 0 {
        let b = i32_to_string(bonus);
        s.append(b.as_str());
    } else if bonus > 0 {
        s.append("+");
        let b = i32_to_string(bonus);
        s.append(b.as_str());
    }
    s.append(")");
    if let Some(r) = range {
        s.append(" (range: ");
        let rs = i32_to_string(r);
        s.append(rs.as_str());
        s.append(", F to fire, V cycle targets)");
    }
    s.append(" ├");
    proof {
        let dice = decimal(n_dice as int) + "d"@ + decimal(die_type as int);
        let tail = match range {
            Some(r) => " (range: "@ + decimal(r as int) + ", F to fire, V cycle targets)"@,
            None => Seq::<char>::empty(),
        };
        assert(s@ =~= "┤ "@ + name@ + " ("@ + dice_text(n_dice as int, die_type as int, bonus as int) + ")"@
            + tail + " ├"@);
    }
    s
}

/// The hunger line of the status list and its colour.
pub open spec fn hunger_line(state: HungerState) -> (Seq<char>, HudColor) {
    match state {
        HungerState::WellFed => ("Well Fed"@, HudColor::Green),
        HungerState::Normal => ("Normal"@, HudColor::White),
        HungerState::Hungry => ("Hungry"@, HudColor::Orange),
        HungerState::Starving => ("Starving"@, HudColor::Red),
    }
}

/// Returns the hunger line and its colour.
pub fn hunger_label(state: HungerState) -> (r: (String, HudColor))
    ensures
        r.0@ == hunger_line(state).0,
        r.1 == hunger_line(state).1,
{
    match state {
        HungerState::WellFed => (String::from_str("Well Fed"), HudColor::Green),
        HungerState::Normal => (String::from_str("Normal"), HudColor::White),
        HungerState::Hungry => (String::from_str("Hungry"), HudColor::Orange),
        HungerState::Starving => (String::from_str("Starving"), HudColor::Red),
    }
}

/// The row of the `k`th status effect in the list that grows up the panel
/// from row `PANE_WIDTH`: the hunger line takes the first row, and leaves
/// it to the effects when the player is neither fed nor hungry.
pub open spec fn status_row(hunger: HungerState, k: int) -> int {
    PANE_WIDTH - (if hunger == HungerState::Normal { 0int } else { 1int }) - k
}

/// Returns the status effects' lines, bottom to top, with their rows: each
/// effect on the player as its name and the turns it has left.
pub fn status_lines(hunger: HungerState, statuses: &Vec<(String, i32)>) -> (lines: Vec<(i32, String)>)
    requires
        statuses@.len() <= i32::MAX,
    ensures
        lines@.len() == statuses@.len(),
        forall|k: int| 0 <= k < statuses@.len() ==> (#[trigger] lines@[k]).0 == status_row(hunger, k),
        forall|k: int| 0 <= k < statuses@.len() ==> (#[trigger] lines@[k]).1@ == with_count(statuses@[k].0@, statuses@[k].1 as int),
{
    let mut y: i32 = PANE_WIDTH;
    if hunger != HungerState::Normal {
        y = y - 1;
    }
    let mut lines: Vec<(i32, String)> = Vec::new();
    let mut i: usize = 0;
    while i < statuses.len()
        invariant
            i <= statuses@.len() <= i32::MAX,
            y == status_row(hunger, i as int),
            lines@.len() == i,
            forall|k: int| 0 <= k < i ==> (#[trigger] lines@[k]).0 == status_row(hunger, k),
            forall|k: int| 0 <= k < i ==> (#[trigger] lines@[k]).1@ == with_count(statuses@[k].0@, statuses@[k].1 as int),
        decreases statuses@.len() - i,
    {
        let text = name_with_count(statuses[i].0.as_str(), statuses[i].1);
        lines.push((y, text));
        y = y - 1;
        i = i + 1;
    }
    lines
}

/// Returns the consumables given number keys on the panel: the first nine
/// the player carries, keyed 1 to 9 in order.
pub fn hotkey_items(consumables: &Vec<EntityId>) -> (keyed: Vec<EntityId>)
    ensures
        keyed@ == consumables@.take(if consumables@.len() < 9 { consumables@.len() as int } else { 9 }),
{
    let mut keyed: Vec<EntityId> = Vec::new();
    let mut index: usize = 1;
    let mut i: usize = 0;
    while i < consumables.len()
        invariant
            i <= consumables@.len(),
            index == keyed@.len() + 1,
            keyed@.len() <= 9,
            keyed@ == consumables@.take(if i < 9 { i as int } else { 9 }),
        decreases consumables@.len() - i,
    {
        if index < 10 {
            keyed.push(consumables[i]);
            index = index + 1;
        }
        proof {
            assert(consumables@.take(if i + 1 < 9 { i + 1 } else { 9 }) =~= (if i < 9 {
                consumables@.take(i as int).push(consumables@[i as int])
            } else {
                consumables@.take(9)
            }));
        }
        i = i + 1;
    }
    keyed
}

/// Returns the label of a hotkey: an up arrow and the key's number.
pub fn hotkey_label(index: i32) -> (s: String)
    ensures
        s@ == framed("↑"@, index as int, Seq::empty()),
{
    proof {
        reveal_strlit("");
    }
    framed_number("↑", index, "")
}

/// Returns a known spell's line: its name and mana cost.
pub fn spell_line(display_name: &str, mana_cost: i32) -> (s: String)
    ensures
        s@ == with_count(display_name@, mana_cost as int),
{
    name_with_count(display_name, mana_cost)
}

/// Returns the depth line shown under the map.
pub fn depth_text(depth: i32) -> (s: String)
    ensures
        s@ == framed("Depth: "@, depth as int, Seq::empty()),
{
    proof {
        reveal_strlit("");
    }
    framed_number("Depth: ", depth, "")
}

/// The pieces of a box drawn with line characters.
#[derive(PartialEq, Eq, Structural, Copy, Clone, Debug)]
pub enum BoxPiece {
    TopLeft,
    TopRight,
    BottomLeft,
    BottomRight,
    Horizontal,
    Vertical,
}

/// The cells of the outline of the box with corners `(sx, sy)` and
/// `(sx + w, sy + h)`, in the order they are drawn: the four corners; then
/// for each column strictly between the corners, its top and bottom edge;
/// then for each row strictly between, its left and right edge.
pub open spec fn box_outline(sx: int, sy: int, w: int, h: int) -> Seq<(int, int, BoxPiece)> {
    let across = if w > 1 { w - 1 } else { 0 };
    let down = if h > 1 { h - 1 } else { 0 };
    seq![
        (sx, sy, BoxPiece::TopLeft),
        (sx + w, sy, BoxPiece::TopRight),
        (sx, sy + h, BoxPiece::BottomLeft),
        (sx + w, sy + h, BoxPiece::BottomRight),
    ] + Seq::new(
        (2 * across) as nat,
        |i: int| (sx + 1 + i / 2, if i % 2 == 0 { sy } else { sy + h }, BoxPiece::Horizontal),
    ) + Seq::new(
        (2 * down) as nat,
        |i: int| (if i % 2 == 0 { sx } else { sx + w }, sy + 1 + i / 2, BoxPiece::Vertical),
    )
}

/// The cells of a list as plain integers.
pub open spec fn cells_view(cells: Seq<(i32, i32, BoxPiece)>) -> Seq<(int, int, BoxPiece)> {
    cells.map_values(|c: (i32, i32, BoxPiece)| (c.0 as int, c.1 as int, c.2))
}

/// Returns the cells of a box's outline, in the order they are drawn.
pub fn draw_hollow_box(sx: i32, sy: i32, width: i32, height: i32) -> (cells: Vec<(i32, i32, BoxPiece)>)
    requires
        i32::MIN <= sx + width <= i32::MAX,
        i32::MIN <= sy + height <= i32::MAX,
    ensures
        cells_view(cells@) == box_outline(sx as int, sy as int, width as int, height as int),
{
    let ghost (gx, gy, gw, gh) = (sx as int, sy as int, width as int, height as int);
    let ghost corners = seq![
        (gx, gy, BoxPiece::TopLeft),
        (gx + gw, gy, BoxPiece::TopRight),
        (gx, gy + gh, BoxPiece::BottomLeft),
        (gx + gw, gy + gh, BoxPiece::BottomRight),
    ];
    let ghost fh = |i: int| (gx + 1 + i / 2, if i % 2 == 0 { gy } else { gy + gh }, BoxPiece::Horizontal);
    let ghost fv = |i: int| (if i % 2 == 0 { gx } else { gx + gw }, gy + 1 + i / 2, BoxPiece::Vertical);
    let mut cells: Vec<(i32, i32, BoxPiece)> = Vec::new();
    cells.push((sx, sy, BoxPiece::TopLeft));
    cells.push((sx + width, sy, BoxPiece::TopRight));
    cells.push((sx, sy + height, BoxPiece::BottomLeft));
    cells.push((sx + width, sy + height, BoxPiece::BottomRight));
    assert(cells_view(cells@) =~= corners);
    let mut x: i64 = sx as i64 + 1;
    while x < sx as i64 + width as i64
        invariant
            sx + 1 <= x,
            x <= sx + width || x == sx + 1,
            i32::MIN <= sx + width <= i32::MAX,
            i32::MIN <= sy + height <= i32::MAX,
            gx == sx && gy == sy && gw == width && gh == height,
            fh == (|i: int| (gx + 1 + i / 2, if i % 2 == 0 { gy } else { gy + gh }, BoxPiece::Horizontal)),
            cells_view(cells@) == corners + Seq::new((2 * (x - sx - 1)) as nat, fh),
        decreases sx + width - x,
    {
        let xi = x as i32;
        let ghost before = cells@;
        cells.push((xi, sy, BoxPiece::Horizontal));
        cells.push((xi, sy + height, BoxPiece::Horizontal));
        proof {
            let n = 2 * (x - sx - 1);
            assert(cells@ == before.push((xi, sy, BoxPiece::Horizontal)).push((xi, (sy + height) as i32, BoxPiece::Horizontal)));
            assert(cells_view(cells@) =~= cells_view(before).push((x as int, gy, BoxPiece::Horizontal)).push((x as int, gy + gh, BoxPiece::Horizontal)));
            assert(fh(n) == (x as int, gy, BoxPiece::Horizontal));
            assert(fh(n + 1) == (x as int, gy + gh, BoxPiece::Horizontal));
            assert(cells_view(cells@) =~= corners + Seq::new((n + 2) as nat, fh));
        }
        x = x + 1;
    }
    let ghost across = if gw > 1 { gw - 1 } else { 0 };
    assert(2 * (x - sx - 1) == 2 * across);
    let ghost top = corners + Seq::new((2 * across) as nat, fh);
    let mut y: i64 = sy as i64 + 1;
    while y < sy as i64 + height as i64
        invariant
            sy + 1 <= y,
            y <= sy + height || y == sy + 1,
            i32::MIN <= sx + width <= i32::MAX,
            i32::MIN <= sy + height <= i32::MAX,
            gx == sx && gy == sy && gw == width && gh == height,
            fv == (|i: int| (if i % 2 == 0 { gx } else { gx + gw }, gy + 1 + i / 2, BoxPiece::Vertical)),
            cells_view(cells@) == top + Seq::new((2 * (y - sy - 1)) as nat, fv),
        decreases sy + height - y,
    {
        let yi = y as i32;
        let ghost before = cells@;
        cells.push((sx, yi, BoxPiece::Vertical));
        cells.push((sx + width, yi, BoxPiece::Vertical));
        proof {
            let n = 2 * (y - sy - 1);
            assert(cells@ == before.push((sx, yi, BoxPiece::Vertical)).push(((sx + width) as i32, yi, BoxPiece::Vertical)));
            assert(cells_view(cells@) =~= cells_view(before).push((gx, y as int, BoxPiece::Vertical)).push((gx + gw, y as int, BoxPiece::Vertical)));
            assert(fv(n) == (gx, y as int, BoxPiece::Vertical));
            assert(fv(n + 1) == (gx + gw, y as int, BoxPiece::Vertical));
            assert(cells_view(cells@) =~= top + Seq::new((n + 2) as nat, fv));
        }
        y = y + 1;
    }
    let ghost down = if gh > 1 { gh - 1 } else { 0 };
    assert(2 * (y - sy - 1) == 2 * down);
    assert(cells_view(cells@) =~= box_outline(gx, gy, gw, gh));
    cells
}

} // verus!
