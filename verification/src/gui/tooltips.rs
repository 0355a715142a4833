use vstd::prelude::*;
use vstd::string::StringExecFns;

use crate::components::Attributes;
use crate::gui::item_render::{name_with_count, with_count};
use crate::map::camera::PANE_WIDTH;
use crate::text::{byte_len, utf8_len};
use crate::text::{framed, framed_number};

verus! {

/// A box of text lines shown beside the mouse.
pub struct Tooltip {
    lines: Vec<String>,
}

/// The greatest length in bytes among `lines`, 0 for none.
pub open spec fn longest(lines: Seq<Seq<char>>) -> nat
    decreases lines.len(),
{
    if lines.len() == 0 {
        0
    } else {
        let rest = longest(lines.drop_last());
        let last = utf8_len(lines.last());
        if last > rest {
            last
        } else {
            rest
        }
    }
}

impl Tooltip {
    /// The lines, first to last.
    pub closed spec fn lines(&self) -> Seq<Seq<char>> {
        self.lines@.map_values(|s: String| s@)
    }

    /// The number of lines.
    pub closed spec fn line_count(&self) -> nat {
        self.lines@.len()
    }

    /// Returns an empty tooltip.
    pub fn new() -> (t: Tooltip)
        ensures
            t.lines() == Seq::<Seq<char>>::empty(),
            t.line_count() == 0,
    {
        let t = Tooltip { lines: Vec::new() };
        proof {
            assert(t.lines() =~= Seq::<Seq<char>>::empty());
        }
        t
    }

    /// Adds a line at the bottom.
    pub fn add_line(&mut self, line: String)
        ensures
            final(self).lines() == old(self).lines().push(line@),
            final(self).line_count() == old(self).line_count() + 1,
    {
        self.lines.push(line);
        proof {
            assert(self.lines() =~= old(self).lines().push(line@));
        }
    }

    /// Returns the lines, first to last.
    pub fn text(&self) -> (t: &Vec<String>)
        ensures
            t@.map_values(|s: String| s@) == self.lines(),
    {
        &self.lines
    }

    /// Returns the width of the box: the longest line, in bytes, and the
    /// two border cells. Lines are not wrapped.
    pub fn get_width(&self) -> (w: usize)
        requires
            longest(self.lines()) + 2 <= usize::MAX,
        ensures
            w == longest(self.lines()) + 2,
    {
        let mut widest: usize = 0;
        let mut i: usize = 0;
        while i < self.lines.len()
            invariant
                i <= self.lines@.len(),
                self.lines().len() == self.lines@.len(),
                widest == longest(self.lines().subrange(0, i as int)),
            decreases self.lines@.len() - i,
        {
            let len = byte_len(&self.lines[i]);
            proof {
                let sub = self.lines().subrange(0, i + 1);
                assert(sub.drop_last() =~= self.lines().subrange(0, i as int));
                assert(sub.last() == self.lines@[i as int]@);
            }
            if len > widest {
                widest = len;
            }
            i = i + 1;
        }
        proof {
            assert(self.lines().subrange(0, self.lines@.len() as int) =~= self.lines());
        }
        widest + 2
    }

    /// Returns the height of the box: one row per line and the two border
    /// rows.
    pub fn get_height(&self) -> (h: usize)
        requires
            self.line_count() + 2 <= usize::MAX,
        ensures
            h == self.line_count() + 2,
    {
        self.lines.len() + 2
    }
}

/// One attribute's remark: `low` below zero, nothing at zero, `high` above.
pub open spec fn remark(bonus: i32, low: Seq<char>, high: Seq<char>) -> Seq<char> {
    if bonus < 0 {
        low
    } else if bonus > 0 {
        high
    } else {
        Seq::empty()
    }
}

/// What a tooltip says of a creature's attributes: a remark for each
/// attribute whose bonus is not zero, in the order might, quickness,
/// fitness, intelligence, or "Quite average" when there is none.
pub open spec fn attribute_remarks(a: Attributes) -> Seq<char> {
    let text = remark(a.might.bonus, "Weak. "@, "Strong. "@) + remark(a.quickness.bonus, "Clumsy. "@, "Agile. "@)
        + remark(a.fitness.bonus, "Unhealthy. "@, "Healthy. "@) + remark(
        a.intelligence.bonus,
        "Unintelligent. "@,
        "Smart. "@,
    );
    if text.len() == 0 {
        "Quite average"@
    } else {
        text
    }
}

/// Appends one attribute's remark to `text`.
fn add_remark(text: &mut String, bonus: i32, low: &str, high: &str)
    ensures
        final(text)@ == old(text)@ + remark(bonus, low@, high@),
{
    if bonus < 0 {
        text.append(low);
    } else if bonus > 0 {
        text.append(high);
    } else {
        assert(old(text)@ + Seq::<char>::empty() =~= old(text)@);
    }
}

/// Returns what a tooltip says of a creature's attributes.
pub fn attribute_comment(attributes: &Attributes) -> (text: String)
    ensures
        text@ == attribute_remarks(*attributes),
{
    let mut text = String::new();
    add_remark(&mut text, attributes.might.bonus, "Weak. ", "Strong. ");
    add_remark(&mut text, attributes.quickness.bonus, "Clumsy. ", "Agile. ");
    add_remark(&mut text, attributes.fitness.bonus, "Unhealthy. ", "Healthy. ");
    add_remark(&mut text, attributes.intelligence.bonus, "Unintelligent. ", "Smart. ");
    proof {
        let a = *attributes;
        assert(text@ =~= Seq::<char>::empty() + remark(a.might.bonus, "Weak. "@, "Strong. "@) + remark(
            a.quickness.bonus,
            "Clumsy. "@,
            "Agile. "@,
        ) + remark(a.fitness.bonus, "Unhealthy. "@, "Healthy. "@) + remark(
            a.intelligence.bonus,
            "Unintelligent. "@,
            "Smart. "@,
        ));
        assert(Seq::<char>::empty() + remark(a.might.bonus, "Weak. "@, "Strong. "@) =~= remark(
            a.might.bonus,
            "Weak. "@,
            "Strong. "@,
        ));
    }
    if text.as_str().is_empty() {
        String::from_str("Quite average")
    } else {
        text
    }
}

/// The lines of a creature's or item's tooltip: its display name; a remark
/// on its attributes, if it has any; its level, if it has pools; then each
/// status effect on it, with the turns it has left.
pub open spec fn tooltip_lines(
    name: Seq<char>,
    attributes: Option<Attributes>,
    level: Option<i32>,
    statuses: Seq<(Seq<char>, i32)>,
) -> Seq<Seq<char>> {
    seq![name] + (match attributes {
        Some(a) => seq![attribute_remarks(a)],
        None => Seq::empty(),
    }) + (match level {
        Some(l) => seq![framed("Level: "@, l as int, Seq::empty())],
        None => Seq::empty(),
    }) + statuses.map_values(|s: (Seq<char>, i32)| with_count(s.0, s.1 as int))
}

/// Returns the tooltip of the thing under the mouse, from its display name,
/// its attributes and level when it has them, and the status effects on it
/// as (name, turns left).
pub fn entity_tooltip(
    name: String,
    attributes: Option<&Attributes>,
    level: Option<i32>,
    statuses: &Vec<(String, i32)>,
) -> (tip: Tooltip)
    ensures
        tip.lines() == tooltip_lines(
            name@,
            match attributes { Some(a) => Some(*a), None => None },
            level,
            statuses@.map_values(|s: (String, i32)| (s.0@, s.1)),
        ),
{
    let ghost sv = statuses@.map_values(|s: (String, i32)| (s.0@, s.1));
    let ghost head: Seq<Seq<char>> = seq![name@] + (match attributes {
        Some(a) => seq![attribute_remarks(*a)],
        None => Seq::empty(),
    }) + (match level {
        Some(l) => seq![framed("Level: "@, l as int, Seq::empty())],
        None => Seq::empty(),
    });
    let mut tip = Tooltip::new();
    tip.add_line(name);
    if let Some(a) = attributes {
        tip.add_line(attribute_comment(a));
    }
    if let Some(l) = level {
        tip.add_line(framed_number("Level: ", l, ""));
        proof {
            reveal_strlit("");
        }
    }
    assert(tip.lines() =~= head);
    let mut i: usize = 0;
    while i < statuses.len()
        invariant
            i <= statuses@.len(),
            sv == statuses@.map_values(|s: (String, i32)| (s.0@, s.1)),
            tip.lines() == head + sv.subrange(0, i as int).map_values(
                |s: (Seq<char>, i32)| with_count(s.0, s.1 as int),
            ),
        decreases statuses@.len() - i,
    {
        let line = name_with_count(statuses[i].0.as_str(), statuses[i].1);
        tip.add_line(line);
        proof {
            assert(sv.subrange(0, i + 1).map_values(|s: (Seq<char>, i32)| with_count(s.0, s.1 as int))
                =~= sv.subrange(0, i as int).map_values(
                |s: (Seq<char>, i32)| with_count(s.0, s.1 as int),
            ).push(with_count(sv[i as int].0, sv[i as int].1 as int)));
        }
        i = i + 1;
    }
    proof {
        assert(sv.subrange(0, statuses@.len() as int) =~= sv);
    }
    tip
}

/// Whether the mouse's map cell can have a tooltip: it lies inside the
/// map's outer ring of cells.
pub open spec fn tooltip_cell_ok(x: int, y: int, width: int, height: int) -> bool {
    !(x >= width - 1 || y >= height - 1 || x < 1 || y < 1)
}

/// Returns whether the map cell `(x, y)` under the mouse can have a
/// tooltip.
pub fn mouse_on_map(x: i32, y: i32, width: i32, height: i32) -> (ok: bool)
    ensures
        ok == tooltip_cell_ok(x as int, y as int, width as int, height as int),
{
    !(x as i64 >= width as i64 - 1 || y as i64 >= height as i64 - 1 || x < 1 || y < 1)
}

/// Which way the arrow by the mouse points.
#[derive(PartialEq, Eq, Structural, Copy, Clone, Debug)]
pub enum TooltipArrow {
    /// `→`, drawn left of the mouse when it is on the screen's left half.
    Right,
    /// `←`, drawn right of the mouse otherwise.
    Left,
}

/// Returns the arrow drawn by the mouse at column `mouse_x`, and its column.
pub fn tooltip_arrow(mouse_x: i32) -> (r: (TooltipArrow, i32))
    requires
        i32::MIN < mouse_x < i32::MAX,
    ensures
        mouse_x < 40 ==> r == (TooltipArrow::Right, (mouse_x - 1) as i32),
        mouse_x >= 40 ==> r == (TooltipArrow::Left, (mouse_x + 1) as i32),
{
    if mouse_x < 40 {
        (TooltipArrow::Right, mouse_x - 1)
    } else {
        (TooltipArrow::Left, mouse_x + 1)
    }
}

/// The row of the top of a stack of tooltips `total_height` rows high: the
/// stack is centred on the mouse's row, then moved up until its middle is
/// no lower than row 50.
pub open spec fn stack_top_row(mouse_y: int, total_height: int) -> int {
    let y = mouse_y - total_height / 2;
    if y + total_height / 2 > 50 {
        50 - total_height / 2
    } else {
        y
    }
}

/// Returns the top row of a stack of tooltips.
pub fn stack_top(mouse_y: i32, total_height: i32) -> (y: i32)
    requires
        total_height >= 0,
        mouse_y - total_height / 2 >= i32::MIN,
    ensures
        y == stack_top_row(mouse_y as int, total_height as int),
{
    let half = total_height / 2;
    let mut y = mouse_y - half;
    while y + half > 50
        invariant
            0 <= half <= i32::MAX / 2,
            half == total_height / 2,
            total_height >= 0,
            y <= mouse_y - half,
            y == mouse_y - half || y + half >= 50,
        decreases y + half - 50,
    {
        y = y - 1;
    }
    y
}

/// The column of a tooltip box `width` wide: left of the mouse when the
/// mouse is left of the map pane's middle, right of it otherwise.
pub open spec fn box_column(mouse_x: int, width: int) -> int {
    if mouse_x < PANE_WIDTH - 2 {
        mouse_x - (1 + width)
    } else {
        mouse_x + (1 + width)
    }
}

/// Returns the column of a tooltip box.
pub fn tooltip_x(mouse_x: i32, width: i32) -> (x: i32)
    requires
        i32::MIN <= box_column(mouse_x as int, width as int) <= i32::MAX,
        width < i32::MAX,
    ensures
        x == box_column(mouse_x as int, width as int),
{
    if mouse_x < PANE_WIDTH - 2 {
        mouse_x - (1 + width)
    } else {
        mouse_x + (1 + width)
    }
}

/// The total height of the first `k` boxes of `sizes` (width, height).
pub open spec fn height_sum(sizes: Seq<(i32, i32)>, k: int) -> int
    decreases k,
{
    if k <= 0 {
        0
    } else {
        height_sum(sizes, k - 1) + sizes[k - 1].1
    }
}

/// Whether a stack of boxes of `sizes` can be laid out by the mouse: the
/// sizes are not negative and the positions fit in `i32`.
pub open spec fn stack_fits(mouse: (i32, i32), sizes: Seq<(i32, i32)>) -> bool {
    &&& forall|k: int| 0 <= k < sizes.len() ==> 0 <= (#[trigger] sizes[k]).0 < i32::MAX && 0 <= sizes[k].1
    &&& height_sum(sizes, sizes.len() as int) <= i32::MAX
    &&& mouse.1 - height_sum(sizes, sizes.len() as int) >= i32::MIN
    &&& mouse.1 + height_sum(sizes, sizes.len() as int) <= i32::MAX
    &&& forall|k: int| 0 <= k < sizes.len() ==> i32::MIN <= box_column(mouse.0 as int, #[trigger] sizes[k].0 as int) <= i32::MAX
}

/// Returns where the tooltip boxes of `sizes` (width, height) go, top to
/// bottom, for the mouse at screen cell `mouse`: each in its column beside
/// the mouse, the stack starting at its top row and each box below the
/// previous one.
pub fn tooltip_positions(mouse: (i32, i32), sizes: &Vec<(i32, i32)>) -> (places: Vec<(i32, i32)>)
    requires
        stack_fits(mouse, sizes@),
    ensures
        places@.len() == sizes@.len(),
        forall|k: int| 0 <= k < sizes@.len() ==> (#[trigger] places@[k]).0 == box_column(mouse.0 as int, sizes@[k].0 as int),
        forall|k: int| 0 <= k < sizes@.len() ==> (#[trigger] places@[k]).1 == stack_top_row(
            mouse.1 as int,
            height_sum(sizes@, sizes@.len() as int),
        ) + height_sum(sizes@, k),
{
    let ghost total_sum = height_sum(sizes@, sizes@.len() as int);
    proof {
        assert forall|a: int, b: int| 0 <= a <= b <= sizes@.len() implies height_sum(sizes@, a) <= height_sum(sizes@, b) by {
            lemma_height_sum_monotone(sizes@, a, b);
        }
    }
    let mut total: i32 = 0;
    let mut i: usize = 0;
    while i < sizes.len()
        invariant
            i <= sizes@.len(),
            stack_fits(mouse, sizes@),
            total_sum == height_sum(sizes@, sizes@.len() as int),
            total == height_sum(sizes@, i as int),
            forall|a: int, b: int| 0 <= a <= b <= sizes@.len() ==> height_sum(sizes@, a) <= height_sum(sizes@, b),
        decreases sizes@.len() - i,
    {
        assert(height_sum(sizes@, i + 1) <= height_sum(sizes@, sizes@.len() as int));
        total = total + sizes[i].1;
        i = i + 1;
    }
    assert(height_sum(sizes@, 0) <= height_sum(sizes@, sizes@.len() as int));
    let top = stack_top(mouse.1, total);
    let mut y = top;
    let mut places: Vec<(i32, i32)> = Vec::new();
    let mut j: usize = 0;
    while j < sizes.len()
        invariant
            j <= sizes@.len(),
            stack_fits(mouse, sizes@),
            total == height_sum(sizes@, sizes@.len() as int),
            top == stack_top_row(mouse.1 as int, total as int),
            y == top + height_sum(sizes@, j as int),
            places@.len() == j,
            forall|a: int, b: int| 0 <= a <= b <= sizes@.len() ==> height_sum(sizes@, a) <= height_sum(sizes@, b),
            forall|k: int| 0 <= k < j ==> (#[trigger] places@[k]).0 == box_column(mouse.0 as int, sizes@[k].0 as int),
            forall|k: int| 0 <= k < j ==> (#[trigger] places@[k]).1 == top + height_sum(sizes@, k),
        decreases sizes@.len() - j,
    {
        let (w, h) = sizes[j];
        assert(i32::MIN <= box_column(mouse.0 as int, sizes@[j as int].0 as int) <= i32::MAX);
        let x = tooltip_x(mouse.0, w);
        places.push((x, y));
        assert(height_sum(sizes@, j + 1) <= height_sum(sizes@, sizes@.len() as int));
        y = y + h;
        j = j + 1;
    }
    places
}

/// The running height of a stack of boxes never shrinks.
proof fn lemma_height_sum_monotone(sizes: Seq<(i32, i32)>, a: int, b: int)
    requires
        0 <= a <= b <= sizes.len(),
        forall|k: int| 0 <= k < sizes.len() ==> 0 <= #[trigger] sizes[k].1,
    ensures
        height_sum(sizes, a) <= height_sum(sizes, b),
    decreases b - a,
{
    if a < b {
        lemma_height_sum_monotone(sizes, a, b - 1);
    }
}

} // verus!
