use vstd::prelude::*;
use vstd::string::StringExecFns;

use crate::text::{decimal, i32_to_string};

use crate::components::{EntityId, EquipmentSlot, Point, Pool};
use crate::run_state::RunState;
use crate::map::dungeon::MasterDungeonMap;

verus! {

/// Puts picked-up items in the picker's backpack.
pub struct ItemCollectionSystem;

/// Applies the effects of used items.
pub struct ItemUseSystem;

/// Drops items at the dropper's feet.
pub struct ItemDropSystem;

/// Moves unequipped items back to the backpack.
pub struct ItemRemoveSystem;

/// Learns the true names of magic items the player has used.
pub struct ItemIdentificationSystem;

/// The name shown for an item in the log: its own name unless it is a
/// magic item not yet identified, which shows its obfuscated name.
pub open spec fn obfuscated_name_of(
    name: Option<Seq<char>>,
    is_magic: bool,
    obfuscated: Option<Seq<char>>,
    identified: Set<Seq<char>>,
) -> Seq<char> {
    match name {
        None => "Nameless item (bug)"@,
        Some(n) => if !is_magic || identified.contains(n) {
            n
        } else {
            match obfuscated {
                Some(o) => o,
                None => "Nameless item (bug)"@,
            }
        },
    }
}

/// Returns the name an item is logged with.
pub fn obfuscate_name(
    name: Option<&String>,
    is_magic: bool,
    obfuscated: Option<&String>,
    dm: &MasterDungeonMap,
) -> (shown: String)
    ensures
        shown@ == obfuscated_name_of(
            match name { Some(n) => Some(n@), None => None },
            is_magic,
            match obfuscated { Some(o) => Some(o@), None => None },
            dm.identified(),
        ),
{
    let name = match name {
        Some(name) => name,
        None => return String::from_str("Nameless item (bug)"),
    };
    if !is_magic {
        return name.clone();
    }
    if dm.is_identified(name) {
        return name.clone();
    }
    match obfuscated {
        Some(o) => o.clone(),
        None => String::from_str("Nameless item (bug)"),
    }
}

/// The items of `equipped` (item, owner, slot) that `owner` wears in `slot`.
pub open spec fn in_slot(equipped: Seq<(EntityId, EntityId, EquipmentSlot)>, owner: EntityId, slot: EquipmentSlot) -> Seq<EntityId>
    decreases equipped.len(),
{
    if equipped.len() == 0 {
        Seq::empty()
    } else {
        let rest = in_slot(equipped.drop_last(), owner, slot);
        let (item, o, s) = equipped.last();
        if o == owner && s == slot {
            rest.push(item)
        } else {
            rest
        }
    }
}


/// What the item-use system knows of a used item: the slot it is worn in,
/// the damage, healing or confusion it deals, and whether it is food, a
/// magic mapping scroll, a town portal scroll, or used up.
#[derive(PartialEq, Eq, Structural, Copy, Clone, Debug)]
pub struct UsableItem {
    pub equip_slot: Option<EquipmentSlot>,
    pub damage: Option<i32>,
    pub heal: Option<i32>,
    pub confusion_turns: Option<i32>,
    pub food: bool,
    pub magic_mapper: bool,
    pub town_portal: bool,
    pub consumable: bool,
}

/// What using an item does, for the game to carry out over the targets.
#[derive(PartialEq, Eq, Structural, Copy, Clone, Debug)]
pub struct UsePlan {
    /// The user is the player, who learns the item's name and is told of
    /// each effect.
    pub by_player: bool,
    /// The entity that puts the item on (the first target), if it is worn.
    pub equip_on: Option<EntityId>,
    /// Damage dealt to every target with hit points.
    pub damage: Option<i32>,
    /// Healing given to every target with hit points.
    pub heal: Option<i32>,
    /// Turns of confusion put on every target.
    pub confusion_turns: Option<i32>,
    /// The entity fed (the first target), if the item is food.
    pub feed: Option<EntityId>,
    /// A town portal was read in town, where it does nothing.
    pub portal_in_town: bool,
    /// The state the game moves to: a map reveal for a magic mapping
    /// scroll, the trip to town for a town portal away from town.
    pub run_state: Option<RunState>,
    /// The item is used up.
    pub delete_item: bool,
}

/// What using `item` does, when `user` uses it on `targets` on level
/// `depth`. A town portal away from town wins over a map reveal.
pub open spec fn use_plan(user: EntityId, player: EntityId, item: UsableItem, targets: Seq<EntityId>, depth: i32) -> UsePlan {
    UsePlan {
        by_player: user == player,
        equip_on: if item.equip_slot is Some { Some(targets[0]) } else { None },
        damage: item.damage,
        heal: item.heal,
        confusion_turns: item.confusion_turns,
        feed: if item.food { Some(targets[0]) } else { None },
        portal_in_town: item.town_portal && depth == 1,
        run_state: if item.town_portal && depth != 1 {
            Some(RunState::TownPortal)
        } else if item.magic_mapper {
            Some(RunState::MagicMapReveal { row: 0 })
        } else {
            None
        },
        delete_item: item.consumable,
    }
}

/// Whether a cell of a blast lies inside the map's outer ring.
pub open spec fn inside_ring(p: Point, width: int, height: int) -> bool {
    p.x > 0 && p.x < width - 1 && p.y > 0 && p.y < height - 1
}

/// The cells of `cells` inside the map's outer ring, in order.
pub open spec fn ring_interior(cells: Seq<Point>, width: int, height: int) -> Seq<Point>
    decreases cells.len(),
{
    if cells.len() == 0 {
        Seq::empty()
    } else {
        let rest = ring_interior(cells.drop_last(), width, height);
        if inside_ring(cells.last(), width, height) {
            rest.push(cells.last())
        } else {
            rest
        }
    }
}

/// Each owner wears at most one item in each slot: two worn entries with
/// the same owner and slot name the same item.
pub open spec fn worn_once(equipped: Seq<(EntityId, EntityId, EquipmentSlot)>) -> bool {
    forall|i: int, j: int|
        0 <= i < equipped.len() && 0 <= j < equipped.len() && (#[trigger] equipped[i]).1 == (#[trigger] equipped[j]).1
            && equipped[i].2 == equipped[j].2 ==> equipped[i].0 == equipped[j].0
}

/// A worn entry that stays when `item` is equipped by `owner` in `slot`:
/// it is not in that owner's slot, and it is not `item` itself, whose old
/// entry is replaced.
pub open spec fn stays_worn(
    entry: (EntityId, EntityId, EquipmentSlot),
    item: EntityId,
    owner: EntityId,
    slot: EquipmentSlot,
) -> bool {
    !(entry.1 == owner && entry.2 == slot) && entry.0 != item
}

impl ItemUseSystem {
    /// Equips `item` on `owner` in `slot`: whatever the owner wore in that
    /// slot comes off (and is returned, to go back to the backpack), any
    /// other entry of `item` is replaced, and `item` is worn there. Every
    /// other worn entry stays. If each owner wore at most one item per slot
    /// before, that still holds.
    pub fn equip(
        equipped: &mut Vec<(EntityId, EntityId, EquipmentSlot)>,
        item: EntityId,
        owner: EntityId,
        slot: EquipmentSlot,
    ) -> (to_backpack: Vec<EntityId>)
        ensures
            to_backpack@ == in_slot(old(equipped)@, owner, slot),
            final(equipped)@.contains((item, owner, slot)),
            forall|e: (EntityId, EntityId, EquipmentSlot)|
                #[trigger] final(equipped)@.contains(e) <==> (e == (item, owner, slot) || (old(equipped)@.contains(e)
                    && stays_worn(e, item, owner, slot))),
            worn_once(old(equipped)@) ==> worn_once(final(equipped)@),
    {
        let ghost before = equipped@;
        let to_backpack = Self::slot_conflicts(equipped, owner, slot);
        let mut kept: Vec<(EntityId, EntityId, EquipmentSlot)> = Vec::new();
        let mut i: usize = 0;
        while i < equipped.len()
            invariant
                equipped@ == before,
                i <= before.len(),
                forall|k: int| 0 <= k < kept@.len() ==> before.contains(#[trigger] kept@[k]) && stays_worn(kept@[k], item, owner, slot),
                forall|k: int| 0 <= k < i && stays_worn(before[k], item, owner, slot) ==> kept@.contains(#[trigger] before[k]),
            decreases before.len() - i,
        {
            let e = equipped[i];
            let ghost kept_before = kept@;
            if !(e.1 == owner && e.2 == slot) && e.0 != item {
                kept.push(e);
                assert(kept@[kept@.len() - 1] == e);
            }
            proof {
                assert forall|k: int| 0 <= k < i + 1 && stays_worn(before[k], item, owner, slot) implies kept@.contains(
                    #[trigger] before[k],
                ) by {
                    if k < i {
                        assert(kept_before.contains(before[k]));
                        let m = choose|m: int| 0 <= m < kept_before.len() && kept_before[m] == before[k];
                        assert(kept@[m] == before[k]);
                    } else {
                        assert(kept@[kept@.len() - 1] == before[k]);
                    }
                }
            }
            i = i + 1;
        }
        let ghost all_kept = kept@;
        assert(forall|k: int| 0 <= k < before.len() && stays_worn(before[k], item, owner, slot) ==> all_kept.contains(#[trigger] before[k]));
        kept.push((item, owner, slot));
        *equipped = kept;
        proof {
            let after = equipped@;
            assert(after == all_kept.push((item, owner, slot)));
            assert(after[after.len() - 1] == (item, owner, slot));
            assert forall|e: (EntityId, EntityId, EquipmentSlot)| #[trigger] after.contains(e) <==> (e == (item, owner, slot)
                || (before.contains(e) && stays_worn(e, item, owner, slot))) by {
                if after.contains(e) {
                    let m = choose|m: int| 0 <= m < after.len() && after[m] == e;
                    if m < after.len() - 1 {
                        assert(all_kept[m] == e);
                    }
                }
                if before.contains(e) && stays_worn(e, item, owner, slot) {
                    let k = choose|k: int| 0 <= k < before.len() && before[k] == e;
                    assert(all_kept.contains(before[k]));
                    let m = choose|m: int| 0 <= m < all_kept.len() && all_kept[m] == e;
                    assert(after[m] == e);
                }
            }
            if worn_once(before) {
                assert forall|i: int, j: int|
                    0 <= i < after.len() && 0 <= j < after.len() && (#[trigger] after[i]).1 == (#[trigger] after[j]).1
                        && after[i].2 == after[j].2 implies after[i].0 == after[j].0 by {
                    assert(after.contains(after[i]));
                    assert(after.contains(after[j]));
                    if after[i] != (item, owner, slot) && after[j] != (item, owner, slot) {
                        let a = choose|a: int| 0 <= a < before.len() && before[a] == after[i];
                        let b = choose|b: int| 0 <= b < before.len() && before[b] == after[j];
                        assert(before[a].1 == before[b].1 && before[a].2 == before[b].2);
                    }
                }
            }
        }
        to_backpack
    }

    /// Equipping an item in `slot`: the items the target already wears there,
    /// which go back to its backpack.
    pub fn slot_conflicts(
        equipped: &Vec<(EntityId, EntityId, EquipmentSlot)>,
        target: EntityId,
        slot: EquipmentSlot,
    ) -> (to_unequip: Vec<EntityId>)
        ensures
            to_unequip@ == in_slot(equipped@, target, slot),
    {
        let mut out: Vec<EntityId> = Vec::new();
        let mut i: usize = 0;
        while i < equipped.len()
            invariant
                i <= equipped@.len(),
                out@ == in_slot(equipped@.subrange(0, i as int), target, slot),
            decreases equipped@.len() - i,
        {
            assert(equipped@.subrange(0, i + 1).drop_last() =~= equipped@.subrange(0, i as int));
            let (item, owner, s) = equipped[i];
            if owner == target && s == slot {
                out.push(item);
            }
            i = i + 1;
        }
        assert(equipped@.subrange(0, equipped@.len() as int) =~= equipped@);
        out
    }

    /// A healing item: the hit points become the current ones plus the
    /// item's amount, capped at the maximum; the amount reported is what was
    /// actually healed when the cap applies, the item's amount otherwise.
    pub fn heal(hit_points: &mut Pool, heal_amount: i32) -> (reported: i32)
        requires
            i32::MIN <= old(hit_points).current + heal_amount <= i32::MAX,
            old(hit_points).current + heal_amount > old(hit_points).max ==> i32::MIN <= old(hit_points).max
                - old(hit_points).current <= i32::MAX,
        ensures
            final(hit_points).max == old(hit_points).max,
            final(hit_points).current == if old(hit_points).max < old(hit_points).current + heal_amount {
                old(hit_points).max as int
            } else {
                old(hit_points).current + heal_amount
            },
            reported == if old(hit_points).current + heal_amount > old(hit_points).max {
                old(hit_points).max - old(hit_points).current
            } else {
                heal_amount as int
            },
    {
        let amount = if hit_points.current + heal_amount > hit_points.max {
            hit_points.max - hit_points.current
        } else {
            heal_amount
        };
        let total = hit_points.current + heal_amount;
        hit_points.current = if hit_points.max < total { hit_points.max } else { total };
        amount
    }

    /// Returns what using an item does. Worn items and food act on the
    /// first target, so there must be one.
    pub fn plan_use(user: EntityId, player: EntityId, item: &UsableItem, targets: &Vec<EntityId>, depth: i32) -> (plan: UsePlan)
        requires
            item.equip_slot is Some || item.food ==> targets@.len() > 0,
        ensures
            plan == use_plan(user, player, *item, targets@, depth),
    {
        let equip_on = match item.equip_slot {
            Some(_) => Some(targets[0]),
            None => None,
        };
        let feed = if item.food { Some(targets[0]) } else { None };
        let mut run_state: Option<RunState> = None;
        if item.magic_mapper {
            run_state = Some(RunState::MagicMapReveal { row: 0 });
        }
        let mut portal_in_town = false;
        if item.town_portal {
            if Self::town_portal_works(depth) {
                run_state = Some(RunState::TownPortal);
            } else {
                portal_in_town = true;
            }
        }
        UsePlan {
            by_player: user == player,
            equip_on,
            damage: item.damage,
            heal: item.heal,
            confusion_turns: item.confusion_turns,
            feed,
            portal_in_town,
            run_state,
            delete_item: item.consumable,
        }
    }

    /// Returns the cells an area effect reaches: those of its field of view
    /// inside the map's outer ring, in order.
    pub fn blast_cells(cells: &Vec<Point>, width: i32, height: i32) -> (inside: Vec<Point>)
        ensures
            inside@ == ring_interior(cells@, width as int, height as int),
    {
        let mut inside: Vec<Point> = Vec::new();
        let mut i: usize = 0;
        while i < cells.len()
            invariant
                i <= cells@.len(),
                inside@ == ring_interior(cells@.subrange(0, i as int), width as int, height as int),
            decreases cells@.len() - i,
        {
            assert(cells@.subrange(0, i + 1).drop_last() =~= cells@.subrange(0, i as int));
            let p = cells[i];
            if p.x > 0 && (p.x as i64) < width as i64 - 1 && p.y > 0 && (p.y as i64) < height as i64 - 1 {
                inside.push(p);
            }
            i = i + 1;
        }
        assert(cells@.subrange(0, cells@.len() as int) =~= cells@);
        inside
    }

    /// Returns who an item acts on: the player when it is not aimed, else
    /// everything standing on the cells it reaches, cell by cell.
    pub fn use_targets(player: EntityId, aimed: bool, cell_contents: &Vec<Vec<EntityId>>) -> (targets: Vec<EntityId>)
        ensures
            !aimed ==> targets@ == seq![player],
            aimed ==> targets@ == cell_contents@.map_values(|c: Vec<EntityId>| c@).flatten(),
    {
        let mut targets: Vec<EntityId> = Vec::new();
        if !aimed {
            targets.push(player);
            return targets;
        }
        let ghost lists = cell_contents@.map_values(|c: Vec<EntityId>| c@);
        let mut i: usize = 0;
        while i < cell_contents.len()
            invariant
                i <= cell_contents@.len(),
                lists == cell_contents@.map_values(|c: Vec<EntityId>| c@),
                targets@ == lists.subrange(0, i as int).flatten(),
            decreases cell_contents@.len() - i,
        {
            let cell = &cell_contents[i];
            let mut j: usize = 0;
            let ghost start = targets@;
            while j < cell.len()
                invariant
                    j <= cell@.len(),
                    targets@ == start + cell@.subrange(0, j as int),
                decreases cell@.len() - j,
            {
                targets.push(cell[j]);
                proof {
                    assert(cell@.subrange(0, j + 1) =~= cell@.subrange(0, j as int).push(cell@[j as int]));
                }
                j = j + 1;
            }
            proof {
                assert(cell@.subrange(0, cell@.len() as int) =~= cell@);
                let sub = lists.subrange(0, i + 1);
                assert(sub.drop_last() =~= lists.subrange(0, i as int));
                assert(sub.last() == cell@);
                lists.subrange(0, i as int).lemma_flatten_push(cell@);
                assert(sub =~= lists.subrange(0, i as int).push(cell@));
            }
            i = i + 1;
        }
        proof {
            assert(lists.subrange(0, cell_contents@.len() as int) =~= lists);
        }
        targets
    }

    /// A town portal scroll takes the player back to town unless they are
    /// already there (depth 1).
    pub fn town_portal_works(depth: i32) -> (b: bool)
        ensures
            b == (depth != 1),
    {
        depth != 1
    }
}

/// The items of `items` (entity, name) named `name`, in order.
pub open spec fn named(items: Seq<(EntityId, String)>, name: Seq<char>) -> Seq<EntityId>
    decreases items.len(),
{
    if items.len() == 0 {
        Seq::empty()
    } else {
        let rest = named(items.drop_last(), name);
        if items.last().1@ == name {
            rest.push(items.last().0)
        } else {
            rest
        }
    }
}

impl ItemIdentificationSystem {
    /// The player used an item named `name`. A magic item not identified
    /// before becomes identified, and every item of that name loses its
    /// obfuscated name: those entities are returned. Otherwise nothing
    /// changes.
    pub fn identify(
        dm: &mut MasterDungeonMap,
        name: &String,
        is_magic: bool,
        items: &Vec<(EntityId, String)>,
    ) -> (revealed: Vec<EntityId>)
        ensures
            final(dm).maps@ == old(dm).maps@,
            !old(dm).identified().contains(name@) && is_magic ==> final(dm).identified() == old(dm).identified().insert(
                name@,
            ) && revealed@ == named(items@, name@),
            !(!old(dm).identified().contains(name@) && is_magic) ==> final(dm).identified() == old(dm).identified()
                && revealed@.len() == 0,
    {
        let mut revealed: Vec<EntityId> = Vec::new();
        if !dm.is_identified(name) && is_magic {
            dm.identify(name.clone());
            let mut i: usize = 0;
            while i < items.len()
                invariant
                    i <= items@.len(),
                    revealed@ == named(items@.subrange(0, i as int), name@),
                decreases items@.len() - i,
            {
                assert(items@.subrange(0, i + 1).drop_last() =~= items@.subrange(0, i as int));
                if items[i].1 == *name {
                    revealed.push(items[i].0);
                }
                i = i + 1;
            }
            assert(items@.subrange(0, items@.len() as int) =~= items@);
        }
        revealed
    }
}

impl ItemRemoveSystem {
    /// Takes `item` off, unless it is cursed: a cursed item stays worn and
    /// nothing changes. Otherwise every worn entry of `item` goes and all
    /// other entries stay. Returns whether the item came off (and goes back
    /// to its wearer's backpack).
    pub fn take_off(
        equipped: &mut Vec<(EntityId, EntityId, EquipmentSlot)>,
        item: EntityId,
        cursed: bool,
    ) -> (removed: bool)
        ensures
            removed == !cursed,
            cursed ==> final(equipped)@ == old(equipped)@,
            !cursed ==> forall|e: (EntityId, EntityId, EquipmentSlot)|
                #[trigger] final(equipped)@.contains(e) <==> (old(equipped)@.contains(e) && e.0 != item),
    {
        if cursed {
            return false;
        }
        let ghost before = equipped@;
        let mut kept: Vec<(EntityId, EntityId, EquipmentSlot)> = Vec::new();
        let mut i: usize = 0;
        while i < equipped.len()
            invariant
                equipped@ == before,
                i <= before.len(),
                forall|k: int| 0 <= k < kept@.len() ==> before.contains(#[trigger] kept@[k]) && kept@[k].0 != item,
                forall|k: int| 0 <= k < i && before[k].0 != item ==> kept@.contains(#[trigger] before[k]),
            decreases before.len() - i,
        {
            let e = equipped[i];
            let ghost kept_before = kept@;
            if e.0 != item {
                kept.push(e);
                assert(kept@[kept@.len() - 1] == e);
            }
            proof {
                assert forall|k: int| 0 <= k < i + 1 && before[k].0 != item implies kept@.contains(#[trigger] before[k]) by {
                    if k < i {
                        assert(kept_before.contains(before[k]));
                        let m = choose|m: int| 0 <= m < kept_before.len() && kept_before[m] == before[k];
                        assert(kept@[m] == before[k]);
                    } else {
                        assert(kept@[kept@.len() - 1] == before[k]);
                    }
                }
            }
            i = i + 1;
        }
        let ghost all_kept = kept@;
        *equipped = kept;
        proof {
            assert forall|e: (EntityId, EntityId, EquipmentSlot)| #[trigger] equipped@.contains(e) <==> (before.contains(e)
                && e.0 != item) by {
                if equipped@.contains(e) {
                    let m = choose|m: int| 0 <= m < all_kept.len() && all_kept[m] == e;
                    assert(before.contains(all_kept[m]));
                }
                if before.contains(e) && e.0 != item {
                    let k = choose|k: int| 0 <= k < before.len() && before[k] == e;
                    assert(all_kept.contains(before[k]));
                }
            }
        }
        true
    }
}

/// A line the item systems write to the log.
pub enum ItemLogLine {
    /// The player picked `item` up.
    PickUp { item: String },
    /// The player dropped `item`.
    Drop { item: String },
    /// The player took `item` off.
    Remove { item: String },
    /// Putting something on made the player take `item` off.
    Unequip { item: String },
    /// The player tried to take off the cursed `item`.
    Cursed { item: String },
    /// The player put `item` on.
    Equip { item: String },
    /// The player hurt `target` with `item`.
    Damage { item: String, target: String, amount: i32 },
    /// The player drank `item` and healed.
    Heal { item: String, amount: i32 },
    /// The player confused `target` with `item`.
    Confuse { item: String, target: String },
    /// The player ate `item`.
    Eat { item: String },
    /// A magic mapping scroll was read.
    MapRevealed,
    /// A town portal was read in town.
    AlreadyInTown,
    /// A town portal took the player home.
    PortalHome,
}

/// The text of a log line.
pub open spec fn item_log_text(line: ItemLogLine) -> Seq<char> {
    match line {
        ItemLogLine::PickUp { item } => "You pick up the "@ + item@ + "."@,
        ItemLogLine::Drop { item } => "You drop the "@ + item@ + "."@,
        ItemLogLine::Remove { item } => "You unequip the "@ + item@ + "."@,
        ItemLogLine::Unequip { item } => "You unequip "@ + item@ + "."@,
        ItemLogLine::Cursed { item } => "You cannot unequip "@ + item@ + " - it is cursed!"@,
        ItemLogLine::Equip { item } => "You equip "@ + item@ + "."@,
        ItemLogLine::Damage { item, target, amount } => "You use "@ + item@ + " on "@ + target@ + ", inflicting "@
            + decimal(amount as int) + " hp."@,
        ItemLogLine::Heal { item, amount } => "You drink the "@ + item@ + ", healing "@ + decimal(amount as int)
            + " hp."@,
        ItemLogLine::Confuse { item, target } => "You use "@ + item@ + " on "@ + target@ + ", confusing them."@,
        ItemLogLine::Eat { item } => "You eat the "@ + item@ + "."@,
        ItemLogLine::MapRevealed => "The map is revealed to you!"@,
        ItemLogLine::AlreadyInTown => "You are already in town, so the scroll does nothing."@,
        ItemLogLine::PortalHome => "You are telported back to town!"@,
    }
}

/// `before`, `middle` and `after` in a row.
fn text3(before: &str, middle: &str, after: &str) -> (s: String)
    ensures
        s@ == before@ + middle@ + after@,
{
    let mut s = String::from_str(before);
    s.append(middle);
    s.append(after);
    s
}

/// Returns the text of a log line.
pub fn item_log_line(line: &ItemLogLine) -> (s: String)
    ensures
        s@ == item_log_text(*line),
{
    match line {
        ItemLogLine::PickUp { item } => text3("You pick up the ", item.as_str(), "."),
        ItemLogLine::Drop { item } => text3("You drop the ", item.as_str(), "."),
        ItemLogLine::Remove { item } => text3("You unequip the ", item.as_str(), "."),
        ItemLogLine::Unequip { item } => text3("You unequip ", item.as_str(), "."),
        ItemLogLine::Cursed { item } => text3("You cannot unequip ", item.as_str(), " - it is cursed!"),
        ItemLogLine::Equip { item } => text3("You equip ", item.as_str(), "."),
        ItemLogLine::Damage { item, target, amount } => {
            let mut s = text3("You use ", item.as_str(), " on ");
            s.append(target.as_str());
            s.append(", inflicting ");
            let n = i32_to_string(*amount);
            s.append(n.as_str());
            s.append(" hp.");
            s
        },
        ItemLogLine::Heal { item, amount } => {
            let mut s = text3("You drink the ", item.as_str(), ", healing ");
            let n = i32_to_string(*amount);
            s.append(n.as_str());
            s.append(" hp.");
            s
        },
        ItemLogLine::Confuse { item, target } => {
            let mut s = text3("You use ", item.as_str(), " on ");
            s.append(target.as_str());
            s.append(", confusing them.");
            s
        },
        ItemLogLine::Eat { item } => text3("You eat the ", item.as_str(), "."),
        ItemLogLine::MapRevealed => String::from_str("The map is revealed to you!"),
        ItemLogLine::AlreadyInTown => String::from_str("You are already in town, so the scroll does nothing."),
        ItemLogLine::PortalHome => String::from_str("You are telported back to town!"),
    }
}

} // verus!
