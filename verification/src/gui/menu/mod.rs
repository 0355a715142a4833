pub mod cheat;
pub mod game_over;
pub mod identify;
pub mod main_menu;
pub mod ranged_target;
pub mod remove_curse;
pub mod vendor;

use vstd::prelude::*;

use crate::components::EntityId;

verus! {

/// What an item menu made of the last key press.
#[derive(PartialEq, Eq, Structural, Copy, Clone, Debug)]
pub enum ItemMenuResult {
    Cancel,
    NoResponse,
    Selected,
}

/// A key press as the menus read it. A letter key carries its place in the
/// alphabet (`a` is 0, `z` is 25).
#[derive(PartialEq, Eq, Structural, Copy, Clone, Debug)]
pub enum MenuKey {
    Escape,
    Up,
    Down,
    Return,
    Space,
    Letter { index: i32 },
    Other,
}

/// The menu option a key picks: a letter's place in the alphabet, or -1
/// for any other key.
pub open spec fn key_option(key: MenuKey) -> int {
    match key {
        MenuKey::Letter { index } => index as int,
        _ => -1,
    }
}

/// The answer of an item menu listing `items`, of which the first `count`
/// are offered: no key, no response; Escape cancels; the letter of an
/// offered item selects it; any other key is ignored.
pub open spec fn item_menu_choice(key: Option<MenuKey>, items: Seq<EntityId>, count: int) -> (
    ItemMenuResult,
    Option<EntityId>,
) {
    match key {
        None => (ItemMenuResult::NoResponse, None),
        Some(MenuKey::Escape) => (ItemMenuResult::Cancel, None),
        Some(k) => {
            let s = key_option(k);
            if s > -1 && s < count {
                (ItemMenuResult::Selected, Some(items[s]))
            } else {
                (ItemMenuResult::NoResponse, None)
            }
        },
    }
}

/// Returns how an item menu answers `key`.
pub fn item_menu_input(key: Option<MenuKey>, items: &Vec<EntityId>, count: i32) -> (r: (
    ItemMenuResult,
    Option<EntityId>,
))
    requires
        count <= items@.len(),
    ensures
        r == item_menu_choice(key, items@, count as int),
{
    match key {
        None => (ItemMenuResult::NoResponse, None),
        Some(MenuKey::Escape) => (ItemMenuResult::Cancel, None),
        Some(k) => {
            let selection: i32 = match k {
                MenuKey::Letter { index } => index,
                _ => -1,
            };
            if selection > -1 && selection < count {
                (ItemMenuResult::Selected, Some(items[selection as usize]))
            } else {
                (ItemMenuResult::NoResponse, None)
            }
        },
    }
}

/// What the item menus know of an item: who carries it in a backpack, who
/// wears it, its name, whether it shows an obfuscated name and whether it
/// is cursed.
pub struct MenuItem {
    pub id: EntityId,
    pub backpack_owner: Option<EntityId>,
    pub equipped_owner: Option<EntityId>,
    pub name: Option<String>,
    pub obfuscated: bool,
    pub cursed: bool,
}

/// The ids of the items of `items` that `keep` picks, in their order.
pub open spec fn picked(items: Seq<MenuItem>, keep: spec_fn(MenuItem) -> bool) -> Seq<EntityId>
    decreases items.len(),
{
    if items.len() == 0 {
        Seq::empty()
    } else {
        let rest = picked(items.drop_last(), keep);
        if keep(items.last()) {
            rest.push(items.last().id)
        } else {
            rest
        }
    }
}

/// Where an item menu looks for the player's items.
#[derive(PartialEq, Eq, Structural, Copy, Clone, Debug)]
pub enum MenuSource {
    /// The items in the player's backpack.
    Backpack,
    /// The items the player wears.
    Equipped,
}

/// Whether `item` belongs to `player` in the place `source` names.
pub open spec fn owned_in(item: MenuItem, player: EntityId, source: MenuSource) -> bool {
    match source {
        MenuSource::Backpack => item.backpack_owner == Some(player),
        MenuSource::Equipped => item.equipped_owner == Some(player),
    }
}

/// Returns the items an item menu lists: those of `player` in `source`, in
/// order.
pub fn show_menu(items: &Vec<MenuItem>, player: EntityId, source: MenuSource) -> (listed: Vec<EntityId>)
    ensures
        listed@ == picked(items@, |it: MenuItem| owned_in(it, player, source)),
{
    let ghost keep = |it: MenuItem| owned_in(it, player, source);
    let mut listed: Vec<EntityId> = Vec::new();
    let mut i: usize = 0;
    while i < items.len()
        invariant
            i <= items@.len(),
            listed@ == picked(items@.subrange(0, i as int), keep),
            keep == (|it: MenuItem| owned_in(it, player, source)),
        decreases items@.len() - i,
    {
        let item = &items[i];
        let wanted = match source {
            MenuSource::Backpack => item.backpack_owner == Some(player),
            MenuSource::Equipped => item.equipped_owner == Some(player),
        };
        proof {
            assert(items@.subrange(0, i + 1).drop_last() =~= items@.subrange(0, i as int));
            assert(items@.subrange(0, i + 1).last() == items@[i as int]);
            assert(wanted == keep(items@[i as int]));
        }
        if wanted {
            listed.push(item.id);
        }
        i = i + 1;
    }
    proof {
        assert(items@.subrange(0, items@.len() as int) =~= items@);
    }
    listed
}

/// Returns the items the inventory menu lists: the player's backpack.
pub fn show_inventory(items: &Vec<MenuItem>, player: EntityId) -> (listed: Vec<EntityId>)
    ensures
        listed@ == picked(items@, |it: MenuItem| owned_in(it, player, MenuSource::Backpack)),
{
    show_menu(items, player, MenuSource::Backpack)
}

/// Returns the items the drop menu lists: the player's backpack.
pub fn drop_item_menu(items: &Vec<MenuItem>, player: EntityId) -> (listed: Vec<EntityId>)
    ensures
        listed@ == picked(items@, |it: MenuItem| owned_in(it, player, MenuSource::Backpack)),
{
    show_menu(items, player, MenuSource::Backpack)
}

/// Returns the items the unequip menu lists: what the player wears.
pub fn remove_item_menu(items: &Vec<MenuItem>, player: EntityId) -> (listed: Vec<EntityId>)
    ensures
        listed@ == picked(items@, |it: MenuItem| owned_in(it, player, MenuSource::Equipped)),
{
    show_menu(items, player, MenuSource::Equipped)
}

/// The screen row of a menu's first entry: the list of `count` entries is
/// centred on row 25. (The row is computed on unsigned numbers, so a list
/// of more than 51 entries has no row.)
pub open spec fn menu_top_row(count: int) -> int {
    25 - count / 2
}

/// Returns the row of a menu's first entry.
pub fn menu_top(count: usize) -> (y: i32)
    requires
        count / 2 <= 25,
    ensures
        y == menu_top_row(count as int),
{
    let row: usize = 25 - count / 2;
    row as i32
}

} // verus!
