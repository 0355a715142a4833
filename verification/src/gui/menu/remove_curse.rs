use vstd::prelude::*;

use super::{picked, MenuItem};
use crate::components::EntityId;
use crate::map::dungeon::MasterDungeonMap;

verus! {

/// Whether the remove-curse menu offers an item: it is cursed, and either
/// the player wears it (so the curse is plain) or carries it under a name
/// already identified.
pub open spec fn remove_curse_offers(item: MenuItem, player: EntityId, identified: Set<Seq<char>>) -> bool {
    &&& item.cursed
    &&& {
        ||| (item.backpack_owner == Some(player) && item.name is Some && identified.contains(item.name->0@))
        ||| item.equipped_owner == Some(player)
    }
}

/// Returns the items the remove-curse menu lists, in order.
pub fn remove_curse_menu(items: &Vec<MenuItem>, player: EntityId, dm: &MasterDungeonMap) -> (offered: Vec<EntityId>)
    ensures
        offered@ == picked(items@, |it: MenuItem| remove_curse_offers(it, player, dm.identified())),
{
    let ghost keep = |it: MenuItem| remove_curse_offers(it, player, dm.identified());
    let mut offered: Vec<EntityId> = Vec::new();
    let mut i: usize = 0;
    while i < items.len()
        invariant
            i <= items@.len(),
            offered@ == picked(items@.subrange(0, i as int), keep),
            keep == (|it: MenuItem| remove_curse_offers(it, player, dm.identified())),
        decreases items@.len() - i,
    {
        let item = &items[i];
        let mut wanted = false;
        if item.cursed {
            if item.backpack_owner == Some(player) {
                if let Some(name) = &item.name {
                    if dm.is_identified(name) {
                        wanted = true;
                    }
                }
            }
            if item.equipped_owner == Some(player) {
                wanted = true;
            }
        }
        proof {
            assert(items@.subrange(0, i + 1).drop_last() =~= items@.subrange(0, i as int));
            assert(items@.subrange(0, i + 1).last() == items@[i as int]);
            assert(wanted == keep(items@[i as int]));
        }
        if wanted {
            offered.push(item.id);
        }
        i = i + 1;
    }
    proof {
        assert(items@.subrange(0, items@.len() as int) =~= items@);
    }
    offered
}

} // verus!
