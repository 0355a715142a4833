use vstd::prelude::*;

use super::{picked, MenuItem};
use crate::components::EntityId;
use crate::map::dungeon::MasterDungeonMap;

verus! {

/// Whether the identify menu offers an item: the player carries or wears
/// it, and it still goes under an obfuscated name that has not been
/// identified.
pub open spec fn identify_offers(item: MenuItem, player: EntityId, identified: Set<Seq<char>>) -> bool {
    &&& (item.backpack_owner == Some(player) || item.equipped_owner == Some(player))
    &&& item.name is Some
    &&& item.obfuscated
    &&& !identified.contains(item.name->0@)
}

/// Returns the items the identify menu lists, in order.
pub fn identify_menu(items: &Vec<MenuItem>, player: EntityId, dm: &MasterDungeonMap) -> (offered: Vec<EntityId>)
    ensures
        offered@ == picked(items@, |it: MenuItem| identify_offers(it, player, dm.identified())),
{
    let ghost keep = |it: MenuItem| identify_offers(it, player, dm.identified());
    let mut offered: Vec<EntityId> = Vec::new();
    let mut i: usize = 0;
    while i < items.len()
        invariant
            i <= items@.len(),
            offered@ == picked(items@.subrange(0, i as int), keep),
            keep == (|it: MenuItem| identify_offers(it, player, dm.identified())),
        decreases items@.len() - i,
    {
        let item = &items[i];
        let mut wanted = false;
        if item.backpack_owner == Some(player) || item.equipped_owner == Some(player) {
            if let Some(name) = &item.name {
                if item.obfuscated && !dm.is_identified(name) {
                    wanted = true;
                }
            }
        }
        proof {
            assert(items@.subrange(0, i + 1).drop_last() =~= items@.subrange(0, i as int));
            assert(items@.subrange(0, i + 1).last() == items@[i as int]);
            assert(wanted == keep(items@[i as int]));
        }
        if wanted {
            offered.push(item.id);
        }
        i = i + 1;
    }
    proof {
        assert(items@.subrange(0, items@.len() as int) =~= items@);
    }
    offered
}

} // verus!
