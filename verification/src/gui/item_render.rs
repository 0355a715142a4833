use vstd::prelude::*;
use vstd::string::StringExecFns;

use crate::components::{Consumable, MagicItemClass};
use crate::map::dungeon::MasterDungeonMap;
use crate::text::{decimal, i32_to_string};

verus! {

/// The colour an item's name is drawn in.
#[derive(PartialEq, Eq, Structural, Copy, Clone, Debug)]
pub enum ItemColor {
    /// A cursed item whose curse is known.
    Cursed,
    /// A common magic item.
    Common,
    /// A rare magic item.
    Rare,
    /// A legendary magic item.
    Legendary,
    /// Any other item.
    Plain,
}

/// The colour of an item: red once it is known to be cursed (it is cursed
/// and its name is identified), else the colour of its magic class, else
/// plain.
pub open spec fn item_color_of(
    name: Option<Seq<char>>,
    cursed: bool,
    magic: Option<MagicItemClass>,
    identified: Set<Seq<char>>,
) -> ItemColor {
    if name is Some && cursed && identified.contains(name->0) {
        ItemColor::Cursed
    } else {
        match magic {
            Some(MagicItemClass::Common) => ItemColor::Common,
            Some(MagicItemClass::Rare) => ItemColor::Rare,
            Some(MagicItemClass::Legendary) => ItemColor::Legendary,
            None => ItemColor::Plain,
        }
    }
}

/// Returns the colour an item is listed in.
pub fn get_item_color(
    name: Option<&String>,
    cursed: bool,
    magic: Option<MagicItemClass>,
    dm: &MasterDungeonMap,
) -> (color: ItemColor)
    ensures
        color == item_color_of(
            match name { Some(n) => Some(n@), None => None },
            cursed,
            magic,
            dm.identified(),
        ),
{
    if let Some(n) = name {
        if cursed && dm.is_identified(n) {
            return ItemColor::Cursed;
        }
    }
    match magic {
        Some(MagicItemClass::Common) => ItemColor::Common,
        Some(MagicItemClass::Rare) => ItemColor::Rare,
        Some(MagicItemClass::Legendary) => ItemColor::Legendary,
        None => ItemColor::Plain,
    }
}

/// `name (n)`: a name followed by a number in brackets.
pub open spec fn with_count(name: Seq<char>, n: int) -> Seq<char> {
    name + " ("@ + decimal(n) + ")"@
}

/// Returns `name (n)`.
pub fn name_with_count(name: &str, n: i32) -> (s: String)
    ensures
        s@ == with_count(name@, n as int),
{
    let mut s = String::from_str(name);
    s.append(" (");
    let digits = i32_to_string(n);
    s.append(digits.as_str());
    s.append(")");
    s
}

/// The name an item is listed under. An item without a name is a bug and
/// says so; a mundane item shows its name; an identified magic item shows
/// its name, with its charges when it holds more than one; an unidentified
/// one shows its obfuscated name, or a placeholder.
pub open spec fn display_name_of(
    name: Option<Seq<char>>,
    is_magic: bool,
    consumable: Option<Consumable>,
    obfuscated: Option<Seq<char>>,
    identified: Set<Seq<char>>,
) -> Seq<char> {
    match name {
        None => "Nameless item (bug)"@,
        Some(n) => if !is_magic {
            n
        } else if identified.contains(n) {
            match consumable {
                Some(c) => if c.max_charges > 1 {
                    with_count(n, c.charges as int)
                } else {
                    n
                },
                None => n,
            }
        } else {
            match obfuscated {
                Some(o) => o,
                None => "Unidentified magic item"@,
            }
        },
    }
}

/// Returns the name an item is listed under.
pub fn get_item_display_name(
    name: Option<&String>,
    is_magic: bool,
    consumable: Option<Consumable>,
    obfuscated: Option<&String>,
    dm: &MasterDungeonMap,
) -> (shown: String)
    ensures
        shown@ == display_name_of(
            match name { Some(n) => Some(n@), None => None },
            is_magic,
            consumable,
            match obfuscated { Some(o) => Some(o@), None => None },
            dm.identified(),
        ),
{
    let name = match name {
        Some(n) => n,
        None => return String::from_str("Nameless item (bug)"),
    };
    if !is_magic {
        return name.clone();
    }
    if dm.is_identified(name) {
        if let Some(c) = consumable {
            if c.max_charges > 1 {
                return name_with_count(name.as_str(), c.charges);
            }
        }
        return name.clone();
    }
    match obfuscated {
        Some(o) => o.clone(),
        None => String::from_str("Unidentified magic item"),
    }
}

} // verus!
