use vstd::prelude::*;

verus! {

/// The number by which the game refers to an entity of its world.
pub type EntityId = u32;

/// Where an entity stands on the current level.
#[derive(PartialEq, Eq, Structural, Copy, Clone, Debug, Default)]
pub struct Position {
    pub x: i32,
    pub y: i32,
}

/// Where an entity stands on a level other than the current one.
#[derive(PartialEq, Eq, Structural, Copy, Clone, Debug)]
pub struct OtherLevelPosition {
    pub x: i32,
    pub y: i32,
    pub depth: i32,
}

} // verus!

verus! {

/// How fed an entity is, from best to worst.
#[derive(PartialEq, Eq, Structural, Copy, Clone, Debug)]
pub enum HungerState {
    WellFed,
    Normal,
    Hungry,
    Starving,
}

/// An entity's hunger: its state and the turns left until it worsens.
#[derive(PartialEq, Eq, Structural, Copy, Clone, Debug)]
pub struct HungerClock {
    pub state: HungerState,
    pub duration: i32,
}

/// One of an entity's four attributes.
#[derive(PartialEq, Eq, Structural, Copy, Clone, Debug)]
pub struct Attribute {
    pub base: i32,
    pub modifiers: i32,
    pub bonus: i32,
}

/// The four attributes of a creature.
#[derive(PartialEq, Eq, Structural, Copy, Clone, Debug)]
pub struct Attributes {
    pub might: Attribute,
    pub fitness: Attribute,
    pub quickness: Attribute,
    pub intelligence: Attribute,
}

/// A bounded resource, such as hit points or mana.
#[derive(PartialEq, Eq, Structural, Copy, Clone, Debug)]
pub struct Pool {
    pub max: i32,
    pub current: i32,
}

/// A creature's resources and progress. (Carried weight, initiative penalty
/// and gold are fractional and kept beside this record by the game.)
#[derive(PartialEq, Eq, Structural, Copy, Clone, Debug)]
pub struct Pools {
    pub hit_points: Pool,
    pub mana: Pool,
    pub xp: i32,
    pub level: i32,
    pub god_mode: bool,
}

/// The turns a timed status effect has left.
#[derive(PartialEq, Eq, Structural, Copy, Clone, Debug)]
pub struct Duration {
    pub turns: i32,
}

/// A creature's place in the turn order: it acts when this reaches zero.
#[derive(PartialEq, Eq, Structural, Copy, Clone, Debug)]
pub struct Initiative {
    pub current: i32,
}

/// An item that can be used up, with its charges.
#[derive(PartialEq, Eq, Structural, Copy, Clone, Debug)]
pub struct Consumable {
    pub max_charges: i32,
    pub charges: i32,
}

/// How rare a magic item is.
#[derive(PartialEq, Eq, Structural, Copy, Clone, Debug)]
pub enum MagicItemClass {
    Common,
    Rare,
    Legendary,
}

/// The places an item can be worn or wielded in.
#[derive(PartialEq, Eq, Structural, Copy, Clone, Debug)]
pub enum EquipmentSlot {
    Melee,
    Shield,
    Head,
    Torso,
    Legs,
    Feet,
    Hands,
}

/// A point of the map, as the terminal library's point type holds it.
#[derive(PartialEq, Eq, Structural, Copy, Clone, Debug, Default)]
pub struct Point {
    pub x: i32,
    pub y: i32,
}

} // verus!

verus! {

impl From<Position> for Point {
    fn from(value: Position) -> (p: Point) {
        Point { x: value.x, y: value.y }
    }
}

impl vstd::std_specs::convert::FromSpecImpl<Position> for Point {
    open spec fn obeys_from_spec() -> bool {
        true
    }

    open spec fn from_spec(v: Position) -> Point {
        Point { x: v.x, y: v.y }
    }
}

} // verus!
