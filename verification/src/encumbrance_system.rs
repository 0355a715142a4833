use vstd::prelude::*;

use crate::components::Attribute;

verus! {

/// Totals what creatures carry and penalises the overburdened.
pub struct EncumbranceSystem;

/// The initiative penalty for carrying more than one can.
pub const OVERBURDENED_PENALTY: i32 = 4;

/// What a creature of the given might can carry, in pounds: fifteen per
/// point of might.
pub open spec fn capacity_of(might: Attribute) -> int {
    (might.base + might.modifiers) * 15
}

impl EncumbranceSystem {
    /// Returns what a creature of the given might can carry.
    pub fn carry_capacity(might: &Attribute) -> (lbs: i32)
        requires
            i32::MIN <= capacity_of(*might) <= i32::MAX,
        ensures
            lbs == capacity_of(*might),
    {
        (might.base + might.modifiers) * 15
    }

    /// Whether a creature carrying `whole_lbs` pounds (the total weight
    /// with the fraction dropped) is overburdened: it carries more than it
    /// can, and then suffers an initiative penalty of 4.
    pub fn is_overburdened(whole_lbs: i32, might: &Attribute) -> (b: bool)
        requires
            i32::MIN <= capacity_of(*might) <= i32::MAX,
        ensures
            b == (whole_lbs > capacity_of(*might)),
    {
        whole_lbs > Self::carry_capacity(might)
    }
}

} // verus!
