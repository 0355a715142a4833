use vstd::prelude::*;

use crate::ai::quip_system::{quip_line, quip_pick, quip_spoken, quip_text};
use crate::rng::roll_dice;

verus! {

/// Town folk that wander about and may say the same line again.
pub struct BystanderAISystem;

/// What a bystander's turn says for the given rolls: when it speaks, `line`
/// is the chosen line in its mouth; otherwise nothing is said.
pub open spec fn bystander_quip_outcome(
    quips: Seq<String>,
    sees_player: bool,
    name: Seq<char>,
    speak_roll: int,
    pick_roll: int,
    line: Option<String>,
) -> bool {
    if quip_spoken(quips.len(), sees_player, speak_roll) {
        line is Some && line->0@ == quip_text(name, quips[quip_pick(quips.len(), pick_roll)]@)
    } else {
        line is None
    }
}

impl BystanderAISystem {
    /// A bystander that can see the player speaks one time in six, picking
    /// one of its lines at random; the lines are kept.
    pub fn maybe_quip(
        quips: &Vec<String>,
        sees_player: bool,
        name: &str,
        rng: &mut rltk::RandomNumberGenerator,
    ) -> (line: Option<String>)
        requires
            quips@.len() < i32::MAX,
        ensures
            exists|speak_roll: int, pick_roll: int|
                1 <= speak_roll <= 6 && (quips@.len() > 1 ==> 1 <= pick_roll <= quips@.len())
                    && #[trigger] bystander_quip_outcome(quips@, sees_player, name@, speak_roll, pick_roll, line),
            quips@.len() == 0 || !sees_player ==> line is None,
    {
        if !(quips.len() > 0 && sees_player) {
            assert(bystander_quip_outcome(quips@, sees_player, name@, 1, 1, None));
            return None;
        }
        let speak_roll = roll_dice(rng, 1, 6);
        let pick_roll = if speak_roll == 1 && quips.len() > 1 {
            roll_dice(rng, 1, quips.len() as i32)
        } else {
            1
        };
        let line = Self::quip_with_rolls(quips, sees_player, name, speak_roll, pick_roll);
        assert(bystander_quip_outcome(quips@, sees_player, name@, speak_roll as int, pick_roll as int, line));
        line
    }

    /// A bystander's turn for the given rolls: a speak roll of 1 lets a
    /// bystander that has lines and can see the player say the line that
    /// the pick roll (`1..=lines`) numbers; the lines are kept.
    pub fn quip_with_rolls(
        quips: &Vec<String>,
        sees_player: bool,
        name: &str,
        speak_roll: i32,
        pick_roll: i32,
    ) -> (line: Option<String>)
        requires
            quips@.len() > 1 ==> 1 <= pick_roll <= quips@.len(),
        ensures
            bystander_quip_outcome(quips@, sees_player, name@, speak_roll as int, pick_roll as int, line),
    {
        if !(quips.len() > 0 && sees_player && speak_roll == 1) {
            return None;
        }
        let quip_idx: usize = if quips.len() == 1 {
            0
        } else {
            (pick_roll - 1) as usize
        };
        Some(quip_line(name, quips[quip_idx].as_str()))
    }
}

} // verus!
