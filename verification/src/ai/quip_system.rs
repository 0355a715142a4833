use vstd::prelude::*;
use vstd::string::StringExecFns;

use crate::rng::roll_dice;

verus! {

/// Lets creatures that can see the player say one of their lines.
pub struct QuipSystem;

/// The log line of `name` saying `quip`: `<name> says "<quip>"`.
pub open spec fn quip_text(name: Seq<char>, quip: Seq<char>) -> Seq<char> {
    name + " says \""@ + quip + "\""@
}

/// Returns the log line of `name` saying `quip`.
pub fn quip_line(name: &str, quip: &str) -> (line: String)
    ensures
        line@ == quip_text(name@, quip@),
{
    let line = String::from_str(name).concat(" says \"").concat(quip).concat("\"");
    line
}

/// A creature speaks when it has lines left, can see the player and its
/// one-in-six roll comes up 1.
pub open spec fn quip_spoken(lines: nat, sees_player: bool, speak_roll: int) -> bool {
    lines > 0 && sees_player && speak_roll == 1
}

/// The line a pick roll of `1..=lines` chooses: the only one when there is
/// one, else the one the roll numbers.
pub open spec fn quip_pick(lines: nat, pick_roll: int) -> int {
    if lines == 1 {
        0
    } else {
        pick_roll - 1
    }
}

/// What a creature's turn does with its lines for the given rolls: when it
/// speaks, `line` is the chosen line in its mouth and that line is used up;
/// otherwise nothing is said and the lines stay.
pub open spec fn quip_outcome(
    before: Seq<String>,
    sees_player: bool,
    name: Seq<char>,
    speak_roll: int,
    pick_roll: int,
    line: Option<String>,
    after: Seq<String>,
) -> bool {
    if quip_spoken(before.len(), sees_player, speak_roll) {
        let k = quip_pick(before.len(), pick_roll);
        &&& line is Some
        &&& line->0@ == quip_text(name, before[k]@)
        &&& after == before.remove(k)
    } else {
        line is None && after == before
    }
}

impl QuipSystem {
    /// On a creature's turn: if it has lines left and can see the player, it
    /// speaks one time in six, picking one of its lines at random, which is
    /// then used up.
    pub fn maybe_quip(
        quips: &mut Vec<String>,
        sees_player: bool,
        name: &str,
        rng: &mut rltk::RandomNumberGenerator,
    ) -> (line: Option<String>)
        requires
            old(quips)@.len() < i32::MAX,
        ensures
            exists|speak_roll: int, pick_roll: int|
                1 <= speak_roll <= 6 && (old(quips)@.len() > 1 ==> 1 <= pick_roll <= old(quips)@.len())
                    && #[trigger] quip_outcome(old(quips)@, sees_player, name@, speak_roll, pick_roll, line, final(quips)@),
            old(quips)@.len() == 0 || !sees_player ==> line is None && final(quips)@ == old(quips)@,
    {
        if !(quips.len() > 0 && sees_player) {
            assert(quip_outcome(old(quips)@, sees_player, name@, 1, 1, None, quips@));
            return None;
        }
        let speak_roll = roll_dice(rng, 1, 6);
        let pick_roll = if speak_roll == 1 && quips.len() > 1 {
            roll_dice(rng, 1, quips.len() as i32)
        } else {
            1
        };
        let line = Self::quip_with_rolls(quips, sees_player, name, speak_roll, pick_roll);
        assert(quip_outcome(old(quips)@, sees_player, name@, speak_roll as int, pick_roll as int, line, quips@));
        line
    }

    /// A creature's turn for the given rolls: a speak roll of 1 lets a
    /// creature that has lines left and can see the player say the line
    /// that the pick roll (`1..=lines`) numbers, which is then used up.
    pub fn quip_with_rolls(
        quips: &mut Vec<String>,
        sees_player: bool,
        name: &str,
        speak_roll: i32,
        pick_roll: i32,
    ) -> (line: Option<String>)
        requires
            old(quips)@.len() > 1 ==> 1 <= pick_roll <= old(quips)@.len(),
        ensures
            quip_outcome(old(quips)@, sees_player, name@, speak_roll as int, pick_roll as int, line, final(quips)@),
    {
        if !(quips.len() > 0 && sees_player && speak_roll == 1) {
            return None;
        }
        let quip_index: usize = if quips.len() == 1 {
            0
        } else {
            (pick_roll - 1) as usize
        };
        let line = quip_line(name, quips[quip_index].as_str());
        quips.remove(quip_index);
        Some(line)
    }
}

} // verus!
