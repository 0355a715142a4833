use vstd::prelude::*;
use vstd::string::StringExecFns;

use crate::gamelog::events::{count_of, get_event_count, EventCounts};
use crate::text::{framed, framed_number};

verus! {

/// What the game-over screen made of the last key press.
#[derive(PartialEq, Eq, Structural, Copy, Clone, Debug)]
pub enum GameOverResult {
    NoSelection,
    QuitToMenu,
}

/// Returns the game-over screen's answer: any key returns to the menu.
pub fn game_over(key_pressed: bool) -> (r: GameOverResult)
    ensures
        r == (if key_pressed { GameOverResult::QuitToMenu } else { GameOverResult::NoSelection }),
{
    if key_pressed {
        GameOverResult::QuitToMenu
    } else {
        GameOverResult::NoSelection
    }
}

/// Returns the three lines of statistics the game-over screen prints: the
/// turns lived, the damage inflicted and the damage suffered, as the event
/// counts hold them.
pub fn game_over_stats(events: &EventCounts) -> (lines: Vec<String>)
    requires
        events.wf(),
    ensures
        lines@.len() == 3,
        lines@[0]@ == framed("You lived for "@, count_of(events.counts(), "Turn"@), " turns."@),
        lines@[1]@ == framed(
            "You inflicted "@,
            count_of(events.counts(), "Damage Inflicted"@),
            " points of damage."@,
        ),
        lines@[2]@ == framed(
            "You suffered "@,
            count_of(events.counts(), "Damage Taken"@),
            " points of damage."@,
        ),
{
    let turns = get_event_count(events, &String::from_str("Turn"));
    let dealt = get_event_count(events, &String::from_str("Damage Inflicted"));
    let taken = get_event_count(events, &String::from_str("Damage Taken"));
    let mut lines: Vec<String> = Vec::new();
    lines.push(framed_number("You lived for ", turns, " turns."));
    lines.push(framed_number("You inflicted ", dealt, " points of damage."));
    lines.push(framed_number("You suffered ", taken, " points of damage."));
    lines
}

} // verus!
