//! The words of the game: hints, status messages and what the player is told
//! after each move.

use crate::card::Card;
use crate::render::{card_label, card_text};
use crate::text::{numeral, push_numeral};
use vstd::prelude::*;
use vstd::string::StringExecFns;

verus! {

/// Hint lines, one for each point of the game at which the player can act.
pub const HINT_MAIN: &'static str = "Main menu: type 'start' then 'enter'.";

pub const HINT_ROOM_CHOICE_CAN_SKIP: &'static str = "Room: 'f' to face \u{2022} 's' to skip.";

pub const HINT_ROOM_CHOICE_NO_SKIP: &'static str = "Room: 'f' to face (skip already used).";

pub const HINT_CARD_SELECTION: &'static str = "Select: click a card, or type 1-4 then 'enter'.";

pub const HINT_PROMPT_WEAPON: &'static str = "Prompt: type 'y' or 'n' then 'enter'.";

pub const HINT_INTERACTION_ACK: &'static str = "Battle won. Press 'enter' to continue.";

pub const HINT_GAME_OVER: &'static str =
    "Game over: type 'restart' to play again, or Ctrl+Q to quit.";

/// Status messages.
pub const ENTERED_DUNGEON: &'static str = "Entered the dungeon.";

pub const FACE_ROOM: &'static str = "Facing the room. Choose a card.";

pub const SKIPPED_ROOM: &'static str = "Skipped the room.";

pub const ROOM_RESOLVED: &'static str = "Room resolved. Face or skip the next room.";

pub const YOU_SURVIVED: &'static str = "You survived the dungeon!";

pub const YOU_DIED: &'static str = "You succumbed to the dungeon's monsters.";

pub const POTION_WASTED: &'static str = "Potion wasted (only 1 per room).";

pub const UNKNOWN_CARD: &'static str = "Unknown card.";

pub const NO_MONSTERS_REMAIN: &'static str = "No monsters remain. You defeated them all!";

/// Guidance after an input that the game cannot act on.
pub const NEED_START: &'static str = "Type 'start' then 'enter'.";

pub const NEED_FACE_OR_SKIP: &'static str = "Type 'f' to face, or 's' to skip.";

pub const NEED_FACE_ONLY: &'static str = "Type 'f' to face (skip already used).";

pub const NEED_SELECT_CARD: &'static str = "Type 1-4 to select a card, or click a card.";

pub const INVALID_CARD_SELECTION: &'static str = "Invalid card selection.";

pub const MUST_FACE_FIRST: &'static str = "You must face the room ('f') before selecting.";

pub const NEED_Y_OR_N: &'static str = "Type 'y' or 'n' then 'enter'.";

pub const RESTART_HELP: &'static str = "Type 'restart' to play again, 'exit' to quit, or Ctrl+Q.";

/// Put before the echo of what the player typed.
pub const CMD_PREFIX: &'static str = "> ";

/// The question put to the player who meets a monster with a usable weapon in
/// hand. Without a weapon a question mark stands in its place.
pub open spec fn weapon_prompt_text(monster: Card, weapon: Option<Card>) -> Seq<char> {
    "Monster "@ + card_label(monster) + " \u{2014} use weapon "@ + (match weapon {
        Some(w) => card_label(w),
        None => "?"@,
    }) + "? (y/n)"@
}

/// Report of a fight without the weapon.
pub open spec fn fought_bare_text(damage: int) -> Seq<char> {
    "Fought monster! Took "@ + numeral(damage) + " damage."@
}

/// Report of a fight with the weapon.
pub open spec fn fought_armed_text(damage: int) -> Seq<char> {
    "Fought with weapon! Took "@ + numeral(damage) + " damage."@
}

/// Report of a weapon taken up.
pub open spec fn equipped_text(weapon: Card) -> Seq<char> {
    "Equipped "@ + card_label(weapon) + "!"@
}

/// Report of a potion drunk.
pub open spec fn healed_text(amount: int) -> Seq<char> {
    "Healed for "@ + numeral(amount) + " HP."@
}

/// The threat left in the dungeon, shown as a penalty.
pub open spec fn threat_text(threat: int) -> Seq<char> {
    "Remaining monsters total threat: -"@ + numeral(threat)
}

/// Words the weapon question.
pub fn weapon_prompt(monster: Card, weapon: Option<Card>) -> (s: String)
    ensures
        s@ == weapon_prompt_text(monster, weapon),
{
    let mut s = String::new();
    s.append("Monster ");
    let monster_label = card_text(monster);
    s.append(monster_label.as_str());
    s.append(" \u{2014} use weapon ");
    match weapon {
        Some(w) => {
            let weapon_label = card_text(w);
            s.append(weapon_label.as_str());
        },
        None => {
            s.append("?");
        },
    }
    s.append("? (y/n)");
    assert(s@ =~= weapon_prompt_text(monster, weapon));
    s
}

/// Words the report of a fight without the weapon.
pub fn fought_bare(damage: i32) -> (s: String)
    ensures
        s@ == fought_bare_text(damage as int),
{
    let mut s = String::new();
    s.append("Fought monster! Took ");
    push_numeral(&mut s, damage);
    s.append(" damage.");
    assert(s@ =~= fought_bare_text(damage as int));
    s
}

/// Words the report of a fight with the weapon.
pub fn fought_armed(damage: i32) -> (s: String)
    ensures
        s@ == fought_armed_text(damage as int),
{
    let mut s = String::new();
    s.append("Fought with weapon! Took ");
    push_numeral(&mut s, damage);
    s.append(" damage.");
    assert(s@ =~= fought_armed_text(damage as int));
    s
}

/// Words the report of a weapon taken up.
pub fn equipped(weapon: Card) -> (s: String)
    ensures
        s@ == equipped_text(weapon),
{
    let mut s = String::new();
    s.append("Equipped ");
    let label = card_text(weapon);
    s.append(label.as_str());
    s.append("!");
    assert(s@ =~= equipped_text(weapon));
    s
}

/// Words the report of a potion drunk.
pub fn healed(amount: i32) -> (s: String)
    ensures
        s@ == healed_text(amount as int),
{
    let mut s = String::new();
    s.append("Healed for ");
    push_numeral(&mut s, amount);
    s.append(" HP.");
    assert(s@ =~= healed_text(amount as int));
    s
}

/// Words the threat left in the dungeon.
pub fn threat_line(threat: i32) -> (s: String)
    ensures
        s@ == threat_text(threat as int),
{
    let mut s = String::new();
    s.append("Remaining monsters total threat: -");
    push_numeral(&mut s, threat);
    assert(s@ =~= threat_text(threat as int));
    s
}

} // verus!
