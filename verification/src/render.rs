//! Text and colour of what the player sees: card labels, the health bar and
//! the status lines. Nothing here draws; a front end lays the strings out.

use crate::card::Card;
use crate::text::{digits, numeral, push_digits, push_numeral};
use vstd::prelude::*;
use vstd::string::StringExecFns;

verus! {

/// Foreground colours that the game asks for. The background is left to the
/// front end.
#[derive(Clone, Copy, Debug, PartialEq, Eq, Structural)]
pub enum Hue {
    Green,
    Yellow,
    Red,
    LightRed,
    White,
    DarkGray,
}

/// The rank as the player reads it: J, Q, K and A for 11 to 14, the number
/// otherwise.
pub open spec fn rank_label(value: u8) -> Seq<char> {
    if value == 11 {
        "J"@
    } else if value == 12 {
        "Q"@
    } else if value == 13 {
        "K"@
    } else if value == 14 {
        "A"@
    } else {
        digits(value as nat)
    }
}

/// The icon of a suit, or a question mark for a letter that names no suit.
pub open spec fn suit_glyph(suit: char) -> Seq<char> {
    if suit == 'S' {
        "\u{f18b1}"@
    } else if suit == 'C' {
        "\u{f18a5}"@
    } else if suit == 'D' {
        "\u{f18a9}"@
    } else if suit == 'H' {
        "\u{f18ad}"@
    } else {
        "?"@
    }
}

/// Rank followed by suit icon.
pub open spec fn card_label(card: Card) -> Seq<char> {
    rank_label(card.value) + suit_glyph(card.suit)
}

/// The cell of a health bar: full or empty.
pub open spec fn bar_cell(full: bool) -> Seq<char> {
    if full {
        "\u{2588}"@
    } else {
        "\u{2591}"@
    }
}

/// `count` copies of a text, one after the other.
pub open spec fn repeated(unit: Seq<char>, count: nat) -> Seq<char>
    decreases count,
{
    if count == 0 {
        Seq::empty()
    } else {
        repeated(unit, (count - 1) as nat) + unit
    }
}

/// Number of full cells of a health bar: the health, held between zero and
/// the width of the bar.
pub open spec fn bar_fill(hp: int, max_hp: int) -> nat {
    let width = bar_width(max_hp);
    if hp < 0 {
        0
    } else if hp > width {
        width
    } else {
        hp as nat
    }
}

/// Width of a health bar: the maximum health, or nothing when that is negative.
pub open spec fn bar_width(max_hp: int) -> nat {
    if max_hp < 0 {
        0
    } else {
        max_hp as nat
    }
}

/// A bar of `max_hp` cells of which the first `hp` are full.
pub open spec fn bar_text(hp: int, max_hp: int) -> Seq<char> {
    repeated(bar_cell(true), bar_fill(hp, max_hp)) + repeated(
        bar_cell(false),
        (bar_width(max_hp) - bar_fill(hp, max_hp)) as nat,
    )
}

/// The health line of the status panel.
pub open spec fn health_text(hp: int, max_hp: int) -> Seq<char> {
    "Health: "@ + numeral(hp) + "/"@ + numeral(max_hp) + " |"@ + bar_text(hp, max_hp) + "|"@
}

/// The weapon line of the status panel: the weapon, and the rank that a
/// monster must stay under once the weapon has slain one.
pub open spec fn weapon_text(weapon: Option<Card>, last_slain: Option<u8>) -> Seq<char> {
    match weapon {
        None => "Weapon: None"@,
        Some(w) => "Weapon: "@ + card_label(w) + match last_slain {
            Some(l) => " (must be < "@ + digits(l as nat) + ")"@,
            None => Seq::empty(),
        },
    }
}

/// Returns a short label such as `9` or `A` followed by the suit icon.
pub fn card_text(card: Card) -> (s: String)
    ensures
        s@ == card_label(card),
{
    let mut s = String::new();
    if card.value == 11 {
        s.append("J");
    } else if card.value == 12 {
        s.append("Q");
    } else if card.value == 13 {
        s.append("K");
    } else if card.value == 14 {
        s.append("A");
    } else {
        push_digits(&mut s, card.value as u64);
    }
    assert(s@ =~= rank_label(card.value));
    if card.suit == 'S' {
        s.append("\u{f18b1}");
    } else if card.suit == 'C' {
        s.append("\u{f18a5}");
    } else if card.suit == 'D' {
        s.append("\u{f18a9}");
    } else if card.suit == 'H' {
        s.append("\u{f18ad}");
    } else {
        s.append("?");
    }
    s
}

/// Card colours: light red for diamonds and hearts, white for the rest.
pub fn card_color(card: Card) -> (hue: Hue)
    ensures
        hue == if card.suit == 'D' || card.suit == 'H' {
            Hue::LightRed
        } else {
            Hue::White
        },
{
    if card.suit == 'D' || card.suit == 'H' {
        Hue::LightRed
    } else {
        Hue::White
    }
}

/// Colour of the health text: green above 10, yellow above 5, red from there
/// down.
pub fn health_color(hp: i32) -> (hue: Hue)
    ensures
        hue == if hp > 10 {
            Hue::Green
        } else if hp > 5 {
            Hue::Yellow
        } else {
            Hue::Red
        },
{
    if hp > 10 {
        Hue::Green
    } else if hp > 5 {
        Hue::Yellow
    } else {
        Hue::Red
    }
}

/// Appends `count` copies of `unit` to `out`.
fn push_repeated(out: &mut String, unit: &str, count: i32)
    requires
        count >= 0,
    ensures
        final(out)@ == old(out)@ + repeated(unit@, count as nat),
{
    let mut done: i32 = 0;
    while done < count
        invariant
            0 <= done <= count,
            out@ == old(out)@ + repeated(unit@, done as nat),
        decreases count - done,
    {
        out.append(unit);
        done = done + 1;
        assert(out@ =~= old(out)@ + repeated(unit@, done as nat));
    }
}

/// Appends the health bar to `out`.
fn push_bar(out: &mut String, hp: i32, max_hp: i32)
    ensures
        final(out)@ == old(out)@ + bar_text(hp as int, max_hp as int),
{
    let width: i32 = if max_hp < 0 {
        0
    } else {
        max_hp
    };
    let fill: i32 = if hp < 0 {
        0
    } else if hp > width {
        width
    } else {
        hp
    };
    push_repeated(out, "\u{2588}", fill);
    push_repeated(out, "\u{2591}", width - fill);
    assert(out@ =~= old(out)@ + bar_text(hp as int, max_hp as int));
}

/// Returns a fixed-width bar of `max_hp` cells, the first `hp` of them full,
/// with `hp` held between zero and `max_hp`.
pub fn health_bar(hp: i32, max_hp: i32) -> (s: String)
    ensures
        s@ == bar_text(hp as int, max_hp as int),
{
    let mut s = String::new();
    push_bar(&mut s, hp, max_hp);
    assert(s@ =~= bar_text(hp as int, max_hp as int));
    s
}

/// Formats the health line, such as `Health: 12/20 |...|` with the bar
/// between the strokes.
pub fn health_line(hp: i32, max_hp: i32) -> (s: String)
    ensures
        s@ == health_text(hp as int, max_hp as int),
{
    let mut s = String::new();
    s.append("Health: ");
    push_numeral(&mut s, hp);
    s.append("/");
    push_numeral(&mut s, max_hp);
    s.append(" |");
    push_bar(&mut s, hp, max_hp);
    s.append("|");
    assert(s@ =~= health_text(hp as int, max_hp as int));
    s
}

/// Formats the weapon line: `Weapon: None`, or the weapon's label, followed
/// by ` (must be < N)` once the weapon has slain a monster of rank `N`.
pub fn weapon_line(weapon: Option<Card>, last_monster_slain_with_weapon: Option<u8>) -> (s: String)
    ensures
        s@ == weapon_text(weapon, last_monster_slain_with_weapon),
{
    let mut s = String::new();
    match weapon {
        None => {
            s.append("Weapon: None");
            assert(s@ =~= weapon_text(weapon, last_monster_slain_with_weapon));
        },
        Some(w) => {
            s.append("Weapon: ");
            let label = card_text(w);
            s.append(label.as_str());
            match last_monster_slain_with_weapon {
                Some(l) => {
                    s.append(" (must be < ");
                    push_digits(&mut s, l as u64);
                    s.append(")");
                },
                None => {},
            }
            assert(s@ =~= weapon_text(weapon, last_monster_slain_with_weapon));
        },
    }
    s
}

} // verus!
