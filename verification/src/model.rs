//! The game as mathematics: what a game holds, which states are sound, and
//! what each move makes of a state. The executable game in `logic` is held to
//! these definitions.

use crate::card::{full_deck, Card, DECK_SIZE, MAX_MONSTER_RANK};
use crate::messages::{
    equipped_text, fought_armed_text, fought_bare_text, healed_text, weapon_prompt_text,
    ENTERED_DUNGEON, FACE_ROOM, HINT_INTERACTION_ACK, INVALID_CARD_SELECTION, MUST_FACE_FIRST,
    NEED_FACE_ONLY, NEED_FACE_OR_SKIP, NEED_SELECT_CARD, NEED_START, NEED_Y_OR_N, POTION_WASTED,
    RESTART_HELP, ROOM_RESOLVED, SKIPPED_ROOM, UNKNOWN_CARD, YOU_DIED, YOU_SURVIVED,
};
use vstd::multiset::Multiset;
use vstd::prelude::*;

verus! {

/// Number of positions of a room.
pub const ROOM_SIZE: usize = 4;

/// Health at the start of a game, and the most that potions restore.
pub const STARTING_HEALTH: i32 = 20;

/// Number of cards that the player resolves in a room that was faced.
pub const INTERACTIONS_PER_ROOM: u8 = 3;

/// Where the game stands.
#[derive(Clone, Copy, Debug, PartialEq, Eq, Structural)]
pub enum GameState {
    MainMenu,
    RoomChoice,
    CardSelection,
    /// Both the weapon question and the acknowledgement of a resolved card.
    CardInteraction,
    GameOver,
}

/// What the front end must do after a move.
#[derive(Clone, Copy, Debug, PartialEq, Eq, Structural)]
pub enum ResolveOutcome {
    /// Nothing to acknowledge.
    Nothing,
    /// The move is resolved; the game goes on once the player has
    /// acknowledged it.
    AwaitContinue,
}

/// The cards of one position, as a multiset of none or one.
pub open spec fn slot_cards(slot: Option<Card>) -> Multiset<Card> {
    match slot {
        Some(c) => Multiset::singleton(c),
        None => Multiset::empty(),
    }
}

/// Number of cards in one position.
pub open spec fn slot_count(slot: Option<Card>) -> nat {
    if slot is Some {
        1
    } else {
        0
    }
}

/// The cards of a position as a sequence of none or one.
pub open spec fn slot_seq(slot: Option<Card>) -> Seq<Card> {
    match slot {
        Some(c) => seq![c],
        None => Seq::empty(),
    }
}

/// The cards of a room from left to right, empty positions left out.
pub open spec fn room_cards(room: Seq<Option<Card>>) -> Seq<Card> {
    slot_seq(room[0]) + slot_seq(room[1]) + slot_seq(room[2]) + slot_seq(room[3])
}

/// The cards of the first `k` positions of a room, from left to right.
pub open spec fn room_prefix(room: Seq<Option<Card>>, k: int) -> Seq<Card>
    decreases k,
{
    if k <= 0 {
        Seq::empty()
    } else {
        room_prefix(room, k - 1) + slot_seq(room[k - 1])
    }
}

/// A room with no card in it.
pub open spec fn empty_room() -> Seq<Option<Card>> {
    Seq::new(ROOM_SIZE as nat, |i: int| None::<Card>)
}

/// The sum of the ranks of the monsters among `cards`.
pub open spec fn threat(cards: Seq<Card>) -> int
    decreases cards.len(),
{
    if cards.len() == 0 {
        0
    } else {
        threat(cards.drop_last()) + if cards.last().is_monster() {
            cards.last().value as int
        } else {
            0
        }
    }
}

/// The number of monsters among `cards`.
pub open spec fn monsters(cards: Seq<Card>) -> nat
    decreases cards.len(),
{
    if cards.len() == 0 {
        0
    } else {
        monsters(cards.drop_last()) + if cards.last().is_monster() {
            1nat
        } else {
            0nat
        }
    }
}

/// Everything a game holds. `discarded` is the ledger of the cards that have
/// left the dungeon for good: monsters met, potions taken and weapons laid
/// down. It exists in proofs only.
#[verifier::ext_equal]
pub struct GameView {
    pub deck: Seq<Card>,
    pub room: Seq<Option<Card>>,
    pub health: int,
    pub max_health: int,
    pub weapon: Option<Card>,
    pub last_monster_slain_with_weapon: Option<u8>,
    pub potion_used_this_room: bool,
    pub can_skip: bool,
    pub state: GameState,
    pub survived: bool,
    pub message: Seq<char>,
    pub last_command_feedback: Seq<char>,
    pub current_monster: Option<Card>,
    pub awaiting_weapon_choice: bool,
    pub interactions_left_in_room: nat,
    pub discarded: Seq<Card>,
}

impl GameView {
    /// A game before its first move: the whole deck face down, an empty room,
    /// full health and no weapon.
    pub open spec fn initial(deck: Seq<Card>) -> GameView {
        GameView {
            deck,
            room: empty_room(),
            health: STARTING_HEALTH as int,
            max_health: STARTING_HEALTH as int,
            weapon: None,
            last_monster_slain_with_weapon: None,
            potion_used_this_room: false,
            can_skip: true,
            state: GameState::MainMenu,
            survived: false,
            message: Seq::empty(),
            last_command_feedback: Seq::empty(),
            current_monster: None,
            awaiting_weapon_choice: false,
            interactions_left_in_room: 0,
            discarded: Seq::empty(),
        }
    }

    /// Every card of the game, wherever it lies.
    pub open spec fn all_cards(self) -> Multiset<Card> {
        slot_cards(self.room[0]).add(slot_cards(self.room[1])).add(slot_cards(self.room[2])).add(
            slot_cards(self.room[3]),
        ).add(self.deck.to_multiset()).add(self.discarded.to_multiset()).add(
            slot_cards(self.weapon),
        )
    }

    /// Number of occupied positions of the room.
    pub open spec fn room_count(self) -> nat {
        slot_count(self.room[0]) + slot_count(self.room[1]) + slot_count(self.room[2])
            + slot_count(self.room[3])
    }

    /// Number of fights whose damage has been taken: the cards that left the
    /// dungeon, less the monster that still waits for the weapon question.
    pub open spec fn settled(self) -> int {
        self.discarded.len() - if self.awaiting_weapon_choice {
            1int
        } else {
            0int
        }
    }

    /// The states that a game can be in: the 44 cards are all there, each
    /// once, spread over room, deck, ledger and hand; the weapon is a diamond;
    /// health is within what the cards met so far can have done.
    pub open spec fn wf(self) -> bool {
        &&& self.room.len() == ROOM_SIZE
        &&& self.all_cards() =~= full_deck()
        &&& (self.weapon matches Some(w) ==> w.is_weapon())
        &&& self.interactions_left_in_room <= INTERACTIONS_PER_ROOM
        &&& self.max_health == STARTING_HEALTH
        &&& self.health <= self.max_health
        &&& self.health >= self.max_health - MAX_MONSTER_RANK * self.settled()
        &&& (self.awaiting_weapon_choice ==> self.current_monster is Some && self.discarded.len()
            >= 1)
        &&& (self.current_monster matches Some(m) ==> m.in_deck())
    }

    pub open spec fn room_is_empty(self) -> bool {
        forall|i: int| 0 <= i < ROOM_SIZE ==> (#[trigger] self.room[i]) is None
    }

    /// What is left of the dungeon: the room from left to right, then the deck.
    pub open spec fn remaining(self) -> Seq<Card> {
        room_cards(self.room) + self.deck
    }

    /// The dungeon is cleared when neither room nor deck holds a card.
    pub open spec fn cleared(self) -> bool {
        self.room_is_empty() && self.deck.len() == 0
    }

    /// Position `i` takes the front card of the deck if it is empty and the
    /// deck is not.
    pub open spec fn fill_slot(self, i: int) -> GameView {
        if self.room[i] is None && self.deck.len() > 0 {
            GameView { room: self.room.update(i, Some(self.deck[0])), deck: self.deck.drop_first(), ..self }
        } else {
            self
        }
    }

    /// Each empty position, from left to right, takes the front card of the
    /// deck, as long as the deck has one.
    pub open spec fn fill_room(self) -> GameView {
        self.fill_slot(0).fill_slot(1).fill_slot(2).fill_slot(3)
    }

    /// The card of position `i`, if any, goes to the back of the deck.
    pub open spec fn return_slot(self, i: int) -> GameView {
        match self.room[i] {
            Some(c) => GameView { room: self.room.update(i, None), deck: self.deck.push(c), ..self },
            None => self,
        }
    }

    /// The cards of the room go to the back of the deck, from left to right.
    pub open spec fn return_room(self) -> GameView {
        self.return_slot(0).return_slot(1).return_slot(2).return_slot(3)
    }

    /// The game turns to game over, the dungeon survived.
    pub open spec fn win(self) -> GameView {
        GameView { survived: true, state: GameState::GameOver, message: YOU_SURVIVED@, ..self }
    }

    /// Entering the dungeon from the main menu: the first room is dealt.
    pub open spec fn enter_dungeon(self) -> GameView {
        GameView { state: GameState::RoomChoice, message: ENTERED_DUNGEON@, ..self.fill_room() }
    }

    /// What to tell a player who asks for a move that the game does not
    /// wait for: the move that it does wait for.
    pub open spec fn guidance(self) -> Seq<char> {
        match self.state {
            GameState::RoomChoice => NEED_FACE_OR_SKIP@,
            GameState::CardInteraction => if self.awaiting_weapon_choice {
                NEED_Y_OR_N@
            } else {
                HINT_INTERACTION_ACK@
            },
            GameState::MainMenu => NEED_START@,
            GameState::GameOver => RESTART_HELP@,
            GameState::CardSelection => NEED_SELECT_CARD@,
        }
    }

    /// The game with guidance in place of its message, and nothing else
    /// changed.
    pub open spec fn guided(self) -> GameView {
        GameView { message: self.guidance(), ..self }
    }

    /// A room is faced where the game waits for the choice of the room;
    /// elsewhere the player is guided and nothing else changes.
    pub open spec fn face_room(self) -> GameView {
        if self.state != GameState::RoomChoice {
            self.guided()
        } else {
            GameView {
                potion_used_this_room: false,
                interactions_left_in_room: INTERACTIONS_PER_ROOM as nat,
                state: GameState::CardSelection,
                message: FACE_ROOM@,
                ..self
            }
        }
    }

    pub open spec fn skip_room(self) -> GameView {
        if !self.can_skip {
            GameView { message: NEED_FACE_ONLY@, ..self }
        } else {
            let dealt = GameView { can_skip: false, ..self.return_room() }.fill_room();
            if dealt.cleared() {
                dealt.win()
            } else {
                GameView { message: SKIPPED_ROOM@, ..dealt }
            }
        }
    }

    /// A weapon can be used if there is one, and if the monster is weaker
    /// than the last one that the weapon has slain.
    pub open spec fn can_use_weapon_on(self, monster: Card) -> bool {
        self.weapon is Some && match self.last_monster_slain_with_weapon {
            None => true,
            Some(last) => monster.value < last,
        }
    }

    /// Damage of a fight with the weapon: the monster's rank less the
    /// weapon's, never below zero; the full rank with bare hands.
    pub open spec fn armed_damage(self, monster: Card) -> int {
        match self.weapon {
            Some(w) => if monster.value > w.value {
                monster.value - w.value
            } else {
                0
            },
            None => monster.value as int,
        }
    }

    /// The weapon remembers the monster it has slain.
    pub open spec fn strike(self, monster: Card) -> GameView {
        if self.weapon is Some {
            GameView { last_monster_slain_with_weapon: Some(monster.value), ..self }
        } else {
            self
        }
    }

    /// The game after the weapon has slain the given monsters, one after the
    /// other.
    pub open spec fn after_kills(self, slain: Seq<Card>) -> GameView
        decreases slain.len(),
    {
        if slain.len() == 0 {
            self
        } else {
            self.after_kills(slain.drop_last()).strike(slain.last())
        }
    }

    /// Whether the weapon could be used on each of the monsters in turn.
    pub open spec fn kills_allowed(self, slain: Seq<Card>) -> bool
        decreases slain.len(),
    {
        slain.len() == 0 || (self.kills_allowed(slain.drop_last()) && self.after_kills(
            slain.drop_last(),
        ).can_use_weapon_on(slain.last()))
    }

    /// The step that follows every resolved card: death first, then the count
    /// of interactions, the next room when the count is used up, and victory
    /// when nothing is left.
    pub open spec fn advance(self) -> GameView {
        if self.health <= 0 {
            GameView { survived: false, state: GameState::GameOver, message: YOU_DIED@, ..self }
        } else {
            let left: nat = if self.interactions_left_in_room > 0 {
                (self.interactions_left_in_room - 1) as nat
            } else {
                0
            };
            let counted = GameView { interactions_left_in_room: left, ..self };
            if left == 0 {
                let dealt = GameView { can_skip: true, ..counted }.fill_room();
                if dealt.cleared() {
                    dealt.win()
                } else {
                    GameView { state: GameState::RoomChoice, message: ROOM_RESOLVED@, ..dealt }
                }
            } else if counted.cleared() {
                counted.win()
            } else {
                GameView { state: GameState::CardSelection, ..counted }
            }
        }
    }

    /// A player without health is dead, wherever the game stands.
    pub open spec fn guard_death(self) -> GameView {
        if self.health <= 0 && self.state != GameState::GameOver {
            GameView { survived: false, state: GameState::GameOver, message: YOU_DIED@, ..self }
        } else {
            self
        }
    }

    /// The card of position `idx` leaves the room.
    pub open spec fn take_slot(self, idx: int) -> GameView {
        GameView { room: self.room.update(idx, None), ..self }
    }

    /// Meeting a monster: the weapon question if the weapon can be used, the
    /// fight with bare hands otherwise.
    pub open spec fn meet_monster(self, card: Card) -> GameView {
        let met = GameView {
            current_monster: Some(card),
            discarded: self.discarded.push(card),
            state: GameState::CardInteraction,
            ..self
        };
        if self.can_use_weapon_on(card) {
            GameView {
                awaiting_weapon_choice: true,
                message: weapon_prompt_text(card, self.weapon),
                ..met
            }
        } else {
            GameView {
                health: self.health - card.value,
                message: fought_bare_text(card.value as int),
                ..met
            }.advance()
        }
    }

    /// Taking up a weapon: the one in hand, if any, is laid down for good.
    pub open spec fn equip(self, card: Card) -> GameView {
        GameView {
            weapon: Some(card),
            last_monster_slain_with_weapon: None,
            discarded: self.discarded + slot_seq(self.weapon),
            state: GameState::CardInteraction,
            message: equipped_text(card),
            ..self
        }.advance()
    }

    /// Drinking a potion: the first of a room heals by its rank, up to the
    /// maximum; any further one is wasted.
    pub open spec fn drink(self, card: Card) -> GameView {
        let drunk = GameView {
            discarded: self.discarded.push(card),
            state: GameState::CardInteraction,
            ..self
        };
        if !self.potion_used_this_room {
            GameView {
                health: if self.health + card.value < self.max_health {
                    self.health + card.value
                } else {
                    self.max_health
                },
                potion_used_this_room: true,
                message: healed_text(card.value as int),
                ..drunk
            }.advance()
        } else {
            GameView { message: POTION_WASTED@, ..drunk }.advance()
        }
    }

    pub open spec fn play_card_from_slot(self, idx: int) -> GameView {
        if self.state != GameState::CardSelection {
            GameView { message: MUST_FACE_FIRST@, ..self }
        } else if !(0 <= idx < ROOM_SIZE) || self.room[idx] is None {
            GameView { message: INVALID_CARD_SELECTION@, ..self }
        } else {
            let card = self.room[idx]->0;
            let taken = self.take_slot(idx);
            if card.is_monster() {
                taken.meet_monster(card)
            } else if card.is_weapon() {
                taken.equip(card)
            } else if card.is_potion() {
                taken.drink(card)
            } else {
                GameView {
                    discarded: taken.discarded.push(card),
                    state: GameState::CardInteraction,
                    message: UNKNOWN_CARD@,
                    ..taken
                }
            }
        }
    }

    /// Whether an answer to the weapon question has a fight to settle.
    pub open spec fn prompt_open(self) -> bool {
        self.awaiting_weapon_choice && self.current_monster is Some
    }

    /// The answer to the weapon question settles the fight that waits.
    /// With no question open the player is guided and nothing else changes.
    pub open spec fn answer_weapon_prompt(self, use_weapon: bool) -> GameView {
        if !self.awaiting_weapon_choice {
            self.guided()
        } else {
            match self.current_monster {
                None => GameView { awaiting_weapon_choice: false, ..self },
                Some(m) => {
                    let cleared = GameView {
                        current_monster: None,
                        awaiting_weapon_choice: false,
                        ..self
                    };
                    if use_weapon {
                        GameView {
                            health: self.health - self.armed_damage(m),
                            message: fought_armed_text(self.armed_damage(m)),
                            ..cleared.strike(m)
                        }
                    } else {
                        GameView {
                            health: self.health - m.value,
                            message: fought_bare_text(m.value as int),
                            ..cleared
                        }
                    }
                },
            }
        }
    }

    /// What holds of a game in which every move was made where the game
    /// waited for it. A survivor is alive and has cleared the dungeon, and
    /// survival is found only at the end. While the player chooses a room or
    /// a card there is health left and no weapon question is open. A question
    /// is open only while a card is resolved, and then there is health left.
    pub open spec fn in_turn(self) -> bool {
        &&& self.survived ==> self.state == GameState::GameOver && self.health >= 1
            && self.cleared()
        &&& self.awaiting_weapon_choice ==> self.state == GameState::CardInteraction
            && self.health >= 1
        &&& self.state == GameState::MainMenu || self.state == GameState::RoomChoice || self.state
            == GameState::CardSelection ==> self.health >= 1
    }

    /// The score of a game: the health of a survivor, the threat left in the
    /// dungeon as a penalty otherwise.
    pub open spec fn final_score(self) -> int {
        if self.survived {
            self.health
        } else {
            -threat(self.remaining())
        }
    }
}

} // verus!
