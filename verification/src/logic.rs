//! The game itself: a deck, a room of four positions, the player's health and
//! weapon, and the moves that a front end relays.
//!
//! A `Game` is reached only through its constructors and moves, so every game
//! that a caller holds is sound in the sense of [`GameView::wf`].

use crate::card::{check_full_deck, is_full_deck, ordered_cards, Card};
use crate::laws::{
    lemma_advance_wf, lemma_answer_wf, lemma_enter_dungeon_wf, lemma_face_room_wf,
    lemma_fill_room, lemma_initial_wf, lemma_play_card_wf, lemma_remaining, lemma_skip_room_wf,
    lemma_strike_wf, lemma_threat_push, lemma_threat_slot,
};
use crate::messages;
use crate::model::{
    monsters, room_cards, room_prefix, slot_seq, threat, GameView, INTERACTIONS_PER_ROOM,
    ROOM_SIZE, STARTING_HEALTH,
};
use crate::shuffle::shuffle_cards;
use std::collections::VecDeque;
use vstd::prelude::*;
use vstd::string::StringExecFns;

pub use crate::model::{GameState, ResolveOutcome};
pub use crate::render::card_text;

verus! {

/// The core game model.
pub struct Game {
    deck: VecDeque<Card>,
    /// Stable room positions (always 4). `None` marks an empty position.
    room_slots: [Option<Card>; 4],
    health: i32,
    max_health: i32,
    weapon: Option<Card>,
    last_monster_slain_with_weapon: Option<u8>,
    potion_used_this_room: bool,
    can_skip: bool,
    state: GameState,
    survived: bool,
    /// Primary message for the player; the front end chooses where it goes.
    message: String,
    /// Echo of the player's last input.
    last_command_feedback: String,
    current_monster: Option<Card>,
    awaiting_weapon_choice: bool,
    /// After facing a room the player resolves exactly three cards.
    interactions_left_in_room: u8,
    /// The cards that have left the dungeon for good.
    discarded: Ghost<Seq<Card>>,
}

impl View for Game {
    type V = GameView;

    closed spec fn view(&self) -> GameView {
        GameView {
            deck: self.deck@,
            room: self.room_slots@,
            health: self.health as int,
            max_health: self.max_health as int,
            weapon: self.weapon,
            last_monster_slain_with_weapon: self.last_monster_slain_with_weapon,
            potion_used_this_room: self.potion_used_this_room,
            can_skip: self.can_skip,
            state: self.state,
            survived: self.survived,
            message: self.message@,
            last_command_feedback: self.last_command_feedback@,
            current_monster: self.current_monster,
            awaiting_weapon_choice: self.awaiting_weapon_choice,
            interactions_left_in_room: self.interactions_left_in_room as nat,
            discarded: self.discarded@,
        }
    }
}

impl Game {
    /// A game is sound when its view is.
    pub open spec fn wf(&self) -> bool {
        self@.wf()
    }

    /// Builds a freshly shuffled deck: the 44 cards in an order that chance
    /// decides.
    pub fn create_deck() -> (deck: Vec<Card>)
        ensures
            is_full_deck(deck@),
    {
        let mut cards = ordered_cards();
        let mut rng = rand::thread_rng();
        shuffle_cards(&mut cards, &mut rng);
        cards
    }

    /// Lays a full deck face down and sets everything else to its start.
    fn deal(deck: Vec<Card>) -> (game: Game)
        requires
            is_full_deck(deck@),
        ensures
            game.wf(),
            game@ == GameView::initial(deck@),
    {
        let mut pile: VecDeque<Card> = VecDeque::new();
        let mut i: usize = 0;
        while i < deck.len()
            invariant
                i <= deck.len(),
                pile@ == deck@.take(i as int),
            decreases deck.len() - i,
        {
            pile.push_back(deck[i]);
            i = i + 1;
            assert(pile@ =~= deck@.take(i as int));
        }
        assert(pile@ =~= deck@);
        let g = Game {
            deck: pile,
            room_slots: [None, None, None, None],
            health: STARTING_HEALTH,
            max_health: STARTING_HEALTH,
            weapon: None,
            last_monster_slain_with_weapon: None,
            potion_used_this_room: false,
            can_skip: true,
            state: GameState::MainMenu,
            survived: false,
            message: String::new(),
            last_command_feedback: String::new(),
            current_monster: None,
            awaiting_weapon_choice: false,
            interactions_left_in_room: 0,
            discarded: Ghost(Seq::empty()),
        };
        proof {
            assert(g@.room =~= crate::model::empty_room());
            assert(g@ =~= GameView::initial(deck@));
            lemma_initial_wf(deck@);
        }
        g
    }

    /// Starts a game on a given deck, front card first. The deck must be
    /// full: 44 deck cards, none twice. Any other deck is refused.
    pub fn from_deck(deck: Vec<Card>) -> (game: Option<Game>)
        ensures
            game is Some <==> is_full_deck(deck@),
            game matches Some(g) ==> g.wf() && g@ == GameView::initial(deck@),
    {
        if check_full_deck(&deck) {
            Some(Game::deal(deck))
        } else {
            None
        }
    }

    /// Starts a game on a freshly shuffled deck: at the main menu, with an
    /// empty room, full health and no weapon.
    pub fn new() -> (game: Game)
        ensures
            game.wf(),
            is_full_deck(game@.deck),
            game@ == GameView::initial(game@.deck),
    {
        Game::deal(Game::create_deck())
    }
}

impl Game {
    /// True when all four positions of the room are empty.
    pub fn room_is_empty(&self) -> (empty: bool)
        ensures
            empty == self@.room_is_empty(),
    {
        let mut i: usize = 0;
        while i < ROOM_SIZE
            invariant
                i <= ROOM_SIZE,
                forall|k: int| 0 <= k < i ==> (#[trigger] self.room_slots@[k]) is None,
            decreases ROOM_SIZE - i,
        {
            if self.room_slots[i].is_some() {
                return false;
            }
            i = i + 1;
        }
        true
    }

    /// Whether neither room nor deck holds a card.
    fn cleared(&self) -> (done: bool)
        ensures
            done == self@.cleared(),
    {
        self.room_is_empty() && self.deck.len() == 0
    }

    /// Deals into position `i` if it is empty and the deck is not.
    fn fill_slot(&mut self, i: usize)
        requires
            i < ROOM_SIZE,
        ensures
            final(self)@ == old(self)@.fill_slot(i as int),
    {
        if self.room_slots[i].is_none() {
            if let Some(card) = self.deck.pop_front() {
                self.room_slots[i] = Some(card);
                assert(self.deck@ =~= old(self).deck@.drop_first());
            }
        }
        assert(self@ =~= old(self)@.fill_slot(i as int));
    }

    /// Deals into the empty positions, whatever else holds of the game.
    fn deal_room(&mut self)
        ensures
            final(self)@ == old(self)@.fill_room(),
    {
        self.fill_slot(0);
        self.fill_slot(1);
        self.fill_slot(2);
        self.fill_slot(3);
    }

    /// Fills the empty positions of the room from the front of the deck, from
    /// left to right, as far as the deck reaches. Occupied positions stay as
    /// they are.
    pub fn fill_room(&mut self)
        requires
            old(self).wf(),
        ensures
            final(self).wf(),
            final(self)@ == old(self)@.fill_room(),
            forall|i: int|
                0 <= i < ROOM_SIZE && old(self)@.room[i] is Some ==> final(self)@.room[i] == old(self)@.room[i],
            final(self)@.room_count() + final(self)@.deck.len() == old(self)@.room_count() + old(self)@.deck.len(),
    {
        self.deal_room();
        proof {
            lemma_fill_room(old(self)@);
            crate::laws::lemma_fill_room_shape(old(self)@);
        }
    }

    /// Returns the card of position `i`, if any, to the back of the deck.
    fn return_slot(&mut self, i: usize)
        requires
            i < ROOM_SIZE,
        ensures
            final(self)@ == old(self)@.return_slot(i as int),
    {
        if let Some(card) = self.room_slots[i] {
            self.room_slots[i] = None;
            self.deck.push_back(card);
        }
        assert(self@ =~= old(self)@.return_slot(i as int));
    }

    /// The dungeon is survived.
    fn win(&mut self)
        ensures
            final(self)@ == old(self)@.win(),
    {
        self.survived = true;
        self.state = GameState::GameOver;
        self.message = String::from_str(messages::YOU_SURVIVED);
        assert(self@ =~= old(self)@.win());
    }

    /// The step after a resolved card, whatever else holds of the game.
    fn advance(&mut self)
        ensures
            final(self)@ == old(self)@.advance(),
    {
        if self.health <= 0 {
            self.survived = false;
            self.state = GameState::GameOver;
            self.message = String::from_str(messages::YOU_DIED);
            assert(self@ =~= old(self)@.advance());
            return;
        }
        if self.interactions_left_in_room > 0 {
            self.interactions_left_in_room -= 1;
        }
        if self.interactions_left_in_room == 0 {
            self.can_skip = true;
            self.deal_room();
            if self.cleared() {
                self.win();
            } else {
                self.state = GameState::RoomChoice;
                self.message = String::from_str(messages::ROOM_RESOLVED);
            }
            assert(self@ =~= old(self)@.advance());
            return;
        }
        if self.cleared() {
            self.win();
            assert(self@ =~= old(self)@.advance());
            return;
        }
        self.state = GameState::CardSelection;
        assert(self@ =~= old(self)@.advance());
    }

    /// Enters the dungeon from the main menu: the first room is dealt and the
    /// player chooses to face or to skip it.
    pub fn enter_dungeon(&mut self)
        requires
            old(self).wf(),
        ensures
            final(self).wf(),
            final(self)@ == old(self)@.enter_dungeon(),
    {
        self.state = GameState::RoomChoice;
        self.deal_room();
        self.message = String::from_str(messages::ENTERED_DUNGEON);
        proof {
            let moved = GameView { state: GameState::RoomChoice, ..old(self)@ };
            lemma_fill_room(moved);
            lemma_fill_room(old(self)@);
            crate::laws::lemma_fill_room_frame(old(self)@, moved);
            assert(self@ =~= old(self)@.enter_dungeon());
            lemma_enter_dungeon_wf(old(self)@);
        }
    }

    /// Throws the game away and starts a new one in the dungeon, on a freshly
    /// shuffled deck, with the first room dealt.
    pub fn reset_to_playing(&mut self)
        ensures
            final(self).wf(),
            exists|deck: Seq<Card>|
                is_full_deck(deck) && final(self)@ == GameView::initial(deck).enter_dungeon(),
    {
        *self = Game::new();
        let ghost deck = self@.deck;
        self.enter_dungeon();
        assert(is_full_deck(deck) && self@ == GameView::initial(deck).enter_dungeon());
    }

    /// The message that tells the player which move the game waits for.
    pub fn guidance(&self) -> (text: &'static str)
        ensures
            text@ == self@.guidance(),
    {
        match self.state {
            GameState::RoomChoice => messages::NEED_FACE_OR_SKIP,
            GameState::CardInteraction => {
                if self.awaiting_weapon_choice {
                    messages::NEED_Y_OR_N
                } else {
                    messages::HINT_INTERACTION_ACK
                }
            },
            GameState::MainMenu => messages::NEED_START,
            GameState::GameOver => messages::RESTART_HELP,
            GameState::CardSelection => messages::NEED_SELECT_CARD,
        }
    }

    /// Tells the player which move the game waits for, and changes nothing
    /// else.
    pub fn guide(&mut self)
        ensures
            final(self)@ == old(self)@.guided(),
            old(self).wf() ==> final(self).wf(),
    {
        self.message = String::from_str(self.guidance());
        proof {
            assert(self@ =~= old(self)@.guided());
            crate::laws::lemma_guided(old(self)@);
        }
    }

    /// Faces the room: three cards are to be resolved, and a potion may be
    /// drunk again. Where the game does not wait for the choice of the room,
    /// the player is guided and nothing else changes.
    pub fn face_room(&mut self)
        requires
            old(self).wf(),
        ensures
            final(self).wf(),
            final(self)@ == old(self)@.face_room(),
            old(self)@.state != GameState::RoomChoice ==> final(self)@ == (GameView {
                message: old(self)@.guidance(),
                ..old(self)@
            }),
    {
        if self.state != GameState::RoomChoice {
            proof {
                lemma_face_room_wf(old(self)@);
            }
            self.guide();
            return;
        }
        self.potion_used_this_room = false;
        self.interactions_left_in_room = INTERACTIONS_PER_ROOM;
        self.state = GameState::CardSelection;
        self.message = String::from_str(messages::FACE_ROOM);
        proof {
            assert(self@ =~= old(self)@.face_room());
            lemma_face_room_wf(old(self)@);
        }
    }

    /// Skips the room, if a skip is to be had: its cards go to the back of the
    /// deck from left to right, the next room is dealt, and the game is won
    /// if nothing is left. Without a skip to be had, only the message changes.
    pub fn skip_room(&mut self)
        requires
            old(self).wf(),
        ensures
            final(self).wf(),
            final(self)@ == old(self)@.skip_room(),
            !old(self)@.can_skip ==> final(self)@ == (GameView {
                message: messages::NEED_FACE_ONLY@,
                ..old(self)@
            }),
            old(self)@.can_skip && final(self)@.cleared() ==> final(self)@.state
                == GameState::GameOver && final(self)@.survived,
    {
        proof {
            lemma_skip_room_wf(old(self)@);
            crate::laws::lemma_win_on_skip(old(self)@);
        }
        if !self.can_skip {
            self.message = String::from_str(messages::NEED_FACE_ONLY);
            assert(self@ =~= old(self)@.skip_room());
            return;
        }
        self.return_slot(0);
        self.return_slot(1);
        self.return_slot(2);
        self.return_slot(3);
        self.can_skip = false;
        assert(self@ =~= (GameView { can_skip: false, ..old(self)@.return_room() }));
        self.deal_room();
        if self.cleared() {
            self.win();
        } else {
            self.message = String::from_str(messages::SKIPPED_ROOM);
        }
        assert(self@ =~= old(self)@.skip_room());
    }

    /// Ends the game as lost if the player is without health and the game is
    /// not over yet. A front end calls this after each command, since damage
    /// is taken before the step that looks for death.
    pub fn check_death(&mut self)
        requires
            old(self).wf(),
        ensures
            final(self).wf(),
            final(self)@ == old(self)@.guard_death(),
    {
        if self.health <= 0 && self.state != GameState::GameOver {
            self.survived = false;
            self.state = GameState::GameOver;
            self.message = String::from_str(messages::YOU_DIED);
        }
        assert(self@ =~= old(self)@.guard_death());
        assert(self@.all_cards() =~= old(self)@.all_cards());
    }

    /// Goes on after a resolved card. A player without health is dead, and
    /// nothing else is looked at. Otherwise one interaction is used up; when
    /// none is left the next room is dealt and a skip is to be had again; and
    /// when neither room nor deck holds a card the dungeon is survived.
    pub fn continue_after_interaction(&mut self)
        requires
            old(self).wf(),
        ensures
            final(self).wf(),
            final(self)@ == old(self)@.advance(),
            old(self)@.health <= 0 ==> final(self)@.state == GameState::GameOver && !final(self)@.survived,
            old(self)@.health > 0 && final(self)@.cleared() ==> final(self)@.state
                == GameState::GameOver && final(self)@.survived,
            final(self)@.state == GameState::GameOver && final(self)@.survived ==> final(self)@.health >= 1,
    {
        self.advance();
        proof {
            lemma_advance_wf(old(self)@);
            crate::laws::lemma_death_on_advance(old(self)@);
            crate::laws::lemma_win_on_advance(old(self)@);
        }
    }
}

impl Game {
    /// Whether the weapon can be used on a monster: there must be a weapon,
    /// and once it has slain a monster it serves only against weaker ones.
    pub fn can_use_weapon_on(&self, monster: Card) -> (usable: bool)
        ensures
            usable == self@.can_use_weapon_on(monster),
    {
        if self.weapon.is_none() {
            return false;
        }
        match self.last_monster_slain_with_weapon {
            None => true,
            Some(last) => monster.value < last,
        }
    }

    /// Fights a monster with the weapon and returns the damage: the monster's
    /// rank less the weapon's, never below zero. The weapon remembers the
    /// monster. Without a weapon the damage is the full rank and nothing is
    /// remembered.
    pub fn handle_monster_with_weapon(&mut self, monster: Card) -> (damage: i32)
        requires
            old(self).wf(),
        ensures
            final(self).wf(),
            damage == old(self)@.armed_damage(monster),
            final(self)@ == old(self)@.strike(monster),
    {
        proof {
            lemma_strike_wf(old(self)@, monster);
        }
        self.strike(monster)
    }

    /// The fight with the weapon, whatever else holds of the game.
    fn strike(&mut self, monster: Card) -> (damage: i32)
        ensures
            damage == old(self)@.armed_damage(monster),
            final(self)@ == old(self)@.strike(monster),
    {
        if let Some(w) = self.weapon {
            let damage: i32 = if monster.value > w.value {
                (monster.value - w.value) as i32
            } else {
                0
            };
            self.last_monster_slain_with_weapon = Some(monster.value);
            assert(self@ =~= old(self)@.strike(monster));
            damage
        } else {
            monster.value as i32
        }
    }

    /// Damage of a fight with bare hands: the monster's full rank.
    pub fn handle_monster_without_weapon(&self, monster: Card) -> (damage: i32)
        ensures
            damage == monster.value,
    {
        monster.value as i32
    }

    /// Meets the monster taken from the room.
    fn meet_monster(&mut self, card: Card)
        requires
            -100000 <= old(self).health <= 100000,
        ensures
            final(self)@ == old(self)@.meet_monster(card),
    {
        self.current_monster = Some(card);
        self.discarded = Ghost(self.discarded@.push(card));
        if self.can_use_weapon_on(card) {
            self.awaiting_weapon_choice = true;
            self.state = GameState::CardInteraction;
            self.message = messages::weapon_prompt(card, self.weapon);
            assert(self@ =~= old(self)@.meet_monster(card));
        } else {
            let damage = self.handle_monster_without_weapon(card);
            self.health -= damage;
            self.state = GameState::CardInteraction;
            self.message = messages::fought_bare(damage);
            self.advance();
        }
    }

    /// Takes up the weapon taken from the room.
    fn equip(&mut self, card: Card)
        ensures
            final(self)@ == old(self)@.equip(card),
    {
        self.discarded = Ghost(self.discarded@ + crate::model::slot_seq(self.weapon));
        self.weapon = Some(card);
        self.last_monster_slain_with_weapon = None;
        self.state = GameState::CardInteraction;
        self.message = messages::equipped(card);
        self.advance();
    }

    /// Drinks the potion taken from the room.
    fn drink(&mut self, card: Card)
        requires
            -100000 <= old(self).health <= 100000,
        ensures
            final(self)@ == old(self)@.drink(card),
    {
        self.discarded = Ghost(self.discarded@.push(card));
        self.state = GameState::CardInteraction;
        if !self.potion_used_this_room {
            let heal: i32 = card.value as i32;
            self.health = if self.health + heal < self.max_health {
                self.health + heal
            } else {
                self.max_health
            };
            self.potion_used_this_room = true;
            self.message = messages::healed(heal);
        } else {
            self.message = String::from_str(messages::POTION_WASTED);
        }
        self.advance();
    }

    /// Plays the card of a position of the room. Outside card selection, for
    /// a position that is none of the four, or for an empty one, nothing
    /// changes but the message. Otherwise the card leaves the room: a monster
    /// is met, a weapon is taken up, a potion is drunk, and but for the
    /// weapon question the game goes on at once.
    pub fn play_card_from_slot(&mut self, idx: usize) -> (outcome: ResolveOutcome)
        requires
            old(self).wf(),
        ensures
            final(self).wf(),
            outcome == ResolveOutcome::Nothing,
            final(self)@ == old(self)@.play_card_from_slot(idx as int),
    {
        proof {
            lemma_play_card_wf(old(self)@, idx as int);
            crate::laws::lemma_health_range(old(self)@);
        }
        if self.state != GameState::CardSelection {
            self.message = String::from_str(messages::MUST_FACE_FIRST);
            assert(self@ =~= old(self)@.play_card_from_slot(idx as int));
            return ResolveOutcome::Nothing;
        }
        if idx >= ROOM_SIZE {
            self.message = String::from_str(messages::INVALID_CARD_SELECTION);
            assert(self@ =~= old(self)@.play_card_from_slot(idx as int));
            return ResolveOutcome::Nothing;
        }
        let card = match self.room_slots[idx] {
            Some(c) => c,
            None => {
                self.message = String::from_str(messages::INVALID_CARD_SELECTION);
                assert(self@ =~= old(self)@.play_card_from_slot(idx as int));
                return ResolveOutcome::Nothing;
            },
        };
        self.room_slots[idx] = None;
        assert(self@ =~= old(self)@.take_slot(idx as int));
        if card.suit == 'S' || card.suit == 'C' {
            self.meet_monster(card);
        } else if card.suit == 'D' {
            self.equip(card);
        } else if card.suit == 'H' {
            self.drink(card);
        } else {
            self.discarded = Ghost(self.discarded@.push(card));
            self.state = GameState::CardInteraction;
            self.message = String::from_str(messages::UNKNOWN_CARD);
            assert(self@ =~= old(self)@.play_card_from_slot(idx as int));
        }
        ResolveOutcome::Nothing
    }

    /// Answers the weapon question. With no question open the player is
    /// guided and nothing else changes. Otherwise the waiting monster is
    /// fought, with the weapon or without, the damage is taken, and the front
    /// end is told to wait for the player before the game goes on.
    pub fn answer_weapon_prompt(&mut self, use_weapon: bool) -> (outcome: ResolveOutcome)
        requires
            old(self).wf(),
        ensures
            final(self).wf(),
            final(self)@ == old(self)@.answer_weapon_prompt(use_weapon),
            outcome == if old(self)@.prompt_open() {
                ResolveOutcome::AwaitContinue
            } else {
                ResolveOutcome::Nothing
            },
            !old(self)@.awaiting_weapon_choice ==> final(self)@ == (GameView {
                message: old(self)@.guidance(),
                ..old(self)@
            }),
    {
        proof {
            lemma_answer_wf(old(self)@, use_weapon);
            crate::laws::lemma_health_range(old(self)@);
        }
        if !self.awaiting_weapon_choice {
            self.guide();
            return ResolveOutcome::Nothing;
        }
        let monster = match self.current_monster {
            Some(m) => m,
            None => {
                self.awaiting_weapon_choice = false;
                assert(self@ =~= old(self)@.answer_weapon_prompt(use_weapon));
                return ResolveOutcome::Nothing;
            },
        };
        self.current_monster = None;
        let damage = if use_weapon {
            self.strike(monster)
        } else {
            self.handle_monster_without_weapon(monster)
        };
        self.health -= damage;
        self.awaiting_weapon_choice = false;
        self.message = if use_weapon {
            messages::fought_armed(damage)
        } else {
            messages::fought_bare(damage)
        };
        assert(self@ =~= old(self)@.answer_weapon_prompt(use_weapon));
        ResolveOutcome::AwaitContinue
    }
}

impl Game {
    /// Adds up what is left in the dungeon: the threat of its monsters, and
    /// whether there is any monster at all.
    fn tally(&self) -> (sum: (i32, bool))
        requires
            self.wf(),
        ensures
            sum.0 == threat(self@.remaining()),
            sum.1 == (monsters(self@.remaining()) > 0),
    {
        proof {
            lemma_remaining(self@);
        }
        let mut total: i32 = 0;
        let mut any: bool = false;
        let ghost mut seen: Seq<Card> = Seq::empty();
        let mut i: usize = 0;
        while i < ROOM_SIZE
            invariant
                i <= ROOM_SIZE,
                self.wf(),
                total == threat(seen),
                any == (monsters(seen) > 0),
                0 <= total <= 14 * i,
                seen == room_prefix(self@.room, i as int),
            decreases ROOM_SIZE - i,
        {
            proof {
                lemma_threat_slot(seen, self@.room[i as int]);
                crate::laws::lemma_cards_in_deck(self@);
                assert(self@.room[i as int] matches Some(c) ==> c.in_deck());
            }
            if let Some(card) = self.room_slots[i] {
                if card.suit == 'S' || card.suit == 'C' {
                    total = total + card.value as i32;
                    any = true;
                }
            }
            proof {
                seen = seen + slot_seq(self@.room[i as int]);
            }
            i = i + 1;
        }
        proof {
            reveal_with_fuel(room_prefix, 5);
            assert(seen =~= room_cards(self@.room));
            assert(self@.deck.take(0) =~= Seq::<Card>::empty());
            assert(seen =~= room_cards(self@.room) + self@.deck.take(0));
        }
        let mut k: usize = 0;
        while k < self.deck.len()
            invariant
                k <= self.deck.len(),
                self.wf(),
                total == threat(seen),
                any == (monsters(seen) > 0),
                seen == room_cards(self@.room) + self@.deck.take(k as int),
                0 <= threat(self@.remaining()) <= 14 * 44,
            decreases self.deck.len() - k,
        {
            let card = self.deck[k];
            proof {
                lemma_threat_push(seen, card);
                assert(seen.push(card) =~= room_cards(self@.room) + self@.deck.take(k + 1));
                let rest = self@.deck.skip(k + 1);
                assert(self@.remaining() =~= seen.push(card) + rest);
                crate::laws::lemma_threat_prefix(seen.push(card), rest);
            }
            if card.suit == 'S' || card.suit == 'C' {
                total = total + card.value as i32;
                any = true;
            }
            proof {
                seen = seen.push(card);
            }
            k = k + 1;
        }
        assert(seen =~= self@.remaining());
        (total, any)
    }

    /// One line on what is left in the dungeon: that no monsters remain, or
    /// their total threat as a penalty.
    pub fn remaining_summary_line(&self) -> (line: String)
        requires
            self.wf(),
        ensures
            line@ == if monsters(self@.remaining()) == 0 {
                messages::NO_MONSTERS_REMAIN@
            } else {
                messages::threat_text(threat(self@.remaining()))
            },
    {
        let (total, any) = self.tally();
        if !any {
            String::from_str(messages::NO_MONSTERS_REMAIN)
        } else {
            messages::threat_line(total)
        }
    }

    /// The score: the health of a survivor; otherwise the ranks of the
    /// monsters left in room and deck, added up and taken as a penalty.
    pub fn final_score(&self) -> (score: i32)
        requires
            self.wf(),
        ensures
            score == self@.final_score(),
            self@.survived ==> score == self@.health,
            !self@.survived ==> score == -threat(self@.remaining()) && score <= 0,
    {
        proof {
            crate::laws::lemma_score(self@);
        }
        if self.survived {
            self.health
        } else {
            let (total, _any) = self.tally();
            -total
        }
    }
}

impl Game {
    /// The room: four positions, each with a card or empty.
    pub fn room_slots(&self) -> (room: [Option<Card>; 4])
        ensures
            room@ == self@.room,
    {
        self.room_slots
    }

    /// The card of one position of the room; nothing for an empty position
    /// and for a position that is none of the four.
    pub fn room_slot(&self, idx: usize) -> (slot: Option<Card>)
        ensures
            slot == if idx < ROOM_SIZE {
                self@.room[idx as int]
            } else {
                None
            },
    {
        if idx < ROOM_SIZE {
            self.room_slots[idx]
        } else {
            None
        }
    }

    /// The deck, front card first.
    pub fn deck(&self) -> (deck: &VecDeque<Card>)
        ensures
            deck@ == self@.deck,
    {
        &self.deck
    }

    /// Number of cards in the deck.
    pub fn deck_len(&self) -> (len: usize)
        ensures
            len == self@.deck.len(),
    {
        self.deck.len()
    }

    pub fn health(&self) -> (health: i32)
        ensures
            health == self@.health,
    {
        self.health
    }

    pub fn max_health(&self) -> (max_health: i32)
        ensures
            max_health == self@.max_health,
    {
        self.max_health
    }

    /// The weapon in hand.
    pub fn weapon(&self) -> (weapon: Option<Card>)
        ensures
            weapon == self@.weapon,
    {
        self.weapon
    }

    /// Rank of the last monster that the weapon in hand has slain.
    pub fn last_monster_slain_with_weapon(&self) -> (last: Option<u8>)
        ensures
            last == self@.last_monster_slain_with_weapon,
    {
        self.last_monster_slain_with_weapon
    }

    pub fn potion_used_this_room(&self) -> (used: bool)
        ensures
            used == self@.potion_used_this_room,
    {
        self.potion_used_this_room
    }

    pub fn can_skip(&self) -> (can_skip: bool)
        ensures
            can_skip == self@.can_skip,
    {
        self.can_skip
    }

    pub fn state(&self) -> (state: GameState)
        ensures
            state == self@.state,
    {
        self.state
    }

    /// Whether the dungeon was survived; it means something once the game is
    /// over.
    pub fn survived(&self) -> (survived: bool)
        ensures
            survived == self@.survived,
    {
        self.survived
    }

    pub fn message(&self) -> (message: &str)
        ensures
            message@ == self@.message,
    {
        self.message.as_str()
    }

    pub fn last_command_feedback(&self) -> (feedback: &str)
        ensures
            feedback@ == self@.last_command_feedback,
    {
        self.last_command_feedback.as_str()
    }

    /// The monster met last.
    pub fn current_monster(&self) -> (monster: Option<Card>)
        ensures
            monster == self@.current_monster,
    {
        self.current_monster
    }

    pub fn awaiting_weapon_choice(&self) -> (awaiting: bool)
        ensures
            awaiting == self@.awaiting_weapon_choice,
    {
        self.awaiting_weapon_choice
    }

    pub fn interactions_left_in_room(&self) -> (left: u8)
        ensures
            left == self@.interactions_left_in_room,
    {
        self.interactions_left_in_room
    }

    /// Puts a message of the front end in place of the game's.
    pub fn set_message(&mut self, message: String)
        ensures
            final(self)@ == (GameView { message: message@, ..old(self)@ }),
            old(self).wf() ==> final(self).wf(),
    {
        self.message = message;
        assert(self@ =~= (GameView { message: message@, ..old(self)@ }));
        assert(self@.all_cards() =~= old(self)@.all_cards());
    }

    /// Keeps the echo of the player's last input.
    pub fn set_last_command_feedback(&mut self, feedback: String)
        ensures
            final(self)@ == (GameView { last_command_feedback: feedback@, ..old(self)@ }),
            old(self).wf() ==> final(self).wf(),
    {
        self.last_command_feedback = feedback;
        assert(self@ =~= (GameView { last_command_feedback: feedback@, ..old(self)@ }));
        assert(self@.all_cards() =~= old(self)@.all_cards());
    }
}

} // verus!
