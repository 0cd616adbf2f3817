use scoundrel::card::{ordered_cards, Card};
use scoundrel::logic::{Game, GameState, ResolveOutcome};
use scoundrel::messages;

fn card(suit: char, value: u8) -> Card {
    Card { suit, value }
}

/// A full deck that starts with the given cards; the rest follows in boxed
/// order.
fn deck_starting_with(front: &[Card]) -> Vec<Card> {
    let mut deck: Vec<Card> = front.to_vec();
    for c in ordered_cards() {
        if !front.contains(&c) {
            deck.push(c);
        }
    }
    deck
}

/// A game in the dungeon whose first room holds the given four cards.
fn game_with_room(front: &[Card]) -> Game {
    let mut game = Game::from_deck(deck_starting_with(front)).expect("a full deck");
    game.enter_dungeon();
    game
}

fn in_dungeon(game: &Game) -> usize {
    game.room_slots().iter().filter(|s| s.is_some()).count() + game.deck_len()
}

/// A deck on which careful play survives, and the play that does.
fn winnable_deck() -> Vec<Card> {
    let mut monsters: Vec<Card> = Vec::new();
    for value in (2..=14u8).rev() {
        monsters.push(card('S', value));
        monsters.push(card('C', value));
    }
    let mut deck = Vec::new();
    let mut next = 0;
    for value in (2..=10u8).rev() {
        deck.push(card('D', value));
        for _ in 0..3 {
            if next < monsters.len() {
                deck.push(monsters[next]);
                next += 1;
            }
        }
        deck.push(card('H', value));
    }
    deck.extend_from_slice(&monsters[next..]);
    deck
}

const WINNING_PLAY: &str = "f01yc2f02yc1f23yc0ycf01yc2ycf0yc12f3yc0yc1ycf012ycf0yc1yc2f01yc2ycf120ycf0yc12ycf013ycf32yc0ycf01yc2ycf03";

fn apply(game: &mut Game, step: char) {
    match step {
        'f' => game.face_room(),
        's' => game.skip_room(),
        'c' => game.continue_after_interaction(),
        'y' => {
            game.answer_weapon_prompt(true);
        }
        'n' => {
            game.answer_weapon_prompt(false);
        }
        d => {
            game.play_card_from_slot(d.to_digit(10).expect("a digit") as usize);
        }
    }
}

#[test]
fn new_game_waits_at_the_main_menu() {
    let game = Game::new();
    assert_eq!(game.state(), GameState::MainMenu);
    assert_eq!(game.health(), 20);
    assert_eq!(game.max_health(), 20);
    assert_eq!(game.weapon(), None);
    assert_eq!(game.last_monster_slain_with_weapon(), None);
    assert!(!game.potion_used_this_room());
    assert!(game.can_skip());
    assert!(!game.survived());
    assert_eq!(game.message(), "");
    assert_eq!(game.last_command_feedback(), "");
    assert_eq!(game.current_monster(), None);
    assert!(!game.awaiting_weapon_choice());
    assert_eq!(game.interactions_left_in_room(), 0);
    assert!(game.room_is_empty());
    assert_eq!(game.room_slots(), [None, None, None, None]);
    assert_eq!(game.deck_len(), 44);
}

#[test]
fn game_from_a_deck_keeps_its_order() {
    let deck = deck_starting_with(&[card('H', 3), card('S', 14)]);
    let game = Game::from_deck(deck.clone()).expect("a full deck");
    let held: Vec<Card> = game.deck().iter().copied().collect();
    assert_eq!(held, deck);
}

#[test]
fn entering_the_dungeon_deals_the_first_room() {
    let front = [card('S', 5), card('C', 10), card('D', 7), card('H', 3)];
    let game = game_with_room(&front);
    assert_eq!(game.state(), GameState::RoomChoice);
    assert_eq!(game.message(), messages::ENTERED_DUNGEON);
    assert_eq!(
        game.room_slots(),
        [Some(front[0]), Some(front[1]), Some(front[2]), Some(front[3])]
    );
    assert_eq!(game.room_slot(2), Some(card('D', 7)));
    assert_eq!(game.room_slot(4), None);
    assert_eq!(game.deck_len(), 40);
    assert!(!game.room_is_empty());
}

#[test]
fn reset_starts_a_new_game_in_the_dungeon() {
    let mut game = game_with_room(&[card('S', 14), card('C', 14), card('S', 13), card('C', 13)]);
    game.face_room();
    game.play_card_from_slot(0);
    game.reset_to_playing();
    assert_eq!(game.state(), GameState::RoomChoice);
    assert_eq!(game.health(), 20);
    assert_eq!(game.message(), messages::ENTERED_DUNGEON);
    assert_eq!(game.deck_len(), 40);
    assert_eq!(in_dungeon(&game), 44);
    assert!(game.can_skip());
    assert_eq!(game.weapon(), None);
}

#[test]
fn fill_room_leaves_occupied_positions_alone() {
    let front = [
        card('D', 7),
        card('H', 3),
        card('D', 2),
        card('H', 2),
        card('S', 9),
        card('C', 9),
    ];
    let mut game = game_with_room(&front);
    game.face_room();
    game.play_card_from_slot(1);
    game.play_card_from_slot(3);
    assert_eq!(
        game.room_slots(),
        [Some(card('D', 7)), None, Some(card('D', 2)), None]
    );
    let before = game.deck_len();
    game.fill_room();
    assert_eq!(
        game.room_slots(),
        [
            Some(card('D', 7)),
            Some(card('S', 9)),
            Some(card('D', 2)),
            Some(card('C', 9))
        ]
    );
    assert_eq!(game.deck_len(), before - 2);
    game.fill_room();
    assert_eq!(game.deck_len(), before - 2);
}

#[test]
fn facing_a_room_grants_three_interactions() {
    let mut game = game_with_room(&[card('S', 5), card('C', 10), card('D', 7), card('H', 3)]);
    game.face_room();
    assert_eq!(game.state(), GameState::CardSelection);
    assert_eq!(game.interactions_left_in_room(), 3);
    assert!(!game.potion_used_this_room());
    assert_eq!(game.message(), messages::FACE_ROOM);
}

#[test]
fn selecting_a_weapon_equips_it() {
    let mut game = game_with_room(&[card('S', 5), card('C', 10), card('D', 7), card('H', 3)]);
    game.face_room();
    let outcome = game.play_card_from_slot(2);
    assert_eq!(outcome, ResolveOutcome::Nothing);
    assert_eq!(game.weapon(), Some(card('D', 7)));
    assert_eq!(game.last_monster_slain_with_weapon(), None);
    assert_eq!(game.interactions_left_in_room(), 2);
    assert_eq!(game.state(), GameState::CardSelection);
    assert_eq!(game.message(), "Equipped 7\u{f18a9}!");
    assert_eq!(
        game.room_slots(),
        [Some(card('S', 5)), Some(card('C', 10)), None, Some(card('H', 3))]
    );
    assert_eq!(game.health(), 20);
}

#[test]
fn monster_with_a_usable_weapon_opens_the_weapon_question() {
    let mut game = game_with_room(&[card('S', 5), card('C', 10), card('D', 7), card('H', 3)]);
    game.face_room();
    game.play_card_from_slot(2);
    let outcome = game.play_card_from_slot(0);
    assert_eq!(outcome, ResolveOutcome::Nothing);
    assert_eq!(game.state(), GameState::CardInteraction);
    assert!(game.awaiting_weapon_choice());
    assert_eq!(game.current_monster(), Some(card('S', 5)));
    assert!(game.message().ends_with("? (y/n)"));
    assert_eq!(
        game.message(),
        "Monster 5\u{f18b1} \u{2014} use weapon 7\u{f18a9}? (y/n)"
    );
    assert_eq!(game.interactions_left_in_room(), 2);

    let outcome = game.answer_weapon_prompt(true);
    assert_eq!(outcome, ResolveOutcome::AwaitContinue);
    assert_eq!(game.health(), 20);
    assert_eq!(game.last_monster_slain_with_weapon(), Some(5));
    assert!(!game.awaiting_weapon_choice());
    assert_eq!(game.current_monster(), None);
    assert_eq!(game.message(), "Fought with weapon! Took 0 damage.");
    assert_eq!(game.state(), GameState::CardInteraction);
    assert_eq!(game.interactions_left_in_room(), 2);

    game.continue_after_interaction();
    assert_eq!(game.state(), GameState::CardSelection);
    assert_eq!(game.interactions_left_in_room(), 1);
}

#[test]
fn declining_the_weapon_costs_the_full_rank() {
    let mut game = game_with_room(&[card('S', 5), card('C', 10), card('D', 7), card('H', 3)]);
    game.face_room();
    game.play_card_from_slot(2);
    game.play_card_from_slot(1);
    assert!(game.awaiting_weapon_choice());
    let outcome = game.answer_weapon_prompt(false);
    assert_eq!(outcome, ResolveOutcome::AwaitContinue);
    assert_eq!(game.health(), 10);
    assert_eq!(game.last_monster_slain_with_weapon(), None);
    assert_eq!(game.message(), "Fought monster! Took 10 damage.");
}

#[test]
fn weapon_takes_its_rank_off_the_damage() {
    let mut game = game_with_room(&[card('S', 5), card('C', 10), card('D', 7), card('H', 3)]);
    game.face_room();
    game.play_card_from_slot(2);
    game.play_card_from_slot(1);
    game.answer_weapon_prompt(true);
    assert_eq!(game.health(), 17);
    assert_eq!(game.last_monster_slain_with_weapon(), Some(10));
    assert_eq!(game.message(), "Fought with weapon! Took 3 damage.");
}

#[test]
fn weapon_serves_only_against_weaker_monsters_after_a_kill() {
    let mut game = game_with_room(&[card('C', 10), card('D', 7), card('S', 5), card('S', 10)]);
    assert!(!game.can_use_weapon_on(card('S', 2)));
    game.face_room();
    game.play_card_from_slot(1);
    assert!(game.can_use_weapon_on(card('S', 14)));
    game.play_card_from_slot(0);
    game.answer_weapon_prompt(true);
    assert!(game.can_use_weapon_on(card('S', 9)));
    assert!(!game.can_use_weapon_on(card('S', 10)));
    assert!(!game.can_use_weapon_on(card('S', 11)));
    game.continue_after_interaction();
    game.play_card_from_slot(2);
    game.answer_weapon_prompt(true);
    assert!(game.can_use_weapon_on(card('C', 4)));
    assert!(!game.can_use_weapon_on(card('C', 5)));
    assert!(!game.can_use_weapon_on(card('C', 9)));
}

#[test]
fn worn_weapon_does_not_open_the_question() {
    let mut game = game_with_room(&[card('S', 5), card('D', 7), card('C', 10), card('H', 3)]);
    game.face_room();
    game.play_card_from_slot(1);
    game.play_card_from_slot(0);
    game.answer_weapon_prompt(true);
    game.continue_after_interaction();
    let outcome = game.play_card_from_slot(2);
    assert_eq!(outcome, ResolveOutcome::Nothing);
    assert!(!game.awaiting_weapon_choice());
    assert_eq!(game.health(), 10);
    assert_eq!(game.state(), GameState::RoomChoice);
    assert_eq!(game.message(), messages::ROOM_RESOLVED);
    assert_eq!(game.current_monster(), Some(card('C', 10)));
}

#[test]
fn handling_a_monster_reports_the_damage() {
    let mut game = game_with_room(&[card('D', 7), card('S', 5), card('C', 10), card('H', 3)]);
    assert_eq!(game.handle_monster_without_weapon(card('S', 12)), 12);
    assert_eq!(game.handle_monster_with_weapon(card('S', 12)), 12);
    assert_eq!(game.last_monster_slain_with_weapon(), None);
    game.face_room();
    game.play_card_from_slot(0);
    assert_eq!(game.handle_monster_with_weapon(card('S', 12)), 5);
    assert_eq!(game.last_monster_slain_with_weapon(), Some(12));
    assert_eq!(game.handle_monster_with_weapon(card('S', 3)), 0);
    assert_eq!(game.last_monster_slain_with_weapon(), Some(3));
    assert_eq!(game.handle_monster_without_weapon(card('S', 3)), 3);
    assert_eq!(game.health(), 20);
}

#[test]
fn monster_without_a_weapon_hits_at_once() {
    let mut game = game_with_room(&[card('S', 5), card('C', 10), card('D', 7), card('H', 3)]);
    game.face_room();
    let outcome = game.play_card_from_slot(0);
    assert_eq!(outcome, ResolveOutcome::Nothing);
    assert_eq!(game.health(), 15);
    assert_eq!(game.state(), GameState::CardSelection);
    assert_eq!(game.interactions_left_in_room(), 2);
    assert_eq!(game.message(), "Fought monster! Took 5 damage.");
    assert!(!game.awaiting_weapon_choice());
}

#[test]
fn potion_heals_up_to_the_maximum() {
    let mut game = game_with_room(&[card('S', 5), card('H', 3), card('H', 9), card('C', 10)]);
    game.face_room();
    game.play_card_from_slot(0);
    assert_eq!(game.health(), 15);
    game.play_card_from_slot(1);
    assert_eq!(game.health(), 18);
    assert!(game.potion_used_this_room());
    assert_eq!(game.message(), "Healed for 3 HP.");
}

#[test]
fn potion_does_not_heal_beyond_the_maximum() {
    let mut game = game_with_room(&[card('S', 5), card('H', 9), card('H', 3), card('C', 10)]);
    game.face_room();
    game.play_card_from_slot(0);
    game.play_card_from_slot(1);
    assert_eq!(game.health(), 20);
    assert_eq!(game.message(), "Healed for 9 HP.");
}

#[test]
fn second_potion_of_a_room_is_wasted() {
    let mut game = game_with_room(&[card('S', 9), card('H', 3), card('H', 4), card('C', 10)]);
    game.face_room();
    game.play_card_from_slot(0);
    game.play_card_from_slot(1);
    assert_eq!(game.health(), 14);
    game.play_card_from_slot(2);
    assert_eq!(game.health(), 14);
    assert_eq!(game.state(), GameState::RoomChoice);
    assert_eq!(game.message(), messages::ROOM_RESOLVED);
    game.face_room();
    assert!(!game.potion_used_this_room());
}

#[test]
fn third_interaction_resolves_the_room() {
    let mut game = game_with_room(&[
        card('D', 2),
        card('D', 3),
        card('D', 4),
        card('S', 14),
        card('H', 2),
        card('H', 3),
        card('H', 4),
    ]);
    game.skip_room();
    assert!(!game.can_skip());
    game.face_room();
    game.play_card_from_slot(0);
    game.play_card_from_slot(1);
    assert_eq!(game.interactions_left_in_room(), 1);
    assert!(!game.can_skip());
    game.play_card_from_slot(2);
    assert_eq!(game.interactions_left_in_room(), 0);
    assert_eq!(game.state(), GameState::RoomChoice);
    assert!(game.can_skip());
    assert_eq!(game.message(), messages::ROOM_RESOLVED);
    assert!(game.room_slots().iter().all(|s| s.is_some()));
}

#[test]
fn selection_outside_card_selection_changes_only_the_message() {
    let mut game = game_with_room(&[card('S', 5), card('C', 10), card('D', 7), card('H', 3)]);
    let room = game.room_slots();
    let outcome = game.play_card_from_slot(0);
    assert_eq!(outcome, ResolveOutcome::Nothing);
    assert_eq!(game.message(), messages::MUST_FACE_FIRST);
    assert_eq!(game.state(), GameState::RoomChoice);
    assert_eq!(game.room_slots(), room);
    assert_eq!(game.health(), 20);
    assert_eq!(game.deck_len(), 40);
}

#[test]
fn selection_of_no_position_changes_only_the_message() {
    let mut game = game_with_room(&[card('S', 5), card('C', 10), card('D', 7), card('H', 3)]);
    game.face_room();
    let room = game.room_slots();
    for idx in [4usize, 5, 100, usize::MAX] {
        let outcome = game.play_card_from_slot(idx);
        assert_eq!(outcome, ResolveOutcome::Nothing);
        assert_eq!(game.message(), messages::INVALID_CARD_SELECTION);
        assert_eq!(game.state(), GameState::CardSelection);
        assert_eq!(game.room_slots(), room);
        assert_eq!(game.interactions_left_in_room(), 3);
    }
}

#[test]
fn selection_of_an_empty_position_changes_only_the_message() {
    let mut game = game_with_room(&[card('S', 5), card('C', 10), card('D', 7), card('H', 3)]);
    game.face_room();
    game.play_card_from_slot(2);
    let room = game.room_slots();
    let outcome = game.play_card_from_slot(2);
    assert_eq!(outcome, ResolveOutcome::Nothing);
    assert_eq!(game.message(), messages::INVALID_CARD_SELECTION);
    assert_eq!(game.state(), GameState::CardSelection);
    assert_eq!(game.room_slots(), room);
    assert_eq!(game.interactions_left_in_room(), 2);
    assert_eq!(game.weapon(), Some(card('D', 7)));
}

#[test]
fn answer_without_a_question_changes_only_the_message() {
    let mut game = game_with_room(&[card('S', 5), card('C', 10), card('D', 7), card('H', 3)]);
    game.face_room();
    let room = game.room_slots();
    for answer in [true, false] {
        game.set_message(String::new());
        let outcome = game.answer_weapon_prompt(answer);
        assert_eq!(outcome, ResolveOutcome::Nothing);
        assert_eq!(game.message(), messages::NEED_SELECT_CARD);
        assert_eq!(game.health(), 20);
        assert_eq!(game.state(), GameState::CardSelection);
        assert_eq!(game.last_monster_slain_with_weapon(), None);
        assert_eq!(game.current_monster(), None);
        assert_eq!(game.weapon(), None);
        assert_eq!(game.room_slots(), room);
        assert_eq!(game.deck_len(), 40);
        assert_eq!(game.interactions_left_in_room(), 3);
        assert!(!game.awaiting_weapon_choice());
    }
}

#[test]
fn answer_without_a_question_guides_at_every_point() {
    let mut game = Game::new();
    assert_eq!(game.answer_weapon_prompt(true), ResolveOutcome::Nothing);
    assert_eq!(game.message(), messages::NEED_START);
    assert_eq!(game.state(), GameState::MainMenu);
    game.enter_dungeon();
    assert_eq!(game.answer_weapon_prompt(false), ResolveOutcome::Nothing);
    assert_eq!(game.message(), messages::NEED_FACE_OR_SKIP);
    assert_eq!(game.state(), GameState::RoomChoice);

    let mut game = game_with_room(&[card('D', 7), card('S', 5), card('C', 10), card('H', 3)]);
    game.face_room();
    game.play_card_from_slot(0);
    game.play_card_from_slot(1);
    game.answer_weapon_prompt(true);
    assert_eq!(game.message(), "Fought with weapon! Took 0 damage.");
    assert_eq!(game.answer_weapon_prompt(true), ResolveOutcome::Nothing);
    assert_eq!(game.message(), messages::HINT_INTERACTION_ACK);
    assert_eq!(game.health(), 20);
    assert_eq!(game.last_monster_slain_with_weapon(), Some(5));
    assert_eq!(game.state(), GameState::CardInteraction);
}

#[test]
fn facing_outside_the_choice_of_a_room_changes_only_the_message() {
    let mut game = Game::new();
    game.face_room();
    assert_eq!(game.state(), GameState::MainMenu);
    assert_eq!(game.message(), messages::NEED_START);
    assert_eq!(game.interactions_left_in_room(), 0);
    assert!(game.room_is_empty());
    assert_eq!(game.deck_len(), 44);

    let mut game = game_with_room(&[card('H', 3), card('D', 7), card('S', 5), card('C', 10)]);
    game.face_room();
    game.play_card_from_slot(0);
    assert!(game.potion_used_this_room());
    assert_eq!(game.interactions_left_in_room(), 2);
    let room = game.room_slots();
    game.face_room();
    assert_eq!(game.state(), GameState::CardSelection);
    assert_eq!(game.message(), messages::NEED_SELECT_CARD);
    assert_eq!(game.interactions_left_in_room(), 2);
    assert!(game.potion_used_this_room());
    assert_eq!(game.room_slots(), room);

    game.play_card_from_slot(1);
    game.play_card_from_slot(2);
    assert!(game.awaiting_weapon_choice());
    game.face_room();
    assert_eq!(game.state(), GameState::CardInteraction);
    assert_eq!(game.message(), messages::NEED_Y_OR_N);
    assert!(game.awaiting_weapon_choice());
    assert_eq!(game.interactions_left_in_room(), 1);
    game.answer_weapon_prompt(true);
    game.face_room();
    assert_eq!(game.state(), GameState::CardInteraction);
    assert_eq!(game.message(), messages::HINT_INTERACTION_ACK);
    assert_eq!(game.interactions_left_in_room(), 1);
    assert_eq!(game.health(), 20);
}

#[test]
fn facing_does_not_leave_a_game_that_is_over() {
    let mut game = game_with_room(&[card('S', 14), card('C', 14), card('S', 13), card('C', 13)]);
    game.face_room();
    game.play_card_from_slot(0);
    game.play_card_from_slot(1);
    assert_eq!(game.state(), GameState::GameOver);
    let room = game.room_slots();
    let left = game.interactions_left_in_room();
    game.face_room();
    assert_eq!(game.state(), GameState::GameOver);
    assert_eq!(game.message(), messages::RESTART_HELP);
    assert!(!game.survived());
    assert_eq!(game.health(), -8);
    assert_eq!(game.interactions_left_in_room(), left);
    assert_eq!(game.room_slots(), room);
    assert_eq!(game.final_score(), -180);
}

#[test]
fn guidance_names_the_move_that_the_game_waits_for() {
    let mut game = Game::new();
    assert_eq!(game.guidance(), messages::NEED_START);
    game.enter_dungeon();
    assert_eq!(game.guidance(), messages::NEED_FACE_OR_SKIP);
    game.guide();
    assert_eq!(game.message(), messages::NEED_FACE_OR_SKIP);
    assert_eq!(game.state(), GameState::RoomChoice);
    game.face_room();
    assert_eq!(game.guidance(), messages::NEED_SELECT_CARD);
}

#[test]
fn skip_returns_the_room_to_the_back_of_the_deck() {
    let front = [card('S', 5), card('C', 10), card('D', 7), card('H', 3)];
    let deck = deck_starting_with(&front);
    let mut game = game_with_room(&front);
    game.skip_room();
    assert!(!game.can_skip());
    assert_eq!(game.state(), GameState::RoomChoice);
    assert_eq!(game.message(), messages::SKIPPED_ROOM);
    assert_eq!(
        game.room_slots(),
        [Some(deck[4]), Some(deck[5]), Some(deck[6]), Some(deck[7])]
    );
    let held: Vec<Card> = game.deck().iter().copied().collect();
    assert_eq!(held.len(), 40);
    assert_eq!(&held[..36], &deck[8..]);
    assert_eq!(&held[36..], &front[..]);
}

#[test]
fn skip_keeps_the_order_of_a_room_with_gaps() {
    let front = [card('D', 7), card('S', 5), card('H', 3), card('C', 10)];
    let mut game = game_with_room(&front);
    game.face_room();
    game.play_card_from_slot(0);
    game.play_card_from_slot(2);
    assert_eq!(game.state(), GameState::CardSelection);
    game.skip_room();
    let held: Vec<Card> = game.deck().iter().copied().collect();
    assert_eq!(&held[held.len() - 2..], &[card('S', 5), card('C', 10)]);
    assert!(game.room_slots().iter().all(|s| s.is_some()));
}

#[test]
fn skip_without_permission_changes_only_the_message() {
    let mut game = game_with_room(&[card('S', 5), card('C', 10), card('D', 7), card('H', 3)]);
    game.skip_room();
    assert!(!game.can_skip());
    let room = game.room_slots();
    let deck: Vec<Card> = game.deck().iter().copied().collect();
    let state = game.state();
    let health = game.health();
    game.skip_room();
    assert_eq!(game.message(), messages::NEED_FACE_ONLY);
    assert_eq!(game.room_slots(), room);
    assert_eq!(game.deck().iter().copied().collect::<Vec<Card>>(), deck);
    assert_eq!(game.state(), state);
    assert_eq!(game.health(), health);
    assert!(!game.can_skip());
    assert!(!game.survived());
    assert_eq!(game.interactions_left_in_room(), 0);
}

#[test]
fn death_is_found_at_the_step_after_the_card() {
    let mut game = game_with_room(&[card('S', 14), card('C', 14), card('S', 13), card('C', 13)]);
    game.face_room();
    game.play_card_from_slot(0);
    assert_eq!(game.health(), 6);
    assert_eq!(game.state(), GameState::CardSelection);
    game.play_card_from_slot(1);
    assert_eq!(game.health(), -8);
    assert_eq!(game.state(), GameState::GameOver);
    assert!(!game.survived());
    assert_eq!(game.message(), messages::YOU_DIED);
    assert_eq!(game.interactions_left_in_room(), 2);
    assert_eq!(game.final_score(), -180);
    assert_eq!(
        game.remaining_summary_line(),
        "Remaining monsters total threat: -180"
    );
}

#[test]
fn death_after_the_weapon_question_waits_for_the_continue() {
    let mut game = game_with_room(&[card('D', 2), card('S', 14), card('C', 14), card('S', 13)]);
    game.face_room();
    game.play_card_from_slot(0);
    game.play_card_from_slot(1);
    game.answer_weapon_prompt(false);
    assert_eq!(game.health(), 6);
    game.continue_after_interaction();
    game.play_card_from_slot(2);
    assert!(game.awaiting_weapon_choice());
    game.answer_weapon_prompt(false);
    assert_eq!(game.health(), -8);
    assert_eq!(game.state(), GameState::CardInteraction);
    assert!(!game.survived());
    let left = game.interactions_left_in_room();
    game.continue_after_interaction();
    assert_eq!(game.state(), GameState::GameOver);
    assert!(!game.survived());
    assert_eq!(game.message(), messages::YOU_DIED);
    assert_eq!(game.interactions_left_in_room(), left);
    assert!(game.final_score() <= 0);
    assert_eq!(game.final_score(), -(208 - 28));
}

#[test]
fn careful_play_survives_the_dungeon() {
    let mut game = Game::from_deck(winnable_deck()).expect("a full deck");
    game.enter_dungeon();
    let mut played = 0;
    for step in WINNING_PLAY.chars() {
        assert_ne!(game.state(), GameState::GameOver);
        let before = in_dungeon(&game);
        apply(&mut game, step);
        if step.is_ascii_digit() {
            played += 1;
            assert_eq!(in_dungeon(&game), before - 1);
        } else {
            assert_eq!(in_dungeon(&game), before);
        }
        assert_eq!(in_dungeon(&game) + played, 44);
        assert!(game.interactions_left_in_room() <= 3);
        assert!(game.health() <= game.max_health());
    }
    assert_eq!(played, 44);
    assert_eq!(game.state(), GameState::GameOver);
    assert!(game.survived());
    assert!(game.health() >= 1);
    assert!(game.room_is_empty());
    assert_eq!(game.deck_len(), 0);
    assert_eq!(game.message(), messages::YOU_SURVIVED);
    assert_eq!(game.health(), 2);
    assert_eq!(game.final_score(), 2);
    assert_eq!(game.weapon(), Some(card('D', 2)));
    assert_eq!(
        game.remaining_summary_line(),
        "No monsters remain. You defeated them all!"
    );
    assert_eq!(game.remaining_summary_line(), messages::NO_MONSTERS_REMAIN);
}

#[test]
fn score_of_the_dead_counts_room_and_deck() {
    let mut game = game_with_room(&[card('S', 14), card('C', 14), card('S', 2), card('H', 2)]);
    assert_eq!(game.final_score(), -208);
    game.face_room();
    game.play_card_from_slot(2);
    assert_eq!(game.final_score(), -206);
    game.play_card_from_slot(3);
    assert_eq!(game.final_score(), -206);
    assert_eq!(
        game.remaining_summary_line(),
        "Remaining monsters total threat: -206"
    );
}

#[test]
fn front_end_messages_replace_the_game_message() {
    let mut game = game_with_room(&[card('S', 5), card('C', 10), card('D', 7), card('H', 3)]);
    game.set_message(messages::NEED_FACE_OR_SKIP.to_string());
    assert_eq!(game.message(), messages::NEED_FACE_OR_SKIP);
    game.set_last_command_feedback("> f".to_string());
    assert_eq!(game.last_command_feedback(), "> f");
    assert_eq!(game.state(), GameState::RoomChoice);
    assert_eq!(game.deck_len(), 40);
}
