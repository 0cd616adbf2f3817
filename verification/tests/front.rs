use scoundrel::card::{ordered_cards, Card};
use scoundrel::logic::{Game, GameState};
use scoundrel::messages;
use scoundrel::ui::{
    card_tooltip_text, deck_line, parse_command, room_footer, score_line, slot_label, Command,
};

fn card(suit: char, value: u8) -> Card {
    Card { suit, value }
}

fn game_in_room(front: &[Card]) -> Game {
    let mut deck: Vec<Card> = front.to_vec();
    for c in ordered_cards() {
        if !front.contains(&c) {
            deck.push(c);
        }
    }
    let mut game = Game::from_deck(deck).expect("a full deck");
    game.enter_dungeon();
    game
}

fn usual_room() -> Game {
    game_in_room(&[card('S', 5), card('C', 10), card('D', 7), card('H', 3)])
}

#[test]
fn words_are_read_in_any_case() {
    assert_eq!(parse_command("exit"), Command::Exit);
    assert_eq!(parse_command("EXIT"), Command::Exit);
    assert_eq!(parse_command("Quit"), Command::Exit);
    assert_eq!(parse_command("restart"), Command::Restart);
    assert_eq!(parse_command("ReStArT"), Command::Restart);
    assert_eq!(parse_command("start"), Command::Start);
    assert_eq!(parse_command("s"), Command::ShortS);
    assert_eq!(parse_command("S"), Command::ShortS);
    assert_eq!(parse_command("f"), Command::Face);
    assert_eq!(parse_command("FACE"), Command::Face);
    assert_eq!(parse_command("skip"), Command::Skip);
    assert_eq!(parse_command("y"), Command::Yes);
    assert_eq!(parse_command("Y"), Command::Yes);
    assert_eq!(parse_command("n"), Command::No);
    assert_eq!(parse_command("ok"), Command::Acknowledge);
    assert_eq!(parse_command("Ok"), Command::Acknowledge);
}

#[test]
fn other_words_are_not_commands() {
    for text in ["exi", "exits", "yes", "no", "fa", "skipp", "e xit", "st art", "@", "k", "\u{212a}"] {
        assert_eq!(parse_command(text), Command::Other, "{:?}", text);
    }
}

#[test]
fn white_space_around_a_command_counts_for_nothing() {
    assert_eq!(parse_command(""), Command::Empty);
    assert_eq!(parse_command("   "), Command::Empty);
    assert_eq!(parse_command(" \t\r\n"), Command::Empty);
    assert_eq!(parse_command("  exit"), Command::Exit);
    assert_eq!(parse_command("exit \n"), Command::Exit);
    assert_eq!(parse_command("\t f \t"), Command::Face);
    assert_eq!(parse_command(" 3 "), Command::Number(3));
    assert_eq!(parse_command("\u{3000}y\u{a0}"), Command::Yes);
}

#[test]
fn white_space_is_what_the_standard_library_trims() {
    let mut spaces = 0;
    for code in 0..=0x10ffffu32 {
        if let Some(c) = char::from_u32(code) {
            let text = format!("{}ok{}", c, c);
            let expected = if c.is_whitespace() {
                Command::Acknowledge
            } else {
                Command::Other
            };
            assert_eq!(parse_command(&text), expected, "U+{:04X}", code);
            if c.is_whitespace() {
                spaces += 1;
                assert_eq!(parse_command(&c.to_string()), Command::Empty);
            }
        }
    }
    assert_eq!(spaces, 25);
}

#[test]
fn letters_fold_as_the_standard_library_folds_them() {
    for code in 0..=0x2fffu32 {
        if let Some(c) = char::from_u32(code) {
            let text = c.to_string();
            let expected = if text.eq_ignore_ascii_case("y") {
                Command::Yes
            } else if text.eq_ignore_ascii_case("n") {
                Command::No
            } else if text.eq_ignore_ascii_case("s") {
                Command::ShortS
            } else if text.eq_ignore_ascii_case("f") {
                Command::Face
            } else if text.trim().is_empty() {
                Command::Empty
            } else if let Ok(n) = text.parse::<usize>() {
                Command::Number(n)
            } else {
                Command::Other
            };
            assert_eq!(parse_command(&text), expected, "U+{:04X}", code);
        }
    }
}

#[test]
fn numbers_are_read_as_the_standard_library_reads_them() {
    let big = usize::MAX.to_string();
    let bigger = format!("{}0", usize::MAX);
    let next = format!("{}", usize::MAX as u128 + 1);
    let padded = format!("000{}", usize::MAX);
    for text in [
        "0", "1", "4", "5", "10", "007", "+3", "+0", "+", "-1", "-0", "++1", "1+", "1 2", "3.0",
        "0x10", "1e3", "12a", "\u{663}", "٣", "99999999999999999999999999", &big, &bigger, &next,
        &padded, "18446744073709551615", "18446744073709551616", "4294967295", "4294967296",
    ] {
        let expected = match text.parse::<usize>() {
            Ok(n) => Command::Number(n),
            Err(_) => Command::Other,
        };
        assert_eq!(parse_command(text), expected, "{:?}", text);
    }
    assert_eq!(parse_command("3"), Command::Number(3));
    assert_eq!(parse_command("+12"), Command::Number(12));
    assert_eq!(parse_command(&big), Command::Number(usize::MAX));
    assert_eq!(parse_command(&next), Command::Other);
}

#[test]
fn start_enters_the_dungeon() {
    for word in ["start", "s", " START "] {
        let mut game = Game::new();
        assert!(!game.submit_command(word));
        assert_eq!(game.state(), GameState::RoomChoice);
        assert_eq!(game.message(), messages::ENTERED_DUNGEON);
        assert_eq!(game.deck_len(), 40);
        assert_eq!(game.last_command_feedback(), format!("> {}", word.trim()));
    }
}

#[test]
fn main_menu_asks_for_start() {
    let mut game = Game::new();
    for word in ["f", "1", "y", "ok", "hello"] {
        assert!(!game.submit_command(word));
        assert_eq!(game.state(), GameState::MainMenu);
        assert_eq!(game.message(), messages::NEED_START);
        assert_eq!(game.last_command_feedback(), format!("> {}", word));
    }
}

#[test]
fn empty_line_is_not_echoed() {
    let mut game = usual_room();
    game.submit_command("f");
    assert!(!game.submit_command("   "));
    assert_eq!(game.last_command_feedback(), "> f");
    assert_eq!(game.state(), GameState::CardSelection);
    assert_eq!(game.message(), messages::FACE_ROOM);
}

#[test]
fn exit_asks_to_leave_and_changes_only_the_echo() {
    for word in ["exit", "quit", " EXIT "] {
        let mut game = usual_room();
        assert!(game.submit_command(word));
        assert_eq!(game.state(), GameState::RoomChoice);
        assert_eq!(game.message(), messages::ENTERED_DUNGEON);
        assert_eq!(game.last_command_feedback(), format!("> {}", word.trim()));
    }
}

#[test]
fn restart_starts_over_in_the_dungeon() {
    let mut game = usual_room();
    game.submit_command("f");
    game.submit_command("1");
    assert_eq!(game.health(), 15);
    assert!(!game.submit_command("restart"));
    assert_eq!(game.state(), GameState::RoomChoice);
    assert_eq!(game.health(), 20);
    assert_eq!(game.deck_len(), 40);
    assert_eq!(game.message(), messages::ENTERED_DUNGEON);
    assert_eq!(game.last_command_feedback(), "");
    assert!(game.room_slots().iter().all(|s| s.is_some()));
}

#[test]
fn room_choice_takes_face_and_skip() {
    for word in ["f", "face"] {
        let mut game = usual_room();
        game.submit_command(word);
        assert_eq!(game.state(), GameState::CardSelection);
        assert_eq!(game.interactions_left_in_room(), 3);
    }
    for word in ["s", "skip"] {
        let mut game = usual_room();
        game.submit_command(word);
        assert_eq!(game.state(), GameState::RoomChoice);
        assert!(!game.can_skip());
        assert_eq!(game.message(), messages::SKIPPED_ROOM);
    }
}

#[test]
fn room_choice_tells_what_can_be_typed() {
    let mut game = usual_room();
    game.submit_command("start");
    assert_eq!(game.message(), messages::NEED_FACE_OR_SKIP);
    game.submit_command("skip");
    game.submit_command("2");
    assert_eq!(game.message(), messages::NEED_FACE_ONLY);
    game.submit_command("skip");
    assert_eq!(game.message(), messages::NEED_FACE_ONLY);
    assert_eq!(game.state(), GameState::RoomChoice);
}

#[test]
fn card_selection_counts_positions_from_one() {
    let mut game = usual_room();
    game.submit_command("f");
    game.submit_command("3");
    assert_eq!(game.weapon(), Some(card('D', 7)));
    assert_eq!(game.room_slot(2), None);
    game.submit_command("0");
    assert_eq!(game.room_slot(0), None);
    assert_eq!(game.current_monster(), Some(card('S', 5)));
    assert!(game.awaiting_weapon_choice());
}

#[test]
fn card_selection_refuses_what_is_no_position() {
    let mut game = usual_room();
    game.submit_command("f");
    game.submit_command("5");
    assert_eq!(game.message(), messages::INVALID_CARD_SELECTION);
    game.submit_command("x");
    assert_eq!(game.message(), messages::NEED_SELECT_CARD);
    game.submit_command(&usize::MAX.to_string());
    assert_eq!(game.message(), messages::INVALID_CARD_SELECTION);
    game.submit_command(&format!("{}0", usize::MAX));
    assert_eq!(game.message(), messages::NEED_SELECT_CARD);
    assert_eq!(game.state(), GameState::CardSelection);
    assert_eq!(game.interactions_left_in_room(), 3);
    assert!(game.room_slots().iter().all(|s| s.is_some()));
}

#[test]
fn weapon_question_takes_yes_and_no() {
    let mut game = usual_room();
    game.submit_command("f");
    game.submit_command("3");
    game.submit_command("2");
    assert!(game.awaiting_weapon_choice());
    game.submit_command("maybe");
    assert_eq!(game.message(), messages::NEED_Y_OR_N);
    assert!(game.awaiting_weapon_choice());
    game.submit_command("");
    assert!(game.awaiting_weapon_choice());
    assert_eq!(game.state(), GameState::CardInteraction);
    game.submit_command("Y");
    assert!(!game.awaiting_weapon_choice());
    assert_eq!(game.health(), 17);
    assert_eq!(game.state(), GameState::CardInteraction);
    game.submit_command("f");
    assert_eq!(game.state(), GameState::CardInteraction);
    assert_eq!(game.message(), "Fought with weapon! Took 3 damage.");
    game.submit_command("");
    assert_eq!(game.state(), GameState::CardSelection);
    assert_eq!(game.interactions_left_in_room(), 1);
}

#[test]
fn acknowledgement_goes_on_after_a_fight() {
    let mut game = usual_room();
    game.submit_command("f");
    game.submit_command("3");
    game.submit_command("1");
    game.submit_command("n");
    assert_eq!(game.health(), 15);
    game.submit_command("ok");
    assert_eq!(game.state(), GameState::CardSelection);
    assert_eq!(game.interactions_left_in_room(), 1);
}

#[test]
fn lost_health_ends_the_game_with_the_command() {
    let mut game = game_in_room(&[card('D', 2), card('S', 14), card('C', 14), card('S', 13)]);
    game.submit_command("f");
    game.submit_command("1");
    game.submit_command("2");
    game.submit_command("n");
    assert_eq!(game.health(), 6);
    game.submit_command("");
    game.submit_command("3");
    game.submit_command("n");
    assert_eq!(game.health(), -8);
    assert_eq!(game.state(), GameState::GameOver);
    assert!(!game.survived());
    assert_eq!(game.message(), messages::YOU_DIED);
    game.submit_command("f");
    assert_eq!(game.message(), messages::RESTART_HELP);
    assert_eq!(game.state(), GameState::GameOver);
}

#[test]
fn check_death_ends_a_game_without_health() {
    let mut game = game_in_room(&[card('D', 2), card('S', 14), card('C', 14), card('S', 13)]);
    game.face_room();
    game.play_card_from_slot(0);
    game.play_card_from_slot(1);
    game.answer_weapon_prompt(false);
    game.check_death();
    assert_eq!(game.state(), GameState::CardInteraction);
    game.continue_after_interaction();
    game.play_card_from_slot(2);
    game.answer_weapon_prompt(false);
    assert_eq!(game.state(), GameState::CardInteraction);
    game.check_death();
    assert_eq!(game.state(), GameState::GameOver);
    assert!(!game.survived());
    assert_eq!(game.message(), messages::YOU_DIED);
}

#[test]
fn pointing_at_a_card_plays_it_in_card_selection() {
    let mut game = usual_room();
    game.face_room();
    game.select_card(2);
    assert_eq!(game.weapon(), Some(card('D', 7)));
    assert_eq!(game.interactions_left_in_room(), 2);
}

#[test]
fn pointing_at_a_card_elsewhere_gives_guidance() {
    let mut game = Game::new();
    game.select_card(0);
    assert_eq!(game.message(), messages::NEED_START);
    assert_eq!(game.state(), GameState::MainMenu);

    let mut game = usual_room();
    game.select_card(1);
    assert_eq!(game.message(), messages::NEED_FACE_OR_SKIP);
    assert!(game.room_slots().iter().all(|s| s.is_some()));

    game.face_room();
    game.select_card(2);
    game.select_card(0);
    assert!(game.awaiting_weapon_choice());
    game.select_card(1);
    assert_eq!(game.message(), messages::NEED_Y_OR_N);
    game.answer_weapon_prompt(true);
    game.select_card(1);
    assert_eq!(game.message(), messages::HINT_INTERACTION_ACK);
    assert_eq!(game.room_slot(1), Some(card('C', 10)));

    let mut game = game_in_room(&[card('S', 14), card('C', 14), card('S', 13), card('C', 13)]);
    game.face_room();
    game.play_card_from_slot(0);
    game.play_card_from_slot(1);
    assert_eq!(game.state(), GameState::GameOver);
    game.select_card(2);
    assert_eq!(game.message(), messages::RESTART_HELP);
}

#[test]
fn hints_follow_the_game() {
    let mut game = Game::new();
    assert_eq!(game.state_hint(), messages::HINT_MAIN);
    assert_eq!(game.command_placeholder(), "start | restart | exit");
    assert_eq!(game.shown_message(), "Welcome, Scoundrel.");
    game.enter_dungeon();
    assert_eq!(game.state_hint(), messages::HINT_ROOM_CHOICE_CAN_SKIP);
    assert_eq!(game.command_placeholder(), "f | s | restart | exit");
    assert_eq!(game.shown_message(), messages::ENTERED_DUNGEON);
    game.set_message(String::new());
    assert_eq!(game.shown_message(), messages::NEED_FACE_OR_SKIP);
    game.skip_room();
    assert_eq!(game.state_hint(), messages::HINT_ROOM_CHOICE_NO_SKIP);
    assert_eq!(game.command_placeholder(), "f | restart | exit");
    game.face_room();
    assert_eq!(game.state_hint(), messages::HINT_CARD_SELECTION);
    assert_eq!(game.command_placeholder(), "1..4 | restart | exit");
    game.set_message(String::new());
    assert_eq!(game.shown_message(), "Choose a card.");
}

#[test]
fn hints_tell_question_from_acknowledgement() {
    let mut game = usual_room();
    game.face_room();
    game.play_card_from_slot(2);
    game.play_card_from_slot(0);
    assert_eq!(game.state_hint(), messages::HINT_PROMPT_WEAPON);
    assert_eq!(game.command_placeholder(), "y/n | restart | exit");
    game.set_message(String::new());
    assert_eq!(game.shown_message(), messages::NEED_Y_OR_N);
    game.answer_weapon_prompt(true);
    assert_eq!(game.state_hint(), messages::HINT_INTERACTION_ACK);
    assert_eq!(game.command_placeholder(), "(Enter) | restart | exit");
    game.set_message(String::new());
    assert_eq!(game.shown_message(), messages::HINT_INTERACTION_ACK);
}

#[test]
fn game_over_shows_what_is_left() {
    let mut game = game_in_room(&[card('S', 14), card('C', 14), card('S', 13), card('C', 13)]);
    game.face_room();
    game.play_card_from_slot(0);
    game.play_card_from_slot(1);
    assert_eq!(game.state_hint(), messages::HINT_GAME_OVER);
    assert_eq!(game.command_placeholder(), "restart | restart | exit");
    assert_eq!(game.shown_message(), messages::YOU_DIED);
    game.set_message(String::new());
    assert_eq!(game.shown_message(), "Remaining monsters total threat: -180");
    assert_eq!(score_line(game.final_score()), "FINAL SCORE: -180");
}

#[test]
fn tooltips_tell_what_a_card_will_do() {
    let mut game = usual_room();
    assert_eq!(card_tooltip_text(card('S', 12), &game), "Monster (ATK 12)");
    assert_eq!(
        card_tooltip_text(card('D', 7), &game),
        "Weapon (ATK 7) (no restriction)"
    );
    assert_eq!(card_tooltip_text(card('H', 3), &game), "Potion (Heal for 3)");
    assert_eq!(card_tooltip_text(card('X', 3), &game), "Unknown card");
    game.face_room();
    game.play_card_from_slot(2);
    assert_eq!(
        card_tooltip_text(card('S', 12), &game),
        "Monster (ATK 12) - With weapon: 5 damage"
    );
    assert_eq!(
        card_tooltip_text(card('S', 5), &game),
        "Monster (ATK 5) - With weapon: 0 damage"
    );
    game.play_card_from_slot(0);
    game.answer_weapon_prompt(true);
    assert_eq!(
        card_tooltip_text(card('C', 10), &game),
        "Monster (ATK 10) - Weapon degraded. Will take 10 damage"
    );
    assert_eq!(
        card_tooltip_text(card('C', 4), &game),
        "Monster (ATK 4) - With weapon: 0 damage"
    );
    assert_eq!(
        card_tooltip_text(card('D', 9), &game),
        "Weapon (ATK 9) (updates to < 5)"
    );
}

#[test]
fn status_lines_read_as_expected() {
    assert_eq!(deck_line(40), "Cards left in Dungeon: 40");
    assert_eq!(deck_line(0), "Cards left in Dungeon: 0");
    assert_eq!(score_line(2), "FINAL SCORE: 2");
    assert_eq!(score_line(-208), "FINAL SCORE: -208");
    assert_eq!(slot_label(0, Some(card('D', 7))), "[1] 7\u{f18a9}");
    assert_eq!(slot_label(3, Some(card('S', 14))), "[4] A\u{f18b1}");
    assert_eq!(slot_label(2, None), "[ ] empty");
    let mut game = usual_room();
    assert_eq!(room_footer(&game), None);
    game.face_room();
    assert_eq!(
        room_footer(&game),
        Some("Interactions left in this room: 3".to_string())
    );
    game.play_card_from_slot(3);
    assert_eq!(
        room_footer(&game),
        Some("Interactions left in this room: 2".to_string())
    );
}
