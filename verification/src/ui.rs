//! What a front end needs beside the moves: the commands that a player
//! types, the hints that go with each point of the game, and the lines of the
//! status panels. Nothing here reads a key or draws a cell.

use crate::card::Card;
use crate::laws::{
    lemma_advance_wf, lemma_answer_wf, lemma_enter_dungeon_wf, lemma_face_room_wf,
    lemma_play_card_wf, lemma_skip_room_wf,
};
use crate::logic::Game;
use crate::messages;
use crate::model::{monsters, threat, GameState, GameView};
use crate::render::{card_label, card_text};
use crate::text::{digits, numeral, push_digits, push_numeral};
use vstd::prelude::*;
use vstd::string::{StrSliceExecFns, StringExecFns};

verus! {

/// What the player typed, as far as the game tells inputs apart.
#[derive(Clone, Copy, Debug, PartialEq, Eq, Structural)]
pub enum Command {
    /// Nothing but white space.
    Empty,
    /// `exit` or `quit`.
    Exit,
    /// `restart`.
    Restart,
    /// `start`.
    Start,
    /// `s`, which starts the game at the main menu and skips a room in the
    /// dungeon.
    ShortS,
    /// `f` or `face`.
    Face,
    /// `skip`.
    Skip,
    /// `y`.
    Yes,
    /// `n`.
    No,
    /// `ok`.
    Acknowledge,
    /// A number, as the player counts positions: from one.
    Number(usize),
    /// Anything else.
    Other,
}

/// White space as Unicode defines it.
pub open spec fn is_space(c: char) -> bool {
    let u = c as u32;
    ||| 0x09 <= u <= 0x0d
    ||| u == 0x20
    ||| u == 0x85
    ||| u == 0xa0
    ||| u == 0x1680
    ||| 0x2000 <= u <= 0x200a
    ||| u == 0x2028
    ||| u == 0x2029
    ||| u == 0x202f
    ||| u == 0x205f
    ||| u == 0x3000
}

/// Number of white-space characters at the front of a text.
pub open spec fn leading_spaces(s: Seq<char>) -> nat
    decreases s.len(),
{
    if s.len() > 0 && is_space(s[0]) {
        1 + leading_spaces(s.drop_first())
    } else {
        0
    }
}

/// Number of white-space characters at the back of a text.
pub open spec fn trailing_spaces(s: Seq<char>) -> nat
    decreases s.len(),
{
    if s.len() > 0 && is_space(s.last()) {
        1 + trailing_spaces(s.drop_last())
    } else {
        0
    }
}

/// A text without the white space at its front and back.
pub open spec fn trimmed(s: Seq<char>) -> Seq<char> {
    let front = s.skip(leading_spaces(s) as int);
    front.take(front.len() - trailing_spaces(front))
}

/// A capital letter of the Latin alphabet as its small letter; any other
/// character as it is.
pub open spec fn folded(c: char) -> char {
    if 'A' <= c <= 'Z' {
        ((c as u8) + 32) as char
    } else {
        c
    }
}

/// Whether two texts are the same but for the case of Latin letters.
pub open spec fn same_word(s: Seq<char>, word: Seq<char>) -> bool {
    s.len() == word.len() && forall|i: int| 0 <= i < s.len() ==> folded(s[i]) == folded(word[i])
}

/// Whether a character is a decimal digit.
pub open spec fn is_digit(c: char) -> bool {
    '0' <= c <= '9'
}

/// The number that a text of decimal digits stands for.
pub open spec fn digits_value(s: Seq<char>) -> nat
    decreases s.len(),
{
    if s.len() == 0 {
        0
    } else {
        10 * digits_value(s.drop_last()) + ((s.last() as u32) - ('0' as u32)) as nat
    }
}

/// Whether a text holds decimal digits only.
pub open spec fn all_digits(s: Seq<char>) -> bool {
    forall|i: int| 0 <= i < s.len() ==> is_digit(#[trigger] s[i])
}

/// A text without the plus sign that may stand at its front.
pub open spec fn unsigned_part(s: Seq<char>) -> Seq<char> {
    if s.len() > 0 && s[0] == '+' {
        s.drop_first()
    } else {
        s
    }
}

/// A number as the player may type it: decimal digits, a plus sign before
/// them if the player likes, and no more than the machine can count.
pub open spec fn number_of(s: Seq<char>) -> Option<usize> {
    let body = unsigned_part(s);
    if body.len() > 0 && all_digits(body) && digits_value(body) <= usize::MAX {
        Some(digits_value(body) as usize)
    } else {
        None
    }
}

/// The command that a trimmed text stands for.
pub open spec fn word_command(s: Seq<char>) -> Command {
    if s.len() == 0 {
        Command::Empty
    } else if same_word(s, "exit"@) || same_word(s, "quit"@) {
        Command::Exit
    } else if same_word(s, "restart"@) {
        Command::Restart
    } else if same_word(s, "start"@) {
        Command::Start
    } else if same_word(s, "s"@) {
        Command::ShortS
    } else if same_word(s, "f"@) || same_word(s, "face"@) {
        Command::Face
    } else if same_word(s, "skip"@) {
        Command::Skip
    } else if same_word(s, "y"@) {
        Command::Yes
    } else if same_word(s, "n"@) {
        Command::No
    } else if same_word(s, "ok"@) {
        Command::Acknowledge
    } else {
        match number_of(s) {
            Some(n) => Command::Number(n),
            None => Command::Other,
        }
    }
}

/// The command that a line of input stands for.
pub open spec fn command_of(text: Seq<char>) -> Command {
    word_command(trimmed(text))
}

/// The characters of a text.
fn chars_of(s: &str) -> (v: Vec<char>)
    ensures
        v@ == s@,
{
    let mut v: Vec<char> = Vec::new();
    for c in it: s.chars()
        invariant
            v@ == it.seq().take(it.index() as int),
            it.seq() == s@,
    {
        v.push(c);
        assert(v@ =~= it.seq().take(it.index() + 1));
    }
    assert(v@ =~= s@);
    v
}

fn char_is_space(c: char) -> (b: bool)
    ensures
        b == is_space(c),
{
    let u: u32 = c as u32;
    (0x09 <= u && u <= 0x0d) || u == 0x20 || u == 0x85 || u == 0xa0 || u == 0x1680 || (0x2000 <= u
        && u <= 0x200a) || u == 0x2028 || u == 0x2029 || u == 0x202f || u == 0x205f || u == 0x3000
}

fn fold_char(c: char) -> (f: char)
    ensures
        f == folded(c),
{
    if 'A' <= c && c <= 'Z' {
        ((c as u8) + 32) as char
    } else {
        c
    }
}

proof fn lemma_leading_spaces(s: Seq<char>, k: int)
    requires
        0 <= k <= s.len(),
        forall|i: int| 0 <= i < k ==> is_space(s[i]),
        k == s.len() || !is_space(s[k]),
    ensures
        leading_spaces(s) == k,
    decreases k,
{
    if k > 0 {
        lemma_leading_spaces(s.drop_first(), k - 1);
    }
}

proof fn lemma_trailing_spaces(s: Seq<char>, k: int)
    requires
        0 <= k <= s.len(),
        forall|i: int| s.len() - k <= i < s.len() ==> is_space(s[i]),
        k == s.len() || !is_space(s[s.len() - k - 1]),
    ensures
        trailing_spaces(s) == k,
    decreases k,
{
    if k > 0 {
        lemma_trailing_spaces(s.drop_last(), k - 1);
    }
}

/// Finds where a text begins and ends once the white space around it is
/// left out.
fn trim_bounds(chars: &Vec<char>) -> (bounds: (usize, usize))
    ensures
        bounds.0 <= bounds.1 <= chars.len(),
        chars@.subrange(bounds.0 as int, bounds.1 as int) == trimmed(chars@),
{
    let mut start: usize = 0;
    while start < chars.len() && char_is_space(chars[start])
        invariant
            start <= chars.len(),
            forall|i: int| 0 <= i < start ==> is_space(chars@[i]),
        decreases chars.len() - start,
    {
        start = start + 1;
    }
    let mut end: usize = chars.len();
    while end > start && char_is_space(chars[end - 1])
        invariant
            start <= end <= chars.len(),
            forall|i: int| end <= i < chars.len() ==> is_space(chars@[i]),
        decreases end,
    {
        end = end - 1;
    }
    proof {
        lemma_leading_spaces(chars@, start as int);
        let front = chars@.skip(start as int);
        assert(forall|i: int| 0 <= i < front.len() ==> front[i] == chars@[i + start]);
        lemma_trailing_spaces(front, chars.len() - end);
        assert(chars@.subrange(start as int, end as int) =~= trimmed(chars@));
    }
    (start, end)
}

/// Compares a part of a text with a word, taking capital and small Latin
/// letters for the same.
fn matches_word(chars: &Vec<char>, start: usize, end: usize, word: &str) -> (same: bool)
    requires
        start <= end <= chars.len(),
    ensures
        same == same_word(chars@.subrange(start as int, end as int), word@),
{
    let len = word.unicode_len();
    if end - start != len {
        return false;
    }
    let ghost part = chars@.subrange(start as int, end as int);
    let mut i: usize = 0;
    while i < len
        invariant
            i <= len == end - start,
            end <= chars.len(),
            len == word@.len(),
            part == chars@.subrange(start as int, end as int),
            forall|k: int| 0 <= k < i ==> folded(part[k]) == folded(word@[k]),
        decreases len - i,
    {
        if fold_char(chars[start + i]) != fold_char(word.get_char(i)) {
            assert(part[i as int] == chars@[start + i]);
            return false;
        }
        assert(part[i as int] == chars@[start + i]);
        i = i + 1;
    }
    true
}

proof fn lemma_digits_value_grows(s: Seq<char>, k: int)
    requires
        0 <= k <= s.len(),
        all_digits(s),
    ensures
        digits_value(s.take(k)) <= digits_value(s),
    decreases s.len() - k,
{
    if k < s.len() {
        lemma_digits_value_grows(s, k + 1);
        assert(s.take(k + 1).drop_last() =~= s.take(k));
    } else {
        assert(s.take(k) =~= s);
    }
}

/// Reads a number: digits, with a plus sign before them or without.
fn read_number(chars: &Vec<char>, start: usize, end: usize) -> (number: Option<usize>)
    requires
        start <= end <= chars.len(),
    ensures
        number == number_of(chars@.subrange(start as int, end as int)),
{
    let ghost part = chars@.subrange(start as int, end as int);
    let first: usize = if start < end && chars[start] == '+' {
        start + 1
    } else {
        start
    };
    let ghost body = chars@.subrange(first as int, end as int);
    proof {
        if start < end {
            assert(part[0] == chars@[start as int]);
        }
        assert(body =~= unsigned_part(part));
    }
    if first == end {
        return None;
    }
    let mut value: usize = 0;
    let mut i: usize = first;
    while i < end
        invariant
            start <= first <= i <= end <= chars.len(),
            first < end,
            part == chars@.subrange(start as int, end as int),
            body == chars@.subrange(first as int, end as int),
            body == unsigned_part(part),
            forall|k: int| 0 <= k < i - first ==> is_digit(body[k]),
            value == digits_value(body.take(i - first)),
        decreases end - i,
    {
        let c = chars[i];
        assert(body[i - first] == c);
        if !('0' <= c && c <= '9') {
            assert(!is_digit(body[i - first]));
            assert(!all_digits(body));
            return None;
        }
        let digit: usize = (c as u32 - '0' as u32) as usize;
        proof {
            assert(body.take(i - first + 1).drop_last() =~= body.take(i - first));
            assert(digits_value(body.take(i - first + 1)) == 10 * value + digit);
        }
        if value > (usize::MAX - digit) / 10 {
            proof {
                if all_digits(body) {
                    lemma_digits_value_grows(body, i - first + 1);
                    assert(digits_value(body) > usize::MAX);
                }
            }
            return None;
        }
        value = value * 10 + digit;
        i = i + 1;
    }
    assert(body.take(end - first) =~= body);
    assert(all_digits(body));
    Some(value)
}

/// Reads the command of a text that has no white space around it.
fn read_word(chars: &Vec<char>, start: usize, end: usize) -> (command: Command)
    requires
        start <= end <= chars.len(),
    ensures
        command == word_command(chars@.subrange(start as int, end as int)),
{
    if start == end {
        Command::Empty
    } else if matches_word(chars, start, end, "exit") || matches_word(chars, start, end, "quit") {
        Command::Exit
    } else if matches_word(chars, start, end, "restart") {
        Command::Restart
    } else if matches_word(chars, start, end, "start") {
        Command::Start
    } else if matches_word(chars, start, end, "s") {
        Command::ShortS
    } else if matches_word(chars, start, end, "f") || matches_word(chars, start, end, "face") {
        Command::Face
    } else if matches_word(chars, start, end, "skip") {
        Command::Skip
    } else if matches_word(chars, start, end, "y") {
        Command::Yes
    } else if matches_word(chars, start, end, "n") {
        Command::No
    } else if matches_word(chars, start, end, "ok") {
        Command::Acknowledge
    } else {
        match read_number(chars, start, end) {
            Some(n) => Command::Number(n),
            None => Command::Other,
        }
    }
}

/// Reads a line of input: white space around it counts for nothing, words
/// are taken in capital or small letters alike.
pub fn parse_command(text: &str) -> (command: Command)
    ensures
        command == command_of(text@),
{
    let chars = chars_of(text);
    let (start, end) = trim_bounds(&chars);
    read_word(&chars, start, end)
}

/// Reads a line of input and tells where its text begins and ends.
fn read_line(text: &str) -> (read: (Command, usize, usize))
    ensures
        read.0 == command_of(text@),
        read.1 <= read.2 <= text@.len(),
        text@.subrange(read.1 as int, read.2 as int) == trimmed(text@),
{
    let chars = chars_of(text);
    let (start, end) = trim_bounds(&chars);
    (read_word(&chars, start, end), start, end)
}

impl GameView {
    /// The game with another message.
    pub open spec fn with_message(self, message: Seq<char>) -> GameView {
        GameView { message, ..self }
    }

    /// The game with the echo of what the player typed.
    pub open spec fn echo(self, text: Seq<char>) -> GameView {
        GameView { last_command_feedback: messages::CMD_PREFIX@ + text, ..self }
    }

    /// Picking a card by pointing at it.
    pub open spec fn select_card(self, idx: int) -> GameView {
        if self.state == GameState::CardSelection {
            self.play_card_from_slot(idx)
        } else {
            self.guided()
        }
    }

    /// The hint line that goes with the point at which the game stands.
    pub open spec fn hint(self) -> Seq<char> {
        match self.state {
            GameState::MainMenu => messages::HINT_MAIN@,
            GameState::RoomChoice => if self.can_skip {
                messages::HINT_ROOM_CHOICE_CAN_SKIP@
            } else {
                messages::HINT_ROOM_CHOICE_NO_SKIP@
            },
            GameState::CardSelection => messages::HINT_CARD_SELECTION@,
            GameState::CardInteraction => if self.awaiting_weapon_choice {
                messages::HINT_PROMPT_WEAPON@
            } else {
                messages::HINT_INTERACTION_ACK@
            },
            GameState::GameOver => messages::HINT_GAME_OVER@,
        }
    }

    /// The commands that make sense where the game stands, before the two
    /// that always do.
    pub open spec fn offered_commands(self) -> Seq<char> {
        match self.state {
            GameState::MainMenu => "start"@,
            GameState::RoomChoice => if self.can_skip {
                "f | s"@
            } else {
                "f"@
            },
            GameState::CardSelection => "1..4"@,
            GameState::CardInteraction => if self.awaiting_weapon_choice {
                "y/n"@
            } else {
                "(Enter)"@
            },
            GameState::GameOver => "restart"@,
        }
    }

    /// The message to show: the game's own, or one that fits the point at
    /// which the game stands when the game has none.
    pub open spec fn shown_message(self) -> Seq<char> {
        if self.message.len() != 0 {
            self.message
        } else {
            match self.state {
                GameState::MainMenu => "Welcome, Scoundrel."@,
                GameState::RoomChoice => messages::NEED_FACE_OR_SKIP@,
                GameState::CardSelection => "Choose a card."@,
                GameState::CardInteraction => if self.awaiting_weapon_choice {
                    messages::NEED_Y_OR_N@
                } else {
                    messages::HINT_INTERACTION_ACK@
                },
                GameState::GameOver => if monsters(self.remaining()) == 0 {
                    messages::NO_MONSTERS_REMAIN@
                } else {
                    messages::threat_text(threat(self.remaining()))
                },
            }
        }
    }

    /// What a command other than an empty line, `exit` and `restart` does
    /// where the game stands.
    pub open spec fn obey(self, command: Command) -> GameView {
        match self.state {
            GameState::MainMenu => if command is Start || command is ShortS {
                self.enter_dungeon()
            } else {
                self.with_message(messages::NEED_START@)
            },
            GameState::RoomChoice => if command is Face {
                self.face_room()
            } else if command is ShortS || command is Skip {
                self.skip_room()
            } else if self.can_skip {
                self.with_message(messages::NEED_FACE_OR_SKIP@)
            } else {
                self.with_message(messages::NEED_FACE_ONLY@)
            },
            GameState::CardSelection => match command {
                Command::Number(n) => self.play_card_from_slot(
                    if n == 0 {
                        0
                    } else {
                        n - 1
                    },
                ),
                _ => self.with_message(messages::NEED_SELECT_CARD@),
            },
            GameState::CardInteraction => if self.awaiting_weapon_choice {
                if command is Yes {
                    self.answer_weapon_prompt(true)
                } else if command is No {
                    self.answer_weapon_prompt(false)
                } else {
                    self.with_message(messages::NEED_Y_OR_N@)
                }
            } else if command is Acknowledge {
                self.advance()
            } else {
                self
            },
            GameState::GameOver => self.with_message(messages::RESTART_HELP@),
        }
    }

    /// What a line of input makes of the game, but for `restart`, which
    /// starts a new game on a deck that chance decides. An empty line goes on
    /// after a resolved card and does nothing elsewhere. Any other line is
    /// echoed; `exit` does no more; the rest is obeyed, and a player left
    /// without health is dead.
    pub open spec fn submit(self, text: Seq<char>) -> GameView {
        let command = command_of(text);
        match command {
            Command::Empty => if self.state == GameState::CardInteraction
                && !self.awaiting_weapon_choice {
                self.advance()
            } else {
                self
            },
            Command::Exit => self.echo(trimmed(text)),
            _ => self.echo(trimmed(text)).obey(command).guard_death(),
        }
    }
}

/// An echo, a message or the end of a lost game leave the cards alone.
pub proof fn lemma_words_keep_wf(v: GameView, message: Seq<char>, text: Seq<char>)
    requires
        v.wf(),
    ensures
        v.with_message(message).wf(),
        v.echo(text).wf(),
        v.guard_death().wf(),
{
    assert(v.with_message(message).all_cards() =~= v.all_cards());
    assert(v.echo(text).all_cards() =~= v.all_cards());
    assert(v.guard_death().all_cards() =~= v.all_cards());
}

/// Whatever the player types, the game stays sound.
pub proof fn lemma_submit_wf(v: GameView, text: Seq<char>)
    requires
        v.wf(),
    ensures
        v.submit(text).wf(),
        forall|command: Command| (#[trigger] v.obey(command)).wf(),
        forall|idx: int| (#[trigger] v.select_card(idx)).wf(),
{
    assert forall|command: Command| (#[trigger] v.obey(command)).wf() by {
        lemma_obey_wf(v, command);
    }
    assert forall|idx: int| (#[trigger] v.select_card(idx)).wf() by {
        lemma_play_card_wf(v, idx);
        crate::laws::lemma_guided(v);
    }
    lemma_advance_wf(v);
    let echoed = v.echo(trimmed(text));
    lemma_words_keep_wf(v, Seq::empty(), trimmed(text));
    lemma_obey_wf(echoed, command_of(text));
    lemma_words_keep_wf(echoed.obey(command_of(text)), Seq::empty(), Seq::empty());
}

/// Obeying a command keeps a game sound.
pub proof fn lemma_obey_wf(v: GameView, command: Command)
    requires
        v.wf(),
    ensures
        v.obey(command).wf(),
{
    lemma_enter_dungeon_wf(v);
    lemma_face_room_wf(v);
    lemma_skip_room_wf(v);
    lemma_advance_wf(v);
    lemma_answer_wf(v, true);
    lemma_answer_wf(v, false);
    if let Command::Number(n) = command {
        lemma_play_card_wf(
            v,
            if n == 0 {
                0
            } else {
                n - 1
            },
        );
    }
    lemma_words_keep_wf(v, messages::NEED_START@, Seq::empty());
    lemma_words_keep_wf(v, messages::NEED_FACE_OR_SKIP@, Seq::empty());
    lemma_words_keep_wf(v, messages::NEED_FACE_ONLY@, Seq::empty());
    lemma_words_keep_wf(v, messages::NEED_SELECT_CARD@, Seq::empty());
    lemma_words_keep_wf(v, messages::NEED_Y_OR_N@, Seq::empty());
    lemma_words_keep_wf(v, messages::RESTART_HELP@, Seq::empty());
}

impl GameView {
    /// What holds of a game after every click and every line of input: the
    /// player has health left, or the game is over and lost.
    pub open spec fn alive_or_lost(self) -> bool {
        self.health >= 1 || (self.state == GameState::GameOver && !self.survived)
    }
}

/// The step after a card leaves no player without health in the game.
pub proof fn lemma_advance_alive(v: GameView)
    requires
        v.room.len() == crate::model::ROOM_SIZE,
    ensures
        v.advance().alive_or_lost(),
{
    crate::laws::lemma_advance_frame(v);
}

/// Dealing, facing and skipping leave the health as it is.
pub proof fn lemma_room_moves_keep_health(v: GameView)
    requires
        v.room.len() == crate::model::ROOM_SIZE,
    ensures
        v.enter_dungeon().health == v.health,
        v.enter_dungeon().state == GameState::RoomChoice,
        v.face_room().health == v.health,
        v.face_room().state == if v.state == GameState::RoomChoice {
            GameState::CardSelection
        } else {
            v.state
        },
        v.skip_room().health == v.health,
{
    crate::laws::lemma_fill_room(v);
    if v.can_skip {
        crate::laws::lemma_return_room(v);
        crate::laws::lemma_fill_room(GameView { can_skip: false, ..v.return_room() });
    }
}

/// A new game has health, before and after the first room is dealt.
pub proof fn lemma_new_game_alive(deck: Seq<Card>)
    ensures
        GameView::initial(deck).alive_or_lost(),
        GameView::initial(deck).enter_dungeon().alive_or_lost(),
{
    assert(GameView::initial(deck).room.len() == crate::model::ROOM_SIZE);
    lemma_room_moves_keep_health(GameView::initial(deck));
}

/// A command that is obeyed, and then the look for a player without health,
/// leave the player with health or the game lost.
pub proof fn lemma_obey_alive(v: GameView, command: Command)
    requires
        v.room.len() == crate::model::ROOM_SIZE,
        v.alive_or_lost(),
    ensures
        v.obey(command).guard_death().alive_or_lost(),
{
    match v.state {
        GameState::MainMenu => {
            lemma_room_moves_keep_health(v);
        },
        GameState::RoomChoice => {
            lemma_room_moves_keep_health(v);
        },
        GameState::CardSelection => {
            if let Command::Number(n) = command {
                let idx: int = if n == 0 {
                    0
                } else {
                    n - 1
                };
                if 0 <= idx < crate::model::ROOM_SIZE && v.room[idx] is Some {
                    lemma_play_alive(v, idx);
                }
            }
        },
        GameState::CardInteraction => {
            lemma_advance_alive(v);
        },
        GameState::GameOver => {},
    }
}

/// A game played by clicks and lines of input never goes on without health:
/// every click and every line leaves the player with health or the game
/// lost.
pub proof fn lemma_front_end_alive(v: GameView, text: Seq<char>, idx: int)
    requires
        v.wf(),
        v.alive_or_lost(),
    ensures
        v.submit(text).alive_or_lost(),
        v.select_card(idx).alive_or_lost(),
{
    lemma_advance_alive(v);
    lemma_obey_alive(v.echo(trimmed(text)), command_of(text));
    if v.state == GameState::CardSelection && 0 <= idx < crate::model::ROOM_SIZE && v.room[idx]
        is Some {
        lemma_play_alive(v, idx);
    }
}

/// A card that is played leaves the player with health or waiting for the
/// weapon question, or the game lost.
pub proof fn lemma_play_alive(v: GameView, idx: int)
    requires
        v.room.len() == crate::model::ROOM_SIZE,
        v.alive_or_lost(),
        v.state == GameState::CardSelection,
        0 <= idx < crate::model::ROOM_SIZE,
        v.room[idx] is Some,
    ensures
        v.play_card_from_slot(idx).alive_or_lost(),
{
    let card = v.room[idx]->0;
    let taken = v.take_slot(idx);
    if card.is_monster() {
        if !taken.can_use_weapon_on(card) {
            lemma_advance_alive(
                GameView {
                    health: taken.health - card.value,
                    message: messages::fought_bare_text(card.value as int),
                    current_monster: Some(card),
                    discarded: taken.discarded.push(card),
                    state: GameState::CardInteraction,
                    ..taken
                },
            );
        }
    } else if card.is_weapon() {
        lemma_advance_alive(
            GameView {
                weapon: Some(card),
                last_monster_slain_with_weapon: None,
                discarded: taken.discarded + crate::model::slot_seq(taken.weapon),
                state: GameState::CardInteraction,
                message: messages::equipped_text(card),
                ..taken
            },
        );
    } else if card.is_potion() {
        let drunk = GameView {
            discarded: taken.discarded.push(card),
            state: GameState::CardInteraction,
            ..taken
        };
        if !taken.potion_used_this_room {
            lemma_advance_alive(
                GameView {
                    health: if taken.health + card.value < taken.max_health {
                        taken.health + card.value
                    } else {
                        taken.max_health
                    },
                    potion_used_this_room: true,
                    message: messages::healed_text(card.value as int),
                    ..drunk
                },
            );
        } else {
            lemma_advance_alive(GameView { message: messages::POTION_WASTED@, ..drunk });
        }
    }
}

/// Clicks and lines of input make every move where the game waits for it:
/// they leave a game in turn, so that its survivor has cleared the dungeon.
pub proof fn lemma_front_end_in_turn(v: GameView, text: Seq<char>, idx: int)
    requires
        v.room.len() == crate::model::ROOM_SIZE,
        v.in_turn(),
    ensures
        v.submit(text).in_turn(),
        v.select_card(idx).in_turn(),
{
    crate::laws::lemma_moves_in_turn(v, idx, true);
    let echoed = v.echo(trimmed(text));
    let command = command_of(text);
    crate::laws::lemma_moves_in_turn(echoed, 0, true);
    crate::laws::lemma_moves_in_turn(echoed, 0, false);
    if let Command::Number(n) = command {
        crate::laws::lemma_moves_in_turn(
            echoed,
            if n == 0 {
                0
            } else {
                n - 1
            },
            true,
        );
    }
}

/// The survivor of a game played by clicks and lines of input scores the
/// health left, which is one at least.
pub proof fn lemma_survivor_score(v: GameView)
    requires
        v.alive_or_lost(),
        v.survived,
    ensures
        v.final_score() == v.health,
        v.final_score() >= 1,
{
}

impl Game {
    /// Picks the card of a position by pointing at it: the card is played
    /// where cards can be picked; elsewhere the player is told what the game
    /// waits for.
    pub fn select_card(&mut self, idx: usize)
        requires
            old(self).wf(),
        ensures
            final(self).wf(),
            final(self)@ == old(self)@.select_card(idx as int),
            old(self)@.alive_or_lost() ==> final(self)@.alive_or_lost(),
    {
        proof {
            lemma_submit_wf(old(self)@, Seq::empty());
            if old(self)@.alive_or_lost() {
                lemma_front_end_alive(old(self)@, Seq::empty(), idx as int);
            }
        }
        match self.state() {
            GameState::CardSelection => {
                let _ = self.play_card_from_slot(idx);
            },
            _ => self.guide(),
        }
    }

    /// Obeys a command other than an empty line, `exit` and `restart`, as
    /// fits the point at which the game stands.
    pub fn obey(&mut self, command: Command)
        requires
            old(self).wf(),
        ensures
            final(self).wf(),
            final(self)@ == old(self)@.obey(command),
    {
        proof {
            lemma_obey_wf(old(self)@, command);
        }
        match self.state() {
            GameState::MainMenu => {
                match command {
                    Command::Start | Command::ShortS => self.enter_dungeon(),
                    _ => self.set_message(String::from_str(messages::NEED_START)),
                }
            },
            GameState::RoomChoice => {
                match command {
                    Command::Face => self.face_room(),
                    Command::ShortS | Command::Skip => self.skip_room(),
                    _ => {
                        if self.can_skip() {
                            self.set_message(String::from_str(messages::NEED_FACE_OR_SKIP));
                        } else {
                            self.set_message(String::from_str(messages::NEED_FACE_ONLY));
                        }
                    },
                }
            },
            GameState::CardSelection => {
                match command {
                    Command::Number(n) => {
                        let idx: usize = if n == 0 {
                            0
                        } else {
                            n - 1
                        };
                        let _ = self.play_card_from_slot(idx);
                    },
                    _ => self.set_message(String::from_str(messages::NEED_SELECT_CARD)),
                }
            },
            GameState::CardInteraction => {
                if self.awaiting_weapon_choice() {
                    match command {
                        Command::Yes => {
                            let _ = self.answer_weapon_prompt(true);
                        },
                        Command::No => {
                            let _ = self.answer_weapon_prompt(false);
                        },
                        _ => self.set_message(String::from_str(messages::NEED_Y_OR_N)),
                    }
                } else {
                    match command {
                        Command::Acknowledge => self.continue_after_interaction(),
                        _ => {},
                    }
                }
            },
            GameState::GameOver => self.set_message(String::from_str(messages::RESTART_HELP)),
        }
    }

    /// Takes a line that the player typed and tells whether the player wants
    /// to leave. `restart` starts a new game in the dungeon on a freshly
    /// shuffled deck; every other line does what [`GameView::submit`] says.
    pub fn submit_command(&mut self, text: &str) -> (quit: bool)
        requires
            old(self).wf(),
        ensures
            final(self).wf(),
            quit == (command_of(text@) is Exit),
            !(command_of(text@) is Restart) ==> final(self)@ == old(self)@.submit(text@),
            command_of(text@) is Restart ==> exists|deck: Seq<Card>|
                crate::card::is_full_deck(deck) && final(self)@ == GameView::initial(
                    deck,
                ).enter_dungeon(),
            old(self)@.alive_or_lost() || command_of(text@) is Restart ==> final(self)@.alive_or_lost(),
    {
        proof {
            lemma_submit_wf(old(self)@, text@);
            if old(self)@.alive_or_lost() {
                lemma_front_end_alive(old(self)@, text@, 0);
            }
        }
        let (command, start, end) = read_line(text);
        match command {
            Command::Empty => {
                if self.state() == GameState::CardInteraction && !self.awaiting_weapon_choice() {
                    self.continue_after_interaction();
                }
                return false;
            },
            _ => {},
        }
        let mut feedback = String::from_str(messages::CMD_PREFIX);
        feedback.append(text.substring_char(start, end));
        self.set_last_command_feedback(feedback);
        assert(self@ == old(self)@.echo(trimmed(text@)));
        match command {
            Command::Exit => true,
            Command::Restart => {
                self.reset_to_playing();
                proof {
                    let deck = choose|deck: Seq<Card>|
                        crate::card::is_full_deck(deck) && self@ == GameView::initial(
                            deck,
                        ).enter_dungeon();
                    lemma_new_game_alive(deck);
                }
                false
            },
            _ => {
                self.obey(command);
                self.check_death();
                false
            },
        }
    }

    /// The hint line that goes with the point at which the game stands.
    pub fn state_hint(&self) -> (hint: &'static str)
        ensures
            hint@ == self@.hint(),
    {
        match self.state() {
            GameState::MainMenu => messages::HINT_MAIN,
            GameState::RoomChoice => {
                if self.can_skip() {
                    messages::HINT_ROOM_CHOICE_CAN_SKIP
                } else {
                    messages::HINT_ROOM_CHOICE_NO_SKIP
                }
            },
            GameState::CardSelection => messages::HINT_CARD_SELECTION,
            GameState::CardInteraction => {
                if self.awaiting_weapon_choice() {
                    messages::HINT_PROMPT_WEAPON
                } else {
                    messages::HINT_INTERACTION_ACK
                }
            },
            GameState::GameOver => messages::HINT_GAME_OVER,
        }
    }

    /// The commands to offer in an empty input line: those that make sense
    /// where the game stands, then `restart` and `exit`.
    pub fn command_placeholder(&self) -> (offer: String)
        ensures
            offer@ == self@.offered_commands() + " | restart | exit"@,
    {
        let mut offer = String::new();
        match self.state() {
            GameState::MainMenu => offer.append("start"),
            GameState::RoomChoice => {
                if self.can_skip() {
                    offer.append("f | s");
                } else {
                    offer.append("f");
                }
            },
            GameState::CardSelection => offer.append("1..4"),
            GameState::CardInteraction => {
                if self.awaiting_weapon_choice() {
                    offer.append("y/n");
                } else {
                    offer.append("(Enter)");
                }
            },
            GameState::GameOver => offer.append("restart"),
        }
        assert(offer@ =~= self@.offered_commands());
        offer.append(" | restart | exit");
        offer
    }

    /// The message to show: the game's own, or one that fits the point at
    /// which the game stands when the game has none.
    pub fn shown_message(&self) -> (message: String)
        requires
            self.wf(),
        ensures
            message@ == self@.shown_message(),
    {
        if self.message().unicode_len() != 0 {
            return String::from_str(self.message());
        }
        match self.state() {
            GameState::MainMenu => String::from_str("Welcome, Scoundrel."),
            GameState::RoomChoice => String::from_str(messages::NEED_FACE_OR_SKIP),
            GameState::CardSelection => String::from_str("Choose a card."),
            GameState::CardInteraction => {
                if self.awaiting_weapon_choice() {
                    String::from_str(messages::NEED_Y_OR_N)
                } else {
                    String::from_str(messages::HINT_INTERACTION_ACK)
                }
            },
            GameState::GameOver => self.remaining_summary_line(),
        }
    }
}

/// What a card will do if it is picked now.
pub open spec fn tooltip_text(card: Card, v: GameView) -> Seq<char> {
    if card.is_monster() {
        if v.weapon is Some {
            if v.can_use_weapon_on(card) {
                "Monster (ATK "@ + digits(card.value as nat) + ") - With weapon: "@ + numeral(
                    v.armed_damage(card),
                ) + " damage"@
            } else {
                "Monster (ATK "@ + digits(card.value as nat) + ") - Weapon degraded. Will take "@
                    + digits(card.value as nat) + " damage"@
            }
        } else {
            "Monster (ATK "@ + digits(card.value as nat) + ")"@
        }
    } else if card.is_weapon() {
        "Weapon (ATK "@ + digits(card.value as nat) + ")"@ + match v.last_monster_slain_with_weapon {
            Some(l) => " (updates to < "@ + digits(l as nat) + ")"@,
            None => " (no restriction)"@,
        }
    } else if card.is_potion() {
        "Potion (Heal for "@ + digits(card.value as nat) + ")"@
    } else {
        "Unknown card"@
    }
}

/// The line that tells how many cards the deck holds.
pub open spec fn deck_text(count: nat) -> Seq<char> {
    "Cards left in Dungeon: "@ + digits(count)
}

/// The line that tells the final score.
pub open spec fn score_text(score: int) -> Seq<char> {
    "FINAL SCORE: "@ + numeral(score)
}

/// The line under the room that tells how many cards are still to be picked.
pub open spec fn footer_text(left: nat) -> Seq<char> {
    "Interactions left in this room: "@ + digits(left)
}

/// The label of a position of the room: its number, counted from one, and
/// its card.
pub open spec fn slot_text(idx: nat, slot: Option<Card>) -> Seq<char> {
    match slot {
        Some(c) => "["@ + digits(idx + 1) + "] "@ + card_label(c),
        None => "[ ] empty"@,
    }
}

/// Describes what a card will do if it is picked now: the damage of a
/// monster with the weapon in hand, the strength of a weapon, the healing of
/// a potion.
pub fn card_tooltip_text(card: Card, game: &Game) -> (tip: String)
    ensures
        tip@ == tooltip_text(card, game@),
{
    let mut tip = String::new();
    if card.suit == 'S' || card.suit == 'C' {
        tip.append("Monster (ATK ");
        push_digits(&mut tip, card.value as u64);
        if let Some(weapon) = game.weapon() {
            if game.can_use_weapon_on(card) {
                let damage: i32 = if card.value > weapon.value {
                    (card.value - weapon.value) as i32
                } else {
                    0
                };
                tip.append(") - With weapon: ");
                push_numeral(&mut tip, damage);
                tip.append(" damage");
            } else {
                tip.append(") - Weapon degraded. Will take ");
                push_digits(&mut tip, card.value as u64);
                tip.append(" damage");
            }
        } else {
            tip.append(")");
        }
    } else if card.suit == 'D' {
        tip.append("Weapon (ATK ");
        push_digits(&mut tip, card.value as u64);
        tip.append(")");
        match game.last_monster_slain_with_weapon() {
            Some(l) => {
                tip.append(" (updates to < ");
                push_digits(&mut tip, l as u64);
                tip.append(")");
            },
            None => {
                tip.append(" (no restriction)");
            },
        }
    } else if card.suit == 'H' {
        tip.append("Potion (Heal for ");
        push_digits(&mut tip, card.value as u64);
        tip.append(")");
    } else {
        tip.append("Unknown card");
    }
    assert(tip@ =~= tooltip_text(card, game@));
    tip
}

/// Formats the line that tells how many cards the deck holds.
pub fn deck_line(count: usize) -> (line: String)
    ensures
        line@ == deck_text(count as nat),
{
    let mut line = String::new();
    line.append("Cards left in Dungeon: ");
    push_digits(&mut line, count as u64);
    assert(line@ =~= deck_text(count as nat));
    line
}

/// Formats the line that tells the final score.
pub fn score_line(score: i32) -> (line: String)
    ensures
        line@ == score_text(score as int),
{
    let mut line = String::new();
    line.append("FINAL SCORE: ");
    push_numeral(&mut line, score);
    assert(line@ =~= score_text(score as int));
    line
}

/// Formats the line under the room; there is one while cards are picked.
pub fn room_footer(game: &Game) -> (line: Option<String>)
    ensures
        line is Some <==> game@.state == GameState::CardSelection,
        line matches Some(l) ==> l@ == footer_text(game@.interactions_left_in_room),
{
    match game.state() {
        GameState::CardSelection => {
            let mut line = String::new();
            line.append("Interactions left in this room: ");
            push_digits(&mut line, game.interactions_left_in_room() as u64);
            assert(line@ =~= footer_text(game@.interactions_left_in_room));
            Some(line)
        },
        _ => None,
    }
}

/// Formats the label of a position of the room.
pub fn slot_label(idx: usize, slot: Option<Card>) -> (label: String)
    requires
        idx < usize::MAX,
    ensures
        label@ == slot_text(idx as nat, slot),
{
    let mut label = String::new();
    match slot {
        Some(c) => {
            label.append("[");
            push_digits(&mut label, (idx + 1) as u64);
            label.append("] ");
            let text = card_text(c);
            label.append(text.as_str());
        },
        None => {
            label.append("[ ] empty");
        },
    }
    assert(label@ =~= slot_text(idx as nat, slot));
    label
}

} // verus!
