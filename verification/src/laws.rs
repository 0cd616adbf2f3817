//! What holds of every game: the moves keep a game sound, no card is lost or
//! made, a weapon wears down, and a game ends when it must.

use crate::card::{full_deck, lemma_ordered_deck, ordered_deck, Card, DECK_SIZE};
use crate::model::{
    monsters, room_cards, slot_cards, slot_count, slot_seq, threat, GameState, GameView, ROOM_SIZE,
};
use vstd::multiset::Multiset;
use vstd::prelude::*;
use vstd::seq_lib::*;

verus! {

/// A card that lies anywhere in a sound game is one of the 44 deck cards.
pub proof fn lemma_held_cards_in_deck(v: GameView, c: Card)
    requires
        v.wf(),
        v.all_cards().count(c) > 0,
    ensures
        c.in_deck(),
{
    broadcast use group_to_multiset_ensures;

    lemma_ordered_deck();
    assert(ordered_deck().to_multiset().count(c) > 0);
    assert(ordered_deck().contains(c));
}

/// The cards of the room, of the deck and the weapon of a sound game are deck
/// cards.
pub proof fn lemma_cards_in_deck(v: GameView)
    requires
        v.wf(),
    ensures
        forall|i: int|
            0 <= i < ROOM_SIZE ==> ((#[trigger] v.room[i]) matches Some(c) ==> c.in_deck()),
        forall|i: int| 0 <= i < v.deck.len() ==> (#[trigger] v.deck[i]).in_deck(),
        v.weapon matches Some(w) ==> w.in_deck(),
{
    broadcast use group_to_multiset_ensures;
    broadcast use vstd::multiset::group_multiset_axioms;

    assert forall|i: int| 0 <= i < ROOM_SIZE implies ((#[trigger] v.room[i]) matches Some(c)
        ==> c.in_deck()) by {
        if let Some(c) = v.room[i] {
            assert(slot_cards(v.room[i]).count(c) == 1);
            lemma_held_cards_in_deck(v, c);
        }
    }
    assert forall|i: int| 0 <= i < v.deck.len() implies (#[trigger] v.deck[i]).in_deck() by {
        assert(v.deck.contains(v.deck[i]));
        assert(v.deck.to_multiset().count(v.deck[i]) > 0);
        lemma_held_cards_in_deck(v, v.deck[i]);
    }
    if let Some(w) = v.weapon {
        assert(slot_cards(v.weapon).count(w) == 1);
        lemma_held_cards_in_deck(v, w);
    }
}

/// No card is lost and none is made: the cards in the room, in the deck, on
/// the ledger of cards that left the dungeon and in the player's hand are 44
/// at every point of a game.
pub proof fn lemma_conservation(v: GameView)
    requires
        v.wf(),
    ensures
        v.room_count() + v.deck.len() + v.discarded.len() + slot_count(v.weapon) == DECK_SIZE,
{
    broadcast use group_to_multiset_ensures;
    broadcast use vstd::multiset::group_multiset_axioms;

    lemma_ordered_deck();
    assert(full_deck().len() == ordered_deck().len());
    assert(v.deck.to_multiset().len() == v.deck.len());
    assert(v.discarded.to_multiset().len() == v.discarded.len());
    assert(forall|s: Option<Card>| (#[trigger] slot_cards(s)).len() == slot_count(s));
    assert(v.all_cards().len() == v.room_count() + v.deck.len() + v.discarded.len() + slot_count(
        v.weapon,
    ));
}

/// A game before its first move is sound when its deck is full.
pub proof fn lemma_initial_wf(deck: Seq<Card>)
    requires
        crate::card::is_full_deck(deck),
    ensures
        GameView::initial(deck).wf(),
{
    broadcast use group_to_multiset_ensures;
    broadcast use vstd::multiset::group_multiset_axioms;

    let v = GameView::initial(deck);
    assert(v.discarded.to_multiset() =~= Multiset::empty());
    assert(v.all_cards() =~= deck.to_multiset());
}

/// Dealing into one position keeps the cards and touches nothing else.
pub proof fn lemma_fill_slot(v: GameView, i: int)
    requires
        v.room.len() == ROOM_SIZE,
        0 <= i < ROOM_SIZE,
    ensures
        v.fill_slot(i).all_cards() =~= v.all_cards(),
        v.fill_slot(i).room.len() == ROOM_SIZE,
        v.fill_slot(i) == (GameView { room: v.fill_slot(i).room, deck: v.fill_slot(i).deck, ..v }),
{
    broadcast use group_to_multiset_ensures;
    broadcast use vstd::multiset::group_multiset_axioms;

    if v.room[i] is None && v.deck.len() > 0 {
        assert(v.deck.drop_first() =~= v.deck.remove(0));
        assert(v.deck.drop_first().to_multiset() =~= v.deck.to_multiset().remove(v.deck[0]));
        assert(v.deck.to_multiset().count(v.deck[0]) > 0) by {
            assert(v.deck.contains(v.deck[0]));
        }
    }
}

/// Dealing a room keeps a game sound and touches only room and deck.
pub proof fn lemma_fill_room(v: GameView)
    requires
        v.room.len() == ROOM_SIZE,
    ensures
        v.fill_room().all_cards() =~= v.all_cards(),
        v.fill_room().room.len() == ROOM_SIZE,
        v.fill_room() == (GameView { room: v.fill_room().room, deck: v.fill_room().deck, ..v }),
        v.wf() ==> v.fill_room().wf(),
{
    lemma_fill_slot(v, 0);
    let a = v.fill_slot(0);
    lemma_fill_slot(a, 1);
    let b = a.fill_slot(1);
    lemma_fill_slot(b, 2);
    let c = b.fill_slot(2);
    lemma_fill_slot(c, 3);
}

/// Returning the card of one position keeps the cards and touches nothing
/// else.
pub proof fn lemma_return_slot(v: GameView, i: int)
    requires
        v.room.len() == ROOM_SIZE,
        0 <= i < ROOM_SIZE,
    ensures
        v.return_slot(i).all_cards() =~= v.all_cards(),
        v.return_slot(i).room.len() == ROOM_SIZE,
        v.return_slot(i) == (GameView {
            room: v.return_slot(i).room,
            deck: v.return_slot(i).deck,
            ..v
        }),
{
    broadcast use group_to_multiset_ensures;
    broadcast use vstd::multiset::group_multiset_axioms;

}

/// Returning a room keeps a game sound and touches only room and deck.
pub proof fn lemma_return_room(v: GameView)
    requires
        v.room.len() == ROOM_SIZE,
    ensures
        v.return_room().all_cards() =~= v.all_cards(),
        v.return_room().room.len() == ROOM_SIZE,
        v.return_room() == (GameView {
            room: v.return_room().room,
            deck: v.return_room().deck,
            ..v
        }),
        v.wf() ==> v.return_room().wf(),
{
    lemma_return_slot(v, 0);
    let a = v.return_slot(0);
    lemma_return_slot(a, 1);
    let b = a.return_slot(1);
    lemma_return_slot(b, 2);
    let c = b.return_slot(2);
    lemma_return_slot(c, 3);
}

/// Entering the dungeon keeps a game sound.
pub proof fn lemma_enter_dungeon_wf(v: GameView)
    requires
        v.wf(),
    ensures
        v.enter_dungeon().wf(),
{
    lemma_fill_room(v);
}

/// Facing a room keeps a game sound.
pub proof fn lemma_face_room_wf(v: GameView)
    requires
        v.wf(),
    ensures
        v.face_room().wf(),
{
    lemma_guided(v);
}

/// Guidance changes the message and nothing else, so the game stays sound.
pub proof fn lemma_guided(v: GameView)
    ensures
        v.guided() == (GameView { message: v.guidance(), ..v }),
        v.guided().all_cards() =~= v.all_cards(),
        v.wf() ==> v.guided().wf(),
{
}

/// Skipping a room, allowed or not, keeps a game sound.
pub proof fn lemma_skip_room_wf(v: GameView)
    requires
        v.wf(),
    ensures
        v.skip_room().wf(),
{
    if v.can_skip {
        lemma_return_room(v);
        let back = GameView { can_skip: false, ..v.return_room() };
        assert(back.all_cards() =~= v.return_room().all_cards());
        lemma_fill_room(back);
    }
}

/// The step after a resolved card keeps a game sound.
pub proof fn lemma_advance_wf(v: GameView)
    requires
        v.wf(),
    ensures
        v.advance().wf(),
{
    if v.health > 0 {
        let left: nat = if v.interactions_left_in_room > 0 {
            (v.interactions_left_in_room - 1) as nat
        } else {
            0
        };
        let counted = GameView { interactions_left_in_room: left, ..v };
        assert(counted.all_cards() =~= v.all_cards());
        if left == 0 {
            let open = GameView { can_skip: true, ..counted };
            assert(open.all_cards() =~= v.all_cards());
            lemma_fill_room(open);
        }
    }
}

/// Remembering a slain monster keeps a game sound.
pub proof fn lemma_strike_wf(v: GameView, monster: Card)
    requires
        v.wf(),
    ensures
        v.strike(monster).wf(),
{
    assert(v.strike(monster).all_cards() =~= v.all_cards());
}

/// Taking a card out of the room leaves the other cards where they are.
pub proof fn lemma_take_slot(v: GameView, idx: int)
    requires
        v.wf(),
        0 <= idx < ROOM_SIZE,
        v.room[idx] is Some,
    ensures
        (v.room[idx]->0).in_deck(),
        v.take_slot(idx).room.len() == ROOM_SIZE,
        v.take_slot(idx).all_cards().insert(v.room[idx]->0) =~= full_deck(),
{
    broadcast use vstd::multiset::group_multiset_axioms;

    lemma_cards_in_deck(v);
}

/// Meeting a monster keeps a game sound.
pub proof fn lemma_meet_monster_wf(v: GameView, idx: int)
    requires
        v.wf(),
        0 <= idx < ROOM_SIZE,
        v.room[idx] is Some,
    ensures
        v.take_slot(idx).meet_monster(v.room[idx]->0).wf(),
{
    broadcast use group_to_multiset_ensures;
    broadcast use vstd::multiset::group_multiset_axioms;

    lemma_take_slot(v, idx);
    let card = v.room[idx]->0;
    let taken = v.take_slot(idx);
    let met = GameView {
        current_monster: Some(card),
        discarded: taken.discarded.push(card),
        state: GameState::CardInteraction,
        ..taken
    };
    assert(met.all_cards() =~= taken.all_cards().insert(card));
    if taken.can_use_weapon_on(card) {
        let asked = GameView {
            awaiting_weapon_choice: true,
            message: crate::messages::weapon_prompt_text(card, taken.weapon),
            ..met
        };
        assert(asked.all_cards() =~= met.all_cards());
    } else {
        let hit = GameView {
            health: taken.health - card.value,
            message: crate::messages::fought_bare_text(card.value as int),
            ..met
        };
        assert(hit.all_cards() =~= met.all_cards());
        assert(hit.wf());
        lemma_advance_wf(hit);
    }
}

/// Taking up a weapon keeps a game sound.
pub proof fn lemma_equip_wf(v: GameView, idx: int)
    requires
        v.wf(),
        0 <= idx < ROOM_SIZE,
        v.room[idx] matches Some(c) && c.is_weapon(),
    ensures
        v.take_slot(idx).equip(v.room[idx]->0).wf(),
{
    broadcast use group_to_multiset_ensures;
    broadcast use vstd::multiset::group_multiset_axioms;

    lemma_take_slot(v, idx);
    let card = v.room[idx]->0;
    let taken = v.take_slot(idx);
    let armed = GameView {
        weapon: Some(card),
        last_monster_slain_with_weapon: None,
        discarded: taken.discarded + crate::model::slot_seq(taken.weapon),
        state: GameState::CardInteraction,
        message: crate::messages::equipped_text(card),
        ..taken
    };
    assert(armed.discarded.to_multiset() =~= taken.discarded.to_multiset().add(
        slot_cards(taken.weapon),
    )) by {
        match taken.weapon {
            Some(w) => {
                assert(taken.discarded + seq![w] =~= taken.discarded.push(w));
            },
            None => {
                assert(taken.discarded + Seq::<Card>::empty() =~= taken.discarded);
            },
        }
    }
    assert(armed.all_cards() =~= taken.all_cards().insert(card));
    assert(armed.wf());
    lemma_advance_wf(armed);
}

/// Drinking a potion keeps a game sound.
pub proof fn lemma_drink_wf(v: GameView, idx: int)
    requires
        v.wf(),
        0 <= idx < ROOM_SIZE,
        v.room[idx] is Some,
    ensures
        v.take_slot(idx).drink(v.room[idx]->0).wf(),
{
    broadcast use group_to_multiset_ensures;
    broadcast use vstd::multiset::group_multiset_axioms;

    lemma_take_slot(v, idx);
    let card = v.room[idx]->0;
    let taken = v.take_slot(idx);
    let drunk = GameView {
        discarded: taken.discarded.push(card),
        state: GameState::CardInteraction,
        ..taken
    };
    assert(drunk.all_cards() =~= taken.all_cards().insert(card));
    if !taken.potion_used_this_room {
        let healed = GameView {
            health: if taken.health + card.value < taken.max_health {
                taken.health + card.value
            } else {
                taken.max_health
            },
            potion_used_this_room: true,
            message: crate::messages::healed_text(card.value as int),
            ..drunk
        };
        assert(healed.all_cards() =~= drunk.all_cards());
        assert(healed.wf());
        lemma_advance_wf(healed);
    } else {
        let wasted = GameView { message: crate::messages::POTION_WASTED@, ..drunk };
        assert(wasted.all_cards() =~= drunk.all_cards());
        assert(wasted.wf());
        lemma_advance_wf(wasted);
    }
}

/// Playing a card, or failing to, keeps a game sound.
pub proof fn lemma_play_card_wf(v: GameView, idx: int)
    requires
        v.wf(),
    ensures
        v.play_card_from_slot(idx).wf(),
{
    if v.state == GameState::CardSelection && 0 <= idx < ROOM_SIZE && v.room[idx] is Some {
        lemma_take_slot(v, idx);
        let card = v.room[idx]->0;
        if card.is_monster() {
            lemma_meet_monster_wf(v, idx);
        } else if card.is_weapon() {
            lemma_equip_wf(v, idx);
        } else if card.is_potion() {
            lemma_drink_wf(v, idx);
        }
    }
}

/// Answering the weapon question keeps a game sound.
pub proof fn lemma_answer_wf(v: GameView, use_weapon: bool)
    requires
        v.wf(),
    ensures
        v.answer_weapon_prompt(use_weapon).wf(),
{
    if v.awaiting_weapon_choice {
        let m = v.current_monster->0;
        let cleared = GameView { current_monster: None, awaiting_weapon_choice: false, ..v };
        assert(cleared.all_cards() =~= v.all_cards());
        assert(cleared.strike(m).all_cards() =~= v.all_cards());
        assert(0 <= v.armed_damage(m) <= m.value);
    } else {
        lemma_guided(v);
    }
}

/// Dealing a room leaves the occupied positions as they are and moves cards
/// only: what room and deck hold together stays as many.
pub proof fn lemma_fill_room_shape(v: GameView)
    requires
        v.room.len() == ROOM_SIZE,
    ensures
        forall|i: int|
            0 <= i < ROOM_SIZE && v.room[i] is Some ==> v.fill_room().room[i] == v.room[i],
        v.fill_room().room_count() + v.fill_room().deck.len() == v.room_count() + v.deck.len(),
{
}

/// Dealing a room looks at room and deck only: two games that differ in
/// anything else are dealt the same.
pub proof fn lemma_fill_room_frame(v: GameView, w: GameView)
    requires
        v.room == w.room,
        v.deck == w.deck,
    ensures
        v.fill_room().room == w.fill_room().room,
        v.fill_room().deck == w.fill_room().deck,
{
}

/// Death comes first: a player without health at the step after a card is
/// dead, whatever the room and the deck hold.
pub proof fn lemma_death_on_advance(v: GameView)
    ensures
        v.health <= 0 ==> v.advance().state == GameState::GameOver && !v.advance().survived,
        v.health <= 0 ==> v.advance() == (GameView {
            survived: false,
            state: GameState::GameOver,
            message: crate::messages::YOU_DIED@,
            ..v
        }),
{
}

/// A living player who finds room and deck empty after the step that follows
/// a card has survived, and is alive.
pub proof fn lemma_win_on_advance(v: GameView)
    requires
        v.room.len() == ROOM_SIZE,
    ensures
        v.health > 0 && v.advance().cleared() ==> v.advance().state == GameState::GameOver
            && v.advance().survived,
        v.advance().state == GameState::GameOver && v.advance().survived ==> v.advance().health
            >= 1 && v.advance().cleared(),
{
    if v.health > 0 {
        let left: nat = if v.interactions_left_in_room > 0 {
            (v.interactions_left_in_room - 1) as nat
        } else {
            0
        };
        let counted = GameView { interactions_left_in_room: left, ..v };
        if left == 0 {
            let open = GameView { can_skip: true, ..counted };
            lemma_fill_room(open);
        }
    }
}

/// A skip that leaves room and deck empty ends the game as survived.
pub proof fn lemma_win_on_skip(v: GameView)
    requires
        v.room.len() == ROOM_SIZE,
    ensures
        v.can_skip && v.skip_room().cleared() ==> v.skip_room().state == GameState::GameOver
            && v.skip_room().survived,
        !v.can_skip ==> v.skip_room() == (GameView {
            message: crate::messages::NEED_FACE_ONLY@,
            ..v
        }),
{
    if v.can_skip {
        lemma_return_room(v);
        let back = GameView { can_skip: false, ..v.return_room() };
        lemma_fill_room(back);
    }
}

/// The health of a sound game lies between what 44 aces can take and the
/// maximum.
pub proof fn lemma_health_range(v: GameView)
    requires
        v.wf(),
    ensures
        v.max_health - crate::card::MAX_MONSTER_RANK * DECK_SIZE <= v.health <= v.max_health,
{
    lemma_conservation(v);
}

/// One more card adds its rank to the threat if it is a monster, and counts
/// as one monster more.
pub proof fn lemma_threat_push(cards: Seq<Card>, card: Card)
    ensures
        threat(cards.push(card)) == threat(cards) + if card.is_monster() {
            card.value as int
        } else {
            0
        },
        monsters(cards.push(card)) == monsters(cards) + if card.is_monster() {
            1nat
        } else {
            0nat
        },
{
    assert(cards.push(card).drop_last() =~= cards);
}

/// A position adds the threat of its card, if it has one.
pub proof fn lemma_threat_slot(cards: Seq<Card>, slot: Option<Card>)
    ensures
        threat(cards + slot_seq(slot)) == threat(cards) + threat(slot_seq(slot)),
        monsters(cards + slot_seq(slot)) == monsters(cards) + monsters(slot_seq(slot)),
        threat(slot_seq(slot)) == (match slot {
            Some(c) => if c.is_monster() {
                c.value as int
            } else {
                0
            },
            None => 0,
        }),
        monsters(slot_seq(slot)) == (match slot {
            Some(c) => if c.is_monster() {
                1nat
            } else {
                0nat
            },
            None => 0nat,
        }),
{
    match slot {
        Some(c) => {
            assert(cards + seq![c] =~= cards.push(c));
            lemma_threat_push(cards, c);
            assert(seq![c] =~= Seq::<Card>::empty().push(c));
            lemma_threat_push(Seq::empty(), c);
        },
        None => {
            assert(cards + Seq::<Card>::empty() =~= cards);
        },
    }
}

/// Threat is never negative, and there are monsters exactly when there is
/// threat among cards of the deck.
pub proof fn lemma_threat_bounds(cards: Seq<Card>)
    requires
        forall|i: int| 0 <= i < cards.len() ==> (#[trigger] cards[i]).in_deck(),
    ensures
        0 <= threat(cards) <= crate::card::MAX_MONSTER_RANK * cards.len(),
        monsters(cards) <= cards.len(),
        monsters(cards) > 0 <==> threat(cards) > 0,
    decreases cards.len(),
{
    if cards.len() > 0 {
        assert(cards.last().in_deck());
        lemma_threat_bounds(cards.drop_last());
    }
}

/// What is left of a sound dungeon are deck cards, 44 at most.
pub proof fn lemma_remaining(v: GameView)
    requires
        v.wf(),
    ensures
        v.remaining().len() == v.room_count() + v.deck.len(),
        v.remaining().len() <= DECK_SIZE,
        forall|i: int| 0 <= i < v.remaining().len() ==> (#[trigger] v.remaining()[i]).in_deck(),
        0 <= threat(v.remaining()) <= crate::card::MAX_MONSTER_RANK * DECK_SIZE,
{
    lemma_conservation(v);
    lemma_cards_in_deck(v);
    let r = v.remaining();
    assert forall|i: int| 0 <= i < r.len() implies (#[trigger] r[i]).in_deck() by {
        let rc = room_cards(v.room);
        if i < rc.len() {
            assert(r[i] == rc[i]);
            assert(v.room[0] is Some ==> (v.room[0]->0).in_deck());
            assert(v.room[1] is Some ==> (v.room[1]->0).in_deck());
            assert(v.room[2] is Some ==> (v.room[2]->0).in_deck());
            assert(v.room[3] is Some ==> (v.room[3]->0).in_deck());
        } else {
            assert(r[i] == v.deck[i - rc.len()]);
        }
    }
    lemma_threat_bounds(r);
    assert(threat(r) <= crate::card::MAX_MONSTER_RANK * r.len());
    assert(crate::card::MAX_MONSTER_RANK * r.len() <= crate::card::MAX_MONSTER_RANK * DECK_SIZE)
        by (nonlinear_arith)
        requires
            r.len() <= DECK_SIZE,
    ;
}

/// The score of a survivor is the health left; the score of the dead is the
/// threat left in the dungeon, as a penalty, and never above zero.
pub proof fn lemma_score(v: GameView)
    requires
        v.wf(),
    ensures
        v.survived ==> v.final_score() == v.health,
        !v.survived ==> v.final_score() == -threat(v.remaining()) && v.final_score() <= 0,
        v.survived && v.health >= 0 ==> v.final_score() >= 0,
{
    lemma_remaining(v);
}

/// The threat of a part of the cards is no more than the threat of all.
pub proof fn lemma_threat_prefix(head: Seq<Card>, tail: Seq<Card>)
    ensures
        threat(head + tail) == threat(head) + threat(tail),
        monsters(head + tail) == monsters(head) + monsters(tail),
        threat(tail) >= 0,
    decreases tail.len(),
{
    if tail.len() == 0 {
        assert(head + tail =~= head);
    } else {
        assert((head + tail).drop_last() =~= head + tail.drop_last());
        lemma_threat_prefix(head, tail.drop_last());
    }
}

/// Kills change nothing but what the weapon remembers.
pub proof fn lemma_after_kills_frame(v: GameView, slain: Seq<Card>)
    ensures
        v.after_kills(slain) == (GameView {
            last_monster_slain_with_weapon: v.after_kills(slain).last_monster_slain_with_weapon,
            ..v
        }),
        v.weapon is Some && slain.len() > 0 ==> v.after_kills(
            slain,
        ).last_monster_slain_with_weapon == Some(slain.last().value),
        v.wf() ==> v.after_kills(slain).wf(),
    decreases slain.len(),
{
    if slain.len() > 0 {
        lemma_after_kills_frame(v, slain.drop_last());
        if v.wf() {
            lemma_strike_wf(v.after_kills(slain.drop_last()), slain.last());
        }
    }
}

/// A weapon wears down: after it has slain monsters one after the other, it
/// can be used on a monster exactly when that monster is weaker than the last
/// one slain.
pub proof fn lemma_weapon_degradation(v: GameView, slain: Seq<Card>, x: Card)
    requires
        v.weapon is Some,
        slain.len() > 0,
    ensures
        v.after_kills(slain).can_use_weapon_on(x) <==> x.value < slain.last().value,
{
    lemma_after_kills_frame(v, slain);
}

/// Monsters that the weapon was allowed to slay one after the other come in
/// falling rank.
pub proof fn lemma_kills_descend(v: GameView, slain: Seq<Card>, i: int, j: int)
    requires
        v.weapon is Some,
        v.kills_allowed(slain),
        0 <= i < j < slain.len(),
    ensures
        slain[j].value < slain[i].value,
    decreases slain.len(),
{
    let before = slain.drop_last();
    if j < slain.len() - 1 {
        lemma_kills_descend(v, before, i, j);
    } else {
        lemma_after_kills_frame(v, before);
        assert(before.last() == slain[j - 1]);
        if i < j - 1 {
            lemma_kills_descend(v, before, i, j - 1);
        }
    }
}

/// A new weapon is as good as new: taking one up forgets what the old one
/// had slain, whatever comes after in the same step.
pub proof fn lemma_equip_resets(v: GameView, card: Card, x: Card)
    requires
        v.room.len() == ROOM_SIZE,
    ensures
        v.equip(card).weapon == Some(card),
        v.equip(card).last_monster_slain_with_weapon is None,
        v.equip(card).can_use_weapon_on(x),
{
    let armed = GameView {
        weapon: Some(card),
        last_monster_slain_with_weapon: None,
        discarded: v.discarded + slot_seq(v.weapon),
        state: GameState::CardInteraction,
        message: crate::messages::equipped_text(card),
        ..v
    };
    lemma_advance_frame(armed);
}

/// The step after a card touches neither health nor weapon nor the ledger.
pub proof fn lemma_advance_frame(v: GameView)
    requires
        v.room.len() == ROOM_SIZE,
    ensures
        v.advance().health == v.health,
        v.advance().max_health == v.max_health,
        v.advance().weapon == v.weapon,
        v.advance().last_monster_slain_with_weapon == v.last_monster_slain_with_weapon,
        v.advance().discarded == v.discarded,
        v.advance().current_monster == v.current_monster,
        v.advance().awaiting_weapon_choice == v.awaiting_weapon_choice,
        v.advance().potion_used_this_room == v.potion_used_this_room,
        v.advance().last_command_feedback == v.last_command_feedback,
{
    if v.health > 0 {
        let left: nat = if v.interactions_left_in_room > 0 {
            (v.interactions_left_in_room - 1) as nat
        } else {
            0
        };
        let counted = GameView { interactions_left_in_room: left, ..v };
        if left == 0 {
            lemma_fill_room(GameView { can_skip: true, ..counted });
        }
    }
}

/// A new game is in turn.
pub proof fn lemma_new_game_in_turn(deck: Seq<Card>)
    ensures
        GameView::initial(deck).in_turn(),
{
}

/// The step after a card, taken where no weapon question is open, leaves the
/// game in turn.
pub proof fn lemma_advance_in_turn(v: GameView)
    requires
        v.room.len() == ROOM_SIZE,
        !v.survived,
        !v.awaiting_weapon_choice,
    ensures
        v.advance().in_turn(),
{
    lemma_advance_frame(v);
    lemma_win_on_advance(v);
    if v.health > 0 {
        let left: nat = if v.interactions_left_in_room > 0 {
            (v.interactions_left_in_room - 1) as nat
        } else {
            0
        };
        let counted = GameView { interactions_left_in_room: left, ..v };
        if left == 0 {
            lemma_fill_room(GameView { can_skip: true, ..counted });
        }
    }
}

/// A card played during card selection leaves the game in turn.
pub proof fn lemma_play_in_turn(v: GameView, idx: int)
    requires
        v.room.len() == ROOM_SIZE,
        v.in_turn(),
    ensures
        v.play_card_from_slot(idx).in_turn(),
{
    if v.state == GameState::CardSelection && 0 <= idx < ROOM_SIZE && v.room[idx] is Some {
        let card = v.room[idx]->0;
        let taken = v.take_slot(idx);
        if card.is_monster() {
            if !taken.can_use_weapon_on(card) {
                lemma_advance_in_turn(
                    GameView {
                        health: taken.health - card.value,
                        message: crate::messages::fought_bare_text(card.value as int),
                        current_monster: Some(card),
                        discarded: taken.discarded.push(card),
                        state: GameState::CardInteraction,
                        ..taken
                    },
                );
            }
        } else if card.is_weapon() {
            lemma_advance_in_turn(
                GameView {
                    weapon: Some(card),
                    last_monster_slain_with_weapon: None,
                    discarded: taken.discarded + slot_seq(taken.weapon),
                    state: GameState::CardInteraction,
                    message: crate::messages::equipped_text(card),
                    ..taken
                },
            );
        } else if card.is_potion() {
            let drunk = GameView {
                discarded: taken.discarded.push(card),
                state: GameState::CardInteraction,
                ..taken
            };
            if !taken.potion_used_this_room {
                lemma_advance_in_turn(
                    GameView {
                        health: if taken.health + card.value < taken.max_health {
                            taken.health + card.value
                        } else {
                            taken.max_health
                        },
                        potion_used_this_room: true,
                        message: crate::messages::healed_text(card.value as int),
                        ..drunk
                    },
                );
            } else {
                lemma_advance_in_turn(
                    GameView { message: crate::messages::POTION_WASTED@, ..drunk },
                );
            }
        }
    }
}

/// A skip at the choice of a room leaves the game in turn.
pub proof fn lemma_skip_in_turn(v: GameView)
    requires
        v.room.len() == ROOM_SIZE,
        v.in_turn(),
        v.state == GameState::RoomChoice,
    ensures
        v.skip_room().in_turn(),
{
    lemma_win_on_skip(v);
    if v.can_skip {
        lemma_return_room(v);
        lemma_fill_room(GameView { can_skip: false, ..v.return_room() });
    }
}

/// Every move made where the game waits for it leaves the game in turn: the
/// first room dealt at the main menu, a room faced or skipped at the choice
/// of a room, a card played, the weapon question answered, and the step
/// taken after a card is resolved and no question is open. Facing, playing
/// and answering out of turn change the message only, so they hold at every
/// point.
pub proof fn lemma_moves_in_turn(v: GameView, idx: int, use_weapon: bool)
    requires
        v.room.len() == ROOM_SIZE,
        v.in_turn(),
    ensures
        v.state == GameState::MainMenu ==> v.enter_dungeon().in_turn(),
        v.face_room().in_turn(),
        v.state == GameState::RoomChoice ==> v.skip_room().in_turn(),
        v.play_card_from_slot(idx).in_turn(),
        v.answer_weapon_prompt(use_weapon).in_turn(),
        v.state == GameState::CardInteraction && !v.awaiting_weapon_choice
            ==> v.advance().in_turn(),
{
    lemma_fill_room(v);
    lemma_play_in_turn(v, idx);
    if v.state == GameState::RoomChoice {
        lemma_skip_in_turn(v);
    }
    if v.state == GameState::CardInteraction && !v.awaiting_weapon_choice {
        lemma_advance_in_turn(v);
    }
}

/// The survivor of a game played in turn is alive, has cleared room and deck,
/// and scores the health left.
pub proof fn lemma_survivor(v: GameView)
    requires
        v.room.len() == ROOM_SIZE,
        v.in_turn(),
        v.survived,
    ensures
        v.state == GameState::GameOver,
        v.health >= 1,
        v.final_score() == v.health,
        v.final_score() >= 1,
        forall|i: int| 0 <= i < ROOM_SIZE ==> (#[trigger] v.room[i]) is None,
        v.deck.len() == 0,
        v.remaining() =~= Seq::<Card>::empty(),
{
}

} // verus!
