//! Playing cards and the composition of the dungeon deck.
//!
//! The dungeon is built from a standard pack with the red face cards and red
//! aces removed: spades and clubs are monsters (ranks 2 to 14), diamonds are
//! weapons and hearts are potions (ranks 2 to 10 each).

use vstd::multiset::Multiset;
use vstd::prelude::*;
use vstd::seq_lib::*;
use vstd::set_lib::*;

verus! {

/// Number of cards in a dungeon deck.
pub const DECK_SIZE: usize = 44;

/// Highest rank of a monster card (the ace).
pub const MAX_MONSTER_RANK: u8 = 14;

/// Highest rank of a weapon or potion card.
pub const MAX_UTILITY_RANK: u8 = 10;

/// A playing card: a suit letter (`'S'`, `'C'`, `'D'` or `'H'`) and a rank
/// from 2 to 14, where 11 to 14 stand for jack, queen, king and ace.
#[derive(Clone, Copy, Debug, PartialEq, Eq, Structural)]
pub struct Card {
    pub suit: char,
    pub value: u8,
}

impl Card {
    /// Spades and clubs are monsters.
    pub open spec fn is_monster(self) -> bool {
        self.suit == 'S' || self.suit == 'C'
    }

    /// Diamonds are weapons.
    pub open spec fn is_weapon(self) -> bool {
        self.suit == 'D'
    }

    /// Hearts are potions.
    pub open spec fn is_potion(self) -> bool {
        self.suit == 'H'
    }

    /// Whether the card is one of the 44 cards of a dungeon deck.
    pub open spec fn in_deck(self) -> bool {
        ||| self.is_monster() && 2 <= self.value <= MAX_MONSTER_RANK
        ||| (self.is_weapon() || self.is_potion()) && 2 <= self.value <= MAX_UTILITY_RANK
    }
}

/// The card at position `i` of a deck fresh from the box: spades, clubs,
/// diamonds, hearts, each suit in rising rank.
pub open spec fn deck_card(i: int) -> Card {
    if i < 13 {
        Card { suit: 'S', value: (i + 2) as u8 }
    } else if i < 26 {
        Card { suit: 'C', value: (i - 11) as u8 }
    } else if i < 35 {
        Card { suit: 'D', value: (i - 24) as u8 }
    } else {
        Card { suit: 'H', value: (i - 33) as u8 }
    }
}

/// Position of a deck card in the boxed order; the inverse of [`deck_card`].
pub open spec fn deck_index(card: Card) -> int {
    if card.suit == 'S' {
        card.value - 2
    } else if card.suit == 'C' {
        card.value + 11
    } else if card.suit == 'D' {
        card.value + 24
    } else {
        card.value + 33
    }
}

/// The 44 cards in boxed order.
pub open spec fn ordered_deck() -> Seq<Card> {
    Seq::new(DECK_SIZE as nat, |i: int| deck_card(i))
}

/// The cards of a dungeon deck, without regard to order.
pub open spec fn full_deck() -> Multiset<Card> {
    ordered_deck().to_multiset()
}

/// A sequence of cards is a full deck when it is a rearrangement of the boxed
/// order.
pub open spec fn is_full_deck(cards: Seq<Card>) -> bool {
    cards.to_multiset() =~= full_deck()
}

/// `deck_card` and `deck_index` are inverse to each other between the
/// positions `0..44` and the cards of the deck.
pub proof fn lemma_deck_positions()
    ensures
        forall|i: int|
            0 <= i < DECK_SIZE ==> (#[trigger] deck_card(i)).in_deck() && deck_index(deck_card(i))
                == i,
        forall|c: Card|
            c.in_deck() ==> 0 <= #[trigger] deck_index(c) < DECK_SIZE && deck_card(deck_index(c))
                == c,
{
}

/// The boxed order holds every deck card exactly once and nothing else.
pub proof fn lemma_ordered_deck()
    ensures
        ordered_deck().len() == DECK_SIZE,
        ordered_deck().no_duplicates(),
        forall|c: Card| ordered_deck().contains(c) <==> c.in_deck(),
{
    lemma_deck_positions();
    let o = ordered_deck();
    assert forall|c: Card| o.contains(c) <==> c.in_deck() by {
        if c.in_deck() {
            assert(o[deck_index(c)] == c);
        }
    }
    assert forall|i: int, j: int| 0 <= i < o.len() && 0 <= j < o.len() && i != j implies o[i]
        != o[j] by {
        assert(deck_index(o[i]) == i);
        assert(deck_index(o[j]) == j);
    }
}

/// A full deck has 44 cards, no card twice, and holds a card exactly when it
/// is a deck card: the ranks 2 to 14 of spades and of clubs, the ranks 2 to 10
/// of diamonds and of hearts.
pub proof fn lemma_full_deck_composition(cards: Seq<Card>)
    requires
        is_full_deck(cards),
    ensures
        cards.len() == DECK_SIZE,
        cards.no_duplicates(),
        forall|c: Card| cards.contains(c) <==> c.in_deck(),
        forall|c: Card| cards.to_multiset().count(c) == if c.in_deck() { 1nat } else { 0nat },
{
    broadcast use group_to_multiset_ensures;

    lemma_ordered_deck();
    let o = ordered_deck();
    o.lemma_multiset_has_no_duplicates();
    assert(cards.len() == cards.to_multiset().len() == o.to_multiset().len() == o.len());
    assert forall|c: Card| cards.to_multiset().count(c) == if c.in_deck() { 1nat } else { 0nat } by {
        assert(cards.to_multiset().count(c) == o.to_multiset().count(c));
        assert(o.contains(c) <==> o.to_multiset().count(c) > 0);
        assert(o.to_multiset().contains(c) <==> o.to_multiset().count(c) > 0);
    }
    assert forall|c: Card| cards.contains(c) <==> c.in_deck() by {
        assert(cards.contains(c) <==> cards.to_multiset().count(c) > 0);
    }
    assert forall|x: Card| cards.to_multiset().contains(x) implies cards.to_multiset().count(x)
        == 1 by {
        assert(cards.to_multiset().contains(x) <==> cards.to_multiset().count(x) > 0);
    }
    cards.lemma_multiset_has_no_duplicates_conv();
}

/// Forty-four distinct deck cards, in any order, are a full deck.
pub proof fn lemma_distinct_cards_fill_deck(cards: Seq<Card>)
    requires
        cards.len() == DECK_SIZE,
        cards.no_duplicates(),
        forall|i: int| 0 <= i < cards.len() ==> (#[trigger] cards[i]).in_deck(),
    ensures
        is_full_deck(cards),
{
    broadcast use group_to_multiset_ensures;

    lemma_ordered_deck();
    let o = ordered_deck();
    cards.unique_seq_to_set();
    o.unique_seq_to_set();
    seq_to_set_is_finite(cards);
    seq_to_set_is_finite(o);
    assert(cards.to_set().subset_of(o.to_set())) by {
        assert forall|c: Card| cards.to_set().contains(c) implies o.to_set().contains(c) by {
            let i = choose|i: int| 0 <= i < cards.len() && cards[i] == c;
            assert(cards[i].in_deck());
        }
    }
    lemma_subset_equality(cards.to_set(), o.to_set());
    cards.lemma_multiset_has_no_duplicates();
    o.lemma_multiset_has_no_duplicates();
    assert forall|c: Card| cards.to_multiset().count(c) == o.to_multiset().count(c) by {
        assert(cards.to_set().contains(c) <==> o.to_set().contains(c));
        assert(cards.contains(c) <==> cards.to_multiset().count(c) > 0);
        assert(o.contains(c) <==> o.to_multiset().count(c) > 0);
        assert(cards.to_multiset().contains(c) <==> cards.to_multiset().count(c) > 0);
        assert(o.to_multiset().contains(c) <==> o.to_multiset().count(c) > 0);
    }
}

/// Number of cards of a suit among `cards`.
pub open spec fn suit_count(cards: Seq<Card>, suit: char) -> nat
    decreases cards.len(),
{
    if cards.len() == 0 {
        0
    } else {
        suit_count(cards.drop_last(), suit) + if cards.last().suit == suit {
            1nat
        } else {
            0nat
        }
    }
}

/// The cards of a suit in two piles are those of the one and those of the
/// other.
pub proof fn lemma_suit_count_concat(a: Seq<Card>, b: Seq<Card>, suit: char)
    ensures
        suit_count(a + b, suit) == suit_count(a, suit) + suit_count(b, suit),
    decreases b.len(),
{
    if b.len() == 0 {
        assert(a + b =~= a);
    } else {
        assert((a + b).drop_last() =~= a + b.drop_last());
        lemma_suit_count_concat(a, b.drop_last(), suit);
    }
}

/// Taking a card out of a pile takes one off the count of its suit.
pub proof fn lemma_suit_count_remove(cards: Seq<Card>, i: int, suit: char)
    requires
        0 <= i < cards.len(),
    ensures
        suit_count(cards, suit) == suit_count(cards.remove(i), suit) + if cards[i].suit == suit {
            1nat
        } else {
            0nat
        },
{
    let head = cards.take(i);
    let one = seq![cards[i]];
    let tail = cards.skip(i + 1);
    assert(cards =~= head + one + tail);
    assert(cards.remove(i) =~= head + tail);
    lemma_suit_count_concat(head + one, tail, suit);
    lemma_suit_count_concat(head, one, suit);
    lemma_suit_count_concat(head, tail, suit);
    assert(one.drop_last() =~= Seq::<Card>::empty());
    assert(one.last() == cards[i]);
    assert(suit_count(one.drop_last(), suit) == 0);
    assert(suit_count(one, suit) == if cards[i].suit == suit {
        1nat
    } else {
        0nat
    });
}

/// The count of a suit does not depend on the order of the cards.
pub proof fn lemma_suit_count_rearranged(a: Seq<Card>, b: Seq<Card>, suit: char)
    requires
        a.to_multiset() =~= b.to_multiset(),
    ensures
        suit_count(a, suit) == suit_count(b, suit),
    decreases a.len(),
{
    broadcast use group_to_multiset_ensures;
    broadcast use vstd::multiset::group_multiset_axioms;

    assert(a.len() == a.to_multiset().len() == b.to_multiset().len() == b.len());
    if a.len() > 0 {
        let x = a.last();
        assert(a.drop_last().push(x) =~= a);
        assert(a.to_multiset() =~= a.drop_last().to_multiset().insert(x));
        assert(b.to_multiset().count(x) > 0);
        assert(b.contains(x));
        let j = choose|j: int| 0 <= j < b.len() && b[j] == x;
        assert(b.remove(j).to_multiset() =~= b.to_multiset().remove(x));
        assert(a.drop_last().to_multiset() =~= b.remove(j).to_multiset());
        lemma_suit_count_rearranged(a.drop_last(), b.remove(j), suit);
        lemma_suit_count_remove(b, j, suit);
    }
}

/// Number of cards of a suit among the first `k` cards of the boxed order.
pub open spec fn boxed_suit_count(k: int, suit: char) -> int {
    let (from, to) = if suit == 'S' {
        (0int, 13int)
    } else if suit == 'C' {
        (13int, 26int)
    } else if suit == 'D' {
        (26int, 35int)
    } else if suit == 'H' {
        (35int, 44int)
    } else {
        (0int, 0int)
    };
    if k <= from {
        0
    } else if k >= to {
        to - from
    } else {
        k - from
    }
}

/// The boxed order holds its suits one after the other.
pub proof fn lemma_boxed_suit_count(k: int, suit: char)
    requires
        0 <= k <= DECK_SIZE,
    ensures
        suit_count(ordered_deck().take(k), suit) == boxed_suit_count(k, suit),
    decreases k,
{
    if k > 0 {
        lemma_boxed_suit_count(k - 1, suit);
        assert(ordered_deck().take(k).drop_last() =~= ordered_deck().take(k - 1));
        assert(ordered_deck().take(k).last() == deck_card(k - 1));
    }
}

/// A full deck holds thirteen cards of each monster suit and nine of each of
/// the other two, and none of any other suit.
pub proof fn lemma_full_deck_suits(cards: Seq<Card>)
    requires
        is_full_deck(cards),
    ensures
        suit_count(cards, 'S') == 13,
        suit_count(cards, 'C') == 13,
        suit_count(cards, 'D') == 9,
        suit_count(cards, 'H') == 9,
        forall|suit: char|
            suit != 'S' && suit != 'C' && suit != 'D' && suit != 'H' ==> suit_count(cards, suit)
                == 0,
{
    let o = ordered_deck();
    assert(o.take(DECK_SIZE as int) =~= o);
    assert forall|suit: char| suit_count(cards, suit) == boxed_suit_count(DECK_SIZE as int, suit) by {
        lemma_suit_count_rearranged(cards, o, suit);
        lemma_boxed_suit_count(DECK_SIZE as int, suit);
    }
}

/// Tells whether a card is one of the 44 deck cards.
pub fn card_in_deck(card: Card) -> (b: bool)
    ensures
        b == card.in_deck(),
{
    if card.suit == 'S' || card.suit == 'C' {
        2 <= card.value && card.value <= MAX_MONSTER_RANK
    } else if card.suit == 'D' || card.suit == 'H' {
        2 <= card.value && card.value <= MAX_UTILITY_RANK
    } else {
        false
    }
}

/// Appends the cards of one suit, ranks 2 to `top`, in rising order.
fn push_suit(cards: &mut Vec<Card>, suit: char, top: u8)
    requires
        2 <= top <= MAX_MONSTER_RANK,
    ensures
        final(cards)@ == old(cards)@ + Seq::new(
            (top - 1) as nat,
            |k: int| Card { suit, value: (k + 2) as u8 },
        ),
{
    let mut value: u8 = 2;
    while value <= top
        invariant
            2 <= value <= top + 1,
            top <= MAX_MONSTER_RANK,
            cards@ == old(cards)@ + Seq::new(
                (value - 2) as nat,
                |k: int| Card { suit, value: (k + 2) as u8 },
            ),
        decreases top + 1 - value,
    {
        cards.push(Card { suit, value });
        value = value + 1;
    }
}

/// Builds the 44 cards in boxed order.
pub fn ordered_cards() -> (cards: Vec<Card>)
    ensures
        cards@ == ordered_deck(),
{
    let mut cards: Vec<Card> = Vec::new();
    push_suit(&mut cards, 'S', MAX_MONSTER_RANK);
    push_suit(&mut cards, 'C', MAX_MONSTER_RANK);
    push_suit(&mut cards, 'D', MAX_UTILITY_RANK);
    push_suit(&mut cards, 'H', MAX_UTILITY_RANK);
    assert(cards@ =~= ordered_deck());
    cards
}

/// Tells whether `cards[i]` also occurs at an earlier position.
fn occurs_earlier(cards: &Vec<Card>, i: usize) -> (found: bool)
    requires
        i < cards.len(),
    ensures
        found <==> exists|j: int| 0 <= j < i && cards[j] == cards[i as int],
{
    let mut j: usize = 0;
    while j < i
        invariant
            j <= i < cards.len(),
            forall|k: int| 0 <= k < j ==> cards[k] != cards[i as int],
        decreases i - j,
    {
        if cards[j] == cards[i] {
            return true;
        }
        j = j + 1;
    }
    false
}

/// Checks that `cards` is a full deck: 44 deck cards, none of them twice.
pub fn check_full_deck(cards: &Vec<Card>) -> (ok: bool)
    ensures
        ok == is_full_deck(cards@),
{
    if cards.len() != DECK_SIZE {
        proof {
            if is_full_deck(cards@) {
                lemma_full_deck_composition(cards@);
            }
        }
        return false;
    }
    let mut i: usize = 0;
    while i < DECK_SIZE
        invariant
            i <= DECK_SIZE == cards.len(),
            forall|k: int| 0 <= k < i ==> (#[trigger] cards[k]).in_deck(),
            forall|a: int, b: int| 0 <= a < b < i ==> cards[a] != cards[b],
        decreases DECK_SIZE - i,
    {
        if !card_in_deck(cards[i]) || occurs_earlier(cards, i) {
            proof {
                if is_full_deck(cards@) {
                    lemma_full_deck_composition(cards@);
                    assert(cards@.contains(cards[i as int]));
                }
            }
            return false;
        }
        i = i + 1;
    }
    proof {
        lemma_distinct_cards_fill_deck(cards@);
    }
    true
}

} // verus!
