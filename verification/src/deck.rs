//! The 52-card deck: its fixed generation order, the shuffle, and the proof
//! that every (rank, suit) combination appears exactly once.

use vstd::prelude::*;
use vstd::arithmetic::div_mod::lemma_fundamental_div_mod_converse;
use crate::cards::{Card, Rank, Suit};

verus! {

/// The suit at position `i` (0..4) of the fixed suit generation order:
/// Hearts, Diamonds, Clubs, Spades.
pub open spec fn suit_of_index(i: int) -> Suit {
    if i == 0 {
        Suit::Hearts
    } else if i == 1 {
        Suit::Diamonds
    } else if i == 2 {
        Suit::Clubs
    } else {
        Suit::Spades
    }
}

/// The position of a suit in the generation order.
pub open spec fn suit_index(s: Suit) -> int {
    match s {
        Suit::Hearts => 0,
        Suit::Diamonds => 1,
        Suit::Clubs => 2,
        Suit::Spades => 3,
    }
}

/// The rank at position `i` (0..13) of the ascending rank order Two..Ace.
pub open spec fn rank_of_index(i: int) -> Rank {
    if i == 0 {
        Rank::Two
    } else if i == 1 {
        Rank::Three
    } else if i == 2 {
        Rank::Four
    } else if i == 3 {
        Rank::Five
    } else if i == 4 {
        Rank::Six
    } else if i == 5 {
        Rank::Seven
    } else if i == 6 {
        Rank::Eight
    } else if i == 7 {
        Rank::Nine
    } else if i == 8 {
        Rank::Ten
    } else if i == 9 {
        Rank::Jack
    } else if i == 10 {
        Rank::Queen
    } else if i == 11 {
        Rank::King
    } else {
        Rank::Ace
    }
}

/// The position of a rank in the ascending order.
pub open spec fn rank_index(r: Rank) -> int {
    r.value_spec() - 2
}

/// The card at position `i` (0..52) of the deck in generation order:
/// suit-major, rank-ascending within each suit.
pub open spec fn deck_card(i: int) -> Card {
    Card { rank: rank_of_index(i % 13), suit: suit_of_index(i / 13) }
}

/// The full 52-card deck in generation order.
pub open spec fn full_deck() -> Seq<Card> {
    Seq::new(52, |i: int| deck_card(i))
}

/// Each card sits at exactly one position of the generation order.
pub open spec fn deck_position(c: Card) -> int {
    suit_index(c.suit) * 13 + rank_index(c.rank)
}

/// The generation order holds every (rank, suit) combination exactly once:
/// `deck_position` inverts `deck_card` on 0..52.
pub proof fn lemma_deck_card_position(c: Card)
    ensures
        0 <= deck_position(c) < 52,
        deck_card(deck_position(c)) == c,
{
    let p = deck_position(c);
    lemma_fundamental_div_mod_converse(p, 13, suit_index(c.suit), rank_index(c.rank));
    assert(suit_of_index(suit_index(c.suit)) == c.suit);
    assert(rank_of_index(rank_index(c.rank)) == c.rank);
}

/// Distinct positions of the generation order hold distinct cards.
pub proof fn lemma_deck_card_injective(i: int, j: int)
    requires
        0 <= i < 52,
        0 <= j < 52,
        i != j,
    ensures
        deck_card(i) != deck_card(j),
{
    lemma_fundamental_div_mod_converse(i, 13, i / 13, i % 13);
    lemma_fundamental_div_mod_converse(j, 13, j / 13, j % 13);
    if deck_card(i) == deck_card(j) {
        assert(suit_of_index(i / 13) == suit_of_index(j / 13));
        assert(rank_of_index(i % 13) == rank_of_index(j % 13));
        assert(i / 13 == j / 13);
        assert(i % 13 == j % 13);
    }
}

/// The full deck contains each of the 52 cards exactly once, whatever order
/// its 52 positions are later dealt in.
pub proof fn lemma_full_deck_each_card_once()
    ensures
        full_deck().len() == 52,
        full_deck().no_duplicates(),
        forall|c: Card| #[trigger] full_deck().to_multiset().count(c) == 1,
{
    let d = full_deck();
    assert forall|i: int, j: int|
        0 <= i < d.len() && 0 <= j < d.len() && i != j implies d[i] != d[j] by {
        lemma_deck_card_injective(i, j);
    }
    assert(d.no_duplicates());
    d.lemma_multiset_has_no_duplicates();
    assert forall|c: Card| #[trigger] d.to_multiset().count(c) == 1 by {
        lemma_deck_card_position(c);
        assert(d[deck_position(c)] == c);
        assert(d.contains(c));
        d.to_multiset_ensures();
        assert(d.to_multiset().count(c) > 0);
    }
}

/// The suit at position `i` of the generation order.
pub fn suit_of(i: u8) -> (s: Suit)
    requires
        i < 4,
    ensures
        s == suit_of_index(i as int),
{
    if i == 0 {
        Suit::Hearts
    } else if i == 1 {
        Suit::Diamonds
    } else if i == 2 {
        Suit::Clubs
    } else {
        Suit::Spades
    }
}

/// The rank at position `i` of the ascending rank order.
pub fn rank_of(i: u8) -> (r: Rank)
    requires
        i < 13,
    ensures
        r == rank_of_index(i as int),
{
    if i == 0 {
        Rank::Two
    } else if i == 1 {
        Rank::Three
    } else if i == 2 {
        Rank::Four
    } else if i == 3 {
        Rank::Five
    } else if i == 4 {
        Rank::Six
    } else if i == 5 {
        Rank::Seven
    } else if i == 6 {
        Rank::Eight
    } else if i == 7 {
        Rank::Nine
    } else if i == 8 {
        Rank::Ten
    } else if i == 9 {
        Rank::Jack
    } else if i == 10 {
        Rank::Queen
    } else if i == 11 {
        Rank::King
    } else {
        Rank::Ace
    }
}

/// Relies on rand's `SliceRandom::shuffle` (rand 0.8, driven by
/// `rand::thread_rng`): a Fisher-Yates shuffle that reorders the slice in
/// place by swaps, so the multiset of cards and the length are unchanged.
/// The resulting order is random; nothing is assumed about it.
#[verifier::external_body]
pub(crate) fn shuffle_cards(deck: &mut Vec<Card>)
    ensures
        final(deck)@.to_multiset() == old(deck)@.to_multiset(),
        final(deck)@.len() == old(deck)@.len(),
{
    rand::seq::SliceRandom::shuffle(deck.as_mut_slice(), &mut rand::thread_rng());
}

} // verus!
