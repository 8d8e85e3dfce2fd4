//! Per-seat state: the hand held by a seat and its trick-win counter.

use vstd::prelude::*;
use crate::cards::{Card, Suit};

verus! {

/// Does `hand` hold at least one card of `suit`?
pub open spec fn hand_has_suit(hand: Seq<Card>, suit: Suit) -> bool {
    exists|k: int| 0 <= k < hand.len() && hand[k].suit == suit
}

/// One seat of the table: a fixed seat index, the cards currently held, and
/// the number of tricks won this round.
#[derive(Debug, Clone)]
pub struct Player {
    pub id: usize,
    pub hand: Vec<Card>,
    pub won_tricks: u32,
}

impl Player {
    /// A fresh seat with an empty hand and no tricks won.
    pub fn new(id: usize) -> (p: Player)
        ensures
            p.id == id,
            p.hand@ == Seq::<Card>::empty(),
            p.won_tricks == 0,
    {
        Player { id, hand: Vec::new(), won_tricks: 0 }
    }

    /// Appends the dealt cards to the hand.
    pub fn add_cards(&mut self, cards: Vec<Card>)
        ensures
            final(self).id == old(self).id,
            final(self).won_tricks == old(self).won_tricks,
            final(self).hand@ == old(self).hand@ + cards@,
    {
        let mut i: usize = 0;
        while i < cards.len()
            invariant
                i <= cards.len(),
                self.id == old(self).id,
                self.won_tricks == old(self).won_tricks,
                self.hand@ == old(self).hand@ + cards@.subrange(0, i as int),
            decreases cards.len() - i,
        {
            self.hand.push(cards[i]);
            proof {
                assert(old(self).hand@ + cards@.subrange(0, i + 1 as int)
                    =~= (old(self).hand@ + cards@.subrange(0, i as int)).push(cards@[i as int]));
            }
            i = i + 1;
        }
        proof {
            assert(cards@.subrange(0, cards@.len() as int) =~= cards@);
        }
    }

    /// Removes one copy of `card` from the hand, if the hand holds it.
    /// Returns whether a card was removed; on failure the player is
    /// unchanged.
    pub fn remove_card(&mut self, card: &Card) -> (removed: bool)
        ensures
            final(self).id == old(self).id,
            final(self).won_tricks == old(self).won_tricks,
            removed == old(self).hand@.contains(*card),
            !removed ==> final(self).hand@ == old(self).hand@,
            removed ==> (exists|k: int|
                0 <= k < old(self).hand@.len() && old(self).hand@[k] == *card
                    && final(self).hand@ == old(self).hand@.remove(k)),
            removed ==> final(self).hand@.to_multiset()
                == old(self).hand@.to_multiset().remove(*card),
            removed ==> final(self).hand@.len() == old(self).hand@.len() - 1,
    {
        let mut i: usize = 0;
        while i < self.hand.len()
            invariant
                i <= self.hand@.len(),
                self == old(self),
                forall|k: int| 0 <= k < i ==> self.hand@[k] != *card,
            decreases self.hand@.len() - i,
        {
            if self.hand[i] == *card {
                self.hand.remove(i);
                proof {
                    broadcast use vstd::seq_lib::group_to_multiset_ensures;

                    assert(old(self).hand@.remove(i as int).to_multiset()
                        =~= old(self).hand@.to_multiset().remove(*card));
                }
                return true;
            }
            i = i + 1;
        }
        proof {
            assert(!old(self).hand@.contains(*card));
        }
        false
    }

    /// Does this seat hold at least one card of `suit`?
    pub fn has_suit(&self, suit: Suit) -> (r: bool)
        ensures
            r == hand_has_suit(self.hand@, suit),
    {
        let mut i: usize = 0;
        while i < self.hand.len()
            invariant
                i <= self.hand@.len(),
                forall|k: int| 0 <= k < i ==> self.hand@[k].suit != suit,
            decreases self.hand@.len() - i,
        {
            if self.hand[i].suit == suit {
                return true;
            }
            i = i + 1;
        }
        false
    }
}

} // verus!
