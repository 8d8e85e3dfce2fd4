//! Trick resolution: which of the four plays of a trick wins, under the
//! round's trump suit and the trick's lead suit.

use vstd::prelude::*;
use crate::cards::{Card, Suit};

verus! {

/// Does `challenger` overtake the current best card of a trick?
/// With a trump suit declared: a trump best card is only overtaken by a
/// strictly higher trump; a non-trump best card is overtaken by any trump,
/// or by a strictly higher card of the lead suit. With no trump declared,
/// only a strictly higher card of the lead suit overtakes.
pub open spec fn beats(challenger: Card, best: Card, lead: Suit, trump: Option<Suit>) -> bool {
    match trump {
        Option::Some(t) => {
            if best.suit == t {
                challenger.suit == t && challenger.rank.value_spec() > best.rank.value_spec()
            } else {
                challenger.suit == t
                    || (challenger.suit == lead
                        && challenger.rank.value_spec() > best.rank.value_spec())
            }
        },
        Option::None => {
            challenger.suit == lead && challenger.rank.value_spec() > best.rank.value_spec()
        },
    }
}

/// The running best (seat, card) pair after the first `n` plays of the
/// trick: the first play, then each later play that `beats` the best so far.
pub open spec fn best_play(trick: Seq<(usize, Card)>, trump: Option<Suit>, n: int) -> (usize, Card)
    recommends
        1 <= n <= trick.len(),
    decreases n,
{
    if n <= 1 {
        trick[0]
    } else {
        let prev = best_play(trick, trump, n - 1);
        if beats(trick[n - 1].1, prev.1, trick[0].1.suit, trump) {
            trick[n - 1]
        } else {
            prev
        }
    }
}

/// The seat that wins the trick: the seat of the best play once every play
/// has been considered.
pub open spec fn trick_winner_spec(trick: Seq<(usize, Card)>, trump: Option<Suit>) -> usize {
    best_play(trick, trump, trick.len() as int).0
}

/// The winning play is one of the trick's plays.
pub proof fn lemma_best_play_in_trick(trick: Seq<(usize, Card)>, trump: Option<Suit>, n: int)
    requires
        1 <= n <= trick.len(),
    ensures
        exists|k: int| 0 <= k < n && trick[k] == best_play(trick, trump, n),
    decreases n,
{
    if n <= 1 {
        assert(trick[0] == best_play(trick, trump, n));
    } else {
        lemma_best_play_in_trick(trick, trump, n - 1);
    }
}

/// The classical reading of the resolution, proved of the running fold:
/// once any card of the trump suit has been played, the best play is a
/// trump of maximal rank among the trumps played; while no trump has been
/// played, the best play follows the lead suit with maximal rank among the
/// lead-suit cards. Off-suit discards never hold the best play.
pub proof fn lemma_best_play_classical(trick: Seq<(usize, Card)>, t: Suit, n: int)
    requires
        1 <= n <= trick.len(),
    ensures
        ({
            let lead = trick[0].1.suit;
            let best = best_play(trick, Some(t), n);
            &&& ((exists|k: int| 0 <= k < n && (#[trigger] trick[k]).1.suit == t) ==> {
                &&& best.1.suit == t
                &&& (forall|k: int|
                    0 <= k < n && (#[trigger] trick[k]).1.suit == t
                        ==> trick[k].1.rank.value_spec() <= best.1.rank.value_spec())
            })
            &&& ((forall|k: int| 0 <= k < n ==> (#[trigger] trick[k]).1.suit != t) ==> {
                &&& best.1.suit == lead
                &&& (forall|k: int|
                    0 <= k < n && (#[trigger] trick[k]).1.suit == lead
                        ==> trick[k].1.rank.value_spec() <= best.1.rank.value_spec())
            })
        }),
    decreases n,
{
    if n > 1 {
        lemma_best_play_classical(trick, t, n - 1);
        let lead = trick[0].1.suit;
        let prev = best_play(trick, Some(t), n - 1);
        if exists|k: int| 0 <= k < n - 1 && (#[trigger] trick[k]).1.suit == t {
            assert(prev.1.suit == t);
        } else if trick[n - 1].1.suit == t {
            assert(trick[0].1.suit != t);
            assert(best_play(trick, Some(t), n) == trick[n - 1]);
        } else {
            assert(forall|k: int| 0 <= k < n ==> (#[trigger] trick[k]).1.suit != t);
        }
    }
}

/// With no trump declared at all (a defensive fallback: a round in play
/// always has one), the best play simply follows the lead suit with
/// maximal rank among the lead-suit cards.
pub proof fn lemma_best_play_no_trump(trick: Seq<(usize, Card)>, n: int)
    requires
        1 <= n <= trick.len(),
    ensures
        ({
            let lead = trick[0].1.suit;
            let best = best_play(trick, Option::None, n);
            &&& best.1.suit == lead
            &&& (forall|k: int|
                0 <= k < n && (#[trigger] trick[k]).1.suit == lead
                    ==> trick[k].1.rank.value_spec() <= best.1.rank.value_spec())
        }),
    decreases n,
{
    if n > 1 {
        lemma_best_play_no_trump(trick, n - 1);
    }
}

/// The seat that wins the trick. The trick must hold at least one play;
/// the engine calls it with all four.
pub fn trick_winner(trick: &Vec<(usize, Card)>, trump: Option<Suit>) -> (winner: usize)
    requires
        trick@.len() >= 1,
    ensures
        winner == trick_winner_spec(trick@, trump),
        exists|k: int| 0 <= k < trick@.len() && trick@[k].0 == winner,
{
    let lead_suit = trick[0].1.suit;
    let mut best: (usize, Card) = trick[0];
    let mut i: usize = 1;
    while i < trick.len()
        invariant
            1 <= i <= trick@.len(),
            lead_suit == trick@[0].1.suit,
            best == best_play(trick@, trump, i as int),
        decreases trick@.len() - i,
    {
        let play = trick[i];
        let challenger = play.1;
        let overtakes: bool = match trump {
            Option::Some(t) => {
                if best.1.suit == t {
                    challenger.suit == t && challenger.rank.value() > best.1.rank.value()
                } else {
                    challenger.suit == t
                        || (challenger.suit == lead_suit
                            && challenger.rank.value() > best.1.rank.value())
                }
            },
            Option::None => {
                challenger.suit == lead_suit && challenger.rank.value() > best.1.rank.value()
            },
        };
        if overtakes {
            best = play;
        }
        i = i + 1;
    }
    proof {
        lemma_best_play_in_trick(trick@, trump, trick@.len() as int);
    }
    best.0
}

} // verus!
