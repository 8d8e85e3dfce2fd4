//! The game engine: deck construction and dealing, trump declaration,
//! turn-by-turn card play with legality checks, trick resolution, and round
//! scoring.

use vstd::prelude::*;
use vstd::multiset::Multiset;
use vstd::arithmetic::div_mod::lemma_fundamental_div_mod_converse;
use crate::cards::{Card, Suit};
use crate::deck::{deck_card, full_deck, lemma_full_deck_each_card_once, rank_of, shuffle_cards, suit_of};
use crate::player::{hand_has_suit, Player};
use crate::trick::{trick_winner, trick_winner_spec};

verus! {

/// The phase the round is in. Operations are only permitted in their phase.
#[derive(Debug, Clone, Copy, PartialEq, Eq, Structural)]
pub enum GameState {
    DetermineHakim,
    DeclareTrump,
    Playing,
    Finished,
}

/// Why an engine operation was rejected. Every failure is a recoverable
/// result value and leaves the game unchanged.
#[derive(Debug, Clone, Copy, PartialEq, Eq, Structural)]
pub enum HokmError {
    /// The operation was attempted outside the phase that permits it.
    InvalidPhase,
    /// The acting seat is not the current player.
    NotYourTurn,
    /// The referenced card is not held by the acting seat.
    CardNotInHand,
    /// A card of the lead suit is in hand but another suit was played.
    MustFollowSuit,
}

/// The aggregate root: four seats, the trump-calling seat, the declared
/// trump, whose turn it is, the phase, the open trick, and the two teams'
/// round-win counters (team A is seats 0 and 2, team B seats 1 and 3).
#[derive(Debug)]
pub struct HokmGame {
    pub players: Vec<Player>,
    pub hakim_index: usize,
    pub trump_suit: Option<Suit>,
    pub current_player_index: usize,
    pub state: GameState,
    pub current_trick: Vec<(usize, Card)>,
    pub scores: (u32, u32),
}

impl HokmGame {
    /// The cards seat `i` holds.
    pub open spec fn hand(self, i: int) -> Seq<Card> {
        self.players@[i].hand@
    }

    /// The cards of the open trick, in play order.
    pub open spec fn trick_cards(self) -> Seq<Card> {
        self.current_trick@.map_values(|p: (usize, Card)| p.1)
    }

    /// Every card the four seats hold between them.
    pub open spec fn dealt_cards(self) -> Multiset<Card> {
        self.hand(0).to_multiset().add(self.hand(1).to_multiset()).add(
            self.hand(2).to_multiset(),
        ).add(self.hand(3).to_multiset())
    }

    /// Every card at stake in the round: the four hands and the open trick.
    pub open spec fn cards_in_play(self) -> Multiset<Card> {
        self.dealt_cards().add(self.trick_cards().to_multiset())
    }

    /// How many tricks of the round have been resolved so far.
    pub open spec fn tricks_done(self) -> int {
        self.players@[0].won_tricks + self.players@[1].won_tricks + self.players@[2].won_tricks
            + self.players@[3].won_tricks
    }

    /// Has seat `i` already played a card into the open trick?
    pub open spec fn seat_in_trick(self, i: int) -> bool {
        exists|k: int| 0 <= k < self.current_trick@.len() && self.current_trick@[k].0 == i
    }

    /// The suit of the first card played in the open trick.
    pub open spec fn lead_suit(self) -> Suit {
        self.current_trick@[0].1.suit
    }

    /// Structural facts that hold in every phase: four seats carrying their
    /// own index, indices in range, an open trick of at most three plays by
    /// valid seats, and no card in two places at once.
    pub open spec fn wf_base(self) -> bool {
        &&& self.players@.len() == 4
        &&& (forall|i: int| 0 <= i < 4 ==> (#[trigger] self.players@[i]).id == i)
        &&& self.hakim_index < 4
        &&& self.current_player_index < 4
        &&& self.current_trick@.len() <= 3
        &&& (forall|k: int|
            0 <= k < self.current_trick@.len() ==> (#[trigger] self.current_trick@[k]).0 < 4)
        &&& (forall|c: Card| #[trigger] self.cards_in_play().count(c) <= 1)
    }

    /// Facts of the Playing phase: a trump is declared, the trick follows
    /// the clockwise rotation from its leader, the turn pointer is the next
    /// seat of that rotation, and the hands shrink in lockstep with resolved
    /// tricks (the synchrony that lets an empty hand at seat 0 stand for
    /// "thirteen tricks have been played").
    pub open spec fn wf_playing(self) -> bool {
        &&& self.trump_suit is Some
        &&& self.scores.0 == 0 && self.scores.1 == 0
        &&& 0 <= self.tricks_done() <= 12
        &&& (forall|k: int|
            0 <= k < self.current_trick@.len() ==> (#[trigger] self.current_trick@[k]).0
                == (self.current_trick@[0].0 + k) % 4)
        &&& (self.current_trick@.len() > 0 ==> self.current_player_index == (
        self.current_trick@[0].0 + self.current_trick@.len()) % 4)
        &&& (forall|i: int|
            0 <= i < 4 ==> (#[trigger] self.players@[i]).hand@.len() == 13 - self.tricks_done()
                - (if self.seat_in_trick(i) {
                1int
            } else {
                0int
            }))
    }

    /// The whole game invariant: `wf_base`, and the facts of the current
    /// phase. Constructors establish it and every operation preserves it.
    pub open spec fn wf(self) -> bool {
        &&& self.wf_base()
        &&& match self.state {
            GameState::DetermineHakim => {
                &&& (forall|i: int|
                    0 <= i < 4 ==> (#[trigger] self.players@[i]).hand@.len() == 0
                        && self.players@[i].won_tricks == 0)
                &&& self.current_trick@.len() == 0
                &&& self.trump_suit is None
                &&& self.scores.0 == 0 && self.scores.1 == 0
            },
            GameState::DeclareTrump => {
                &&& (forall|i: int|
                    0 <= i < 4 ==> (#[trigger] self.players@[i]).hand@.len() == 13
                        && self.players@[i].won_tricks == 0)
                &&& self.current_trick@.len() == 0
                &&& self.trump_suit is None
                &&& self.scores.0 == 0 && self.scores.1 == 0
            },
            GameState::Playing => self.wf_playing(),
            GameState::Finished => self.scores.0 + self.scores.1 == 1,
        }
    }

    /// A fresh match: four empty seats, seat 0 as the default hakim, no
    /// trump, and zeroed scores, waiting to be dealt.
    pub fn new() -> (g: HokmGame)
        ensures
            g.wf(),
            g.state == GameState::DetermineHakim,
            g.hakim_index == 0,
            g.current_player_index == 0,
            g.trump_suit is None,
            g.players@.len() == 4,
            forall|i: int|
                0 <= i < 4 ==> (#[trigger] g.players@[i]).id == i && g.players@[i].hand@.len() == 0
                    && g.players@[i].won_tricks == 0,
            g.current_trick@.len() == 0,
            g.scores.0 == 0 && g.scores.1 == 0,
    {
        let mut players: Vec<Player> = Vec::new();
        let mut i: usize = 0;
        while i < 4
            invariant
                i <= 4,
                players@.len() == i,
                forall|j: int|
                    0 <= j < i ==> (#[trigger] players@[j]).id == j && players@[j].hand@.len() == 0
                        && players@[j].won_tricks == 0,
            decreases 4 - i,
        {
            players.push(Player::new(i));
            i = i + 1;
        }
        let g = HokmGame {
            players,
            hakim_index: 0,
            trump_suit: Option::None,
            current_player_index: 0,
            state: GameState::DetermineHakim,
            current_trick: Vec::new(),
            scores: (0, 0),
        };
        proof {
            assert(g.trick_cards() =~= Seq::<Card>::empty());
            assert forall|c: Card| #[trigger] g.cards_in_play().count(c) <= 1 by {
                broadcast use vstd::seq_lib::group_to_multiset_ensures;

                assert(g.hand(0).to_multiset().count(c) == 0);
                assert(g.hand(1).to_multiset().count(c) == 0);
                assert(g.hand(2).to_multiset().count(c) == 0);
                assert(g.hand(3).to_multiset().count(c) == 0);
                assert(g.trick_cards().to_multiset().count(c) == 0);
            }
        }
        g
    }

    /// The 52-card deck: generated suit-major (Hearts, Diamonds, Clubs,
    /// Spades), rank-ascending within each suit, then shuffled. The shuffle
    /// order is random; the cards are always the 52 distinct (rank, suit)
    /// combinations, each exactly once.
    pub fn create_deck() -> (deck: Vec<Card>)
        ensures
            deck@.len() == 52,
            forall|c: Card| #[trigger] deck@.to_multiset().count(c) == 1,
    {
        let mut deck: Vec<Card> = Vec::new();
        let mut si: u8 = 0;
        while si < 4
            invariant
                si <= 4,
                deck@.len() == si as int * 13,
                forall|k: int| 0 <= k < deck@.len() ==> #[trigger] deck@[k] == deck_card(k),
            decreases 4 - si,
        {
            let mut ri: u8 = 0;
            while ri < 13
                invariant
                    si < 4,
                    ri <= 13,
                    deck@.len() == si as int * 13 + ri as int,
                    forall|k: int| 0 <= k < deck@.len() ==> #[trigger] deck@[k] == deck_card(k),
                decreases 13 - ri,
            {
                let rank = rank_of(ri);
                let suit = suit_of(si);
                deck.push(Card { rank, suit });
                proof {
                    let k = si as int * 13 + ri as int;
                    lemma_fundamental_div_mod_converse(k, 13, si as int, ri as int);
                    assert(deck_card(k) == (Card { rank, suit }));
                }
                ri = ri + 1;
            }
            si = si + 1;
        }
        proof {
            assert(deck@ =~= full_deck());
            lemma_full_deck_each_card_once();
        }
        shuffle_cards(&mut deck);
        deck
    }

    /// Deals the whole deck and opens trump declaration: five cards to each
    /// seat first, then the remaining thirty-two split eight per seat, so
    /// every seat holds its full thirteen cards before trump is named. The
    /// phase moves from DetermineHakim to DeclareTrump and the hakim is to
    /// act. Together the four hands hold each of the 52 cards exactly once.
    pub fn start_game(&mut self)
        requires
            old(self).wf(),
            old(self).state == GameState::DetermineHakim,
        ensures
            final(self).wf(),
            final(self).state == GameState::DeclareTrump,
            final(self).hakim_index == old(self).hakim_index,
            final(self).current_player_index == old(self).hakim_index,
            final(self).trump_suit is None,
            final(self).scores == old(self).scores,
            final(self).current_trick@.len() == 0,
            final(self).players@.len() == 4,
            forall|i: int|
                0 <= i < 4 ==> (#[trigger] final(self).players@[i]).id == i && final(self).hand(
                    i,
                ).len() == 13 && final(self).players@[i].won_tricks == 0,
            forall|c: Card| #[trigger] final(self).dealt_cards().count(c) == 1,
    {
        let deck = Self::create_deck();
        let mut i: usize = 0;
        while i < 4
            invariant
                i <= 4,
                deck@.len() == 52,
                self.players@.len() == 4,
                self.hakim_index == old(self).hakim_index,
                self.trump_suit == old(self).trump_suit,
                self.state == old(self).state,
                self.current_trick == old(self).current_trick,
                self.scores == old(self).scores,
                forall|j: int|
                    0 <= j < 4 ==> (#[trigger] self.players@[j]).id == j
                        && self.players@[j].won_tricks == 0,
                forall|j: int|
                    0 <= j < i ==> (#[trigger] self.players@[j]).hand@ == deck@.subrange(
                        5 * j,
                        5 * j + 5,
                    ),
                forall|j: int| i <= j < 4 ==> (#[trigger] self.players@[j]).hand@.len() == 0,
            decreases 4 - i,
        {
            let ghost prev = *self;
            let cards = cards_range(&deck, i * 5, i * 5 + 5);
            self.players[i].add_cards(cards);
            proof {
                assert(prev.players@[i as int].hand@.len() == 0);
                assert(self.players@[i as int].hand@ =~= deck@.subrange(
                    5 * (i as int),
                    5 * (i as int) + 5,
                ));
            }
            i = i + 1;
        }
        self.state = GameState::DeclareTrump;
        self.current_player_index = self.hakim_index;
        let remaining = cards_range(&deck, 20, 52);
        let mut j: usize = 0;
        while j < 4
            invariant
                j <= 4,
                deck@.len() == 52,
                remaining@ == deck@.subrange(20, 52),
                self.players@.len() == 4,
                self.hakim_index == old(self).hakim_index,
                self.trump_suit == old(self).trump_suit,
                self.current_player_index == old(self).hakim_index,
                self.state == GameState::DeclareTrump,
                self.current_trick == old(self).current_trick,
                self.scores == old(self).scores,
                forall|k: int|
                    0 <= k < 4 ==> (#[trigger] self.players@[k]).id == k
                        && self.players@[k].won_tricks == 0,
                forall|k: int|
                    0 <= k < j ==> (#[trigger] self.players@[k]).hand@ == deck@.subrange(
                        5 * k,
                        5 * k + 5,
                    ) + remaining@.subrange(8 * k, 8 * k + 8),
                forall|k: int|
                    j <= k < 4 ==> (#[trigger] self.players@[k]).hand@ == deck@.subrange(
                        5 * k,
                        5 * k + 5,
                    ),
            decreases 4 - j,
        {
            let ghost prev = *self;
            let cards = cards_range(&remaining, j * 8, j * 8 + 8);
            self.players[j].add_cards(cards);
            proof {
                assert(prev.players@[j as int].hand@ == deck@.subrange(
                    5 * (j as int),
                    5 * (j as int) + 5,
                ));
            }
            j = j + 1;
        }
        proof {
            self.lemma_deal_covers_deck(deck@, remaining@);
            broadcast use vstd::multiset::group_multiset_axioms;
            broadcast use vstd::seq_lib::group_to_multiset_ensures;

            assert(self.trick_cards() =~= Seq::<Card>::empty());
            assert forall|c: Card| #[trigger] self.cards_in_play().count(c) <= 1 by {
                assert(self.dealt_cards().count(c) == 1);
                assert(self.trick_cards().to_multiset().len() == 0);
            }
            assert forall|i: int|
                0 <= i < 4 implies (#[trigger] self.players@[i]).hand@.len() == 13 by {
                assert(self.players@[i].hand@ == deck@.subrange(5 * i, 5 * i + 5)
                    + remaining@.subrange(8 * i, 8 * i + 8));
            }
        }
    }

    /// Declares the trump suit for the round. Only permitted in the
    /// DeclareTrump phase: it fixes the trump, moves the phase to Playing,
    /// and hands the lead of the first trick to the hakim. Any of the four
    /// suits is acceptable. Outside its phase the call fails with
    /// InvalidPhase and changes nothing; in particular a second call, the
    /// phase then already Playing, cannot change the trump.
    pub fn declare_trump(&mut self, suit: Suit) -> (r: Result<(), HokmError>)
        requires
            old(self).wf(),
        ensures
            final(self).wf(),
            old(self).state != GameState::DeclareTrump ==> r == Err::<(), HokmError>(
                HokmError::InvalidPhase,
            ) && *final(self) == *old(self),
            old(self).state == GameState::DeclareTrump ==> {
                &&& r == Ok::<(), HokmError>(())
                &&& final(self).trump_suit == Some(suit)
                &&& final(self).state == GameState::Playing
                &&& final(self).current_player_index == old(self).hakim_index
                &&& final(self).hakim_index == old(self).hakim_index
                &&& final(self).players == old(self).players
                &&& final(self).current_trick == old(self).current_trick
                &&& final(self).scores == old(self).scores
            },
    {
        if self.state != GameState::DeclareTrump {
            return Err(HokmError::InvalidPhase);
        }
        self.trump_suit = Some(suit);
        self.state = GameState::Playing;
        self.current_player_index = self.hakim_index;
        proof {
            assert forall|c: Card| #[trigger] self.cards_in_play().count(c) <= 1 by {
                assert(self.cards_in_play() == old(self).cards_in_play());
                assert(old(self).cards_in_play().count(c) <= 1);
            }
        }
        Ok(())
    }

    /// The error `play_card(seat, card)` returns in this state, if any: the
    /// checks in their documented order. `None` means the play is legal.
    pub open spec fn play_card_error(self, seat: usize, card: Card) -> Option<HokmError> {
        if self.state != GameState::Playing {
            Some(HokmError::InvalidPhase)
        } else if seat != self.current_player_index {
            Some(HokmError::NotYourTurn)
        } else if !self.players@[seat as int].hand@.contains(card) {
            Some(HokmError::CardNotInHand)
        } else if self.current_trick@.len() > 0 && card.suit != self.lead_suit()
            && hand_has_suit(self.players@[seat as int].hand@, self.lead_suit()) {
            Some(HokmError::MustFollowSuit)
        } else {
            None
        }
    }

    /// The outcome of a legal `play_card(seat, card)`: the card leaves the
    /// seat's hand and joins the trick. A fourth card resolves the trick:
    /// the winner's counter rises, the winner leads on, and the trick
    /// empties; the last card of the round then also ends the round with
    /// the team scoring.
    pub open spec fn play_card_success(
        pre: HokmGame,
        post: HokmGame,
        seat: usize,
        card: Card,
    ) -> bool {
        let trick1 = pre.current_trick@.push((seat, card));
        &&& post.players@.len() == 4
        &&& post.hakim_index == pre.hakim_index
        &&& post.trump_suit == pre.trump_suit
        &&& (forall|i: int|
            0 <= i < 4 ==> (#[trigger] post.players@[i]).id == pre.players@[i].id)
        &&& (forall|i: int|
            0 <= i < 4 && i != seat ==> (#[trigger] post.players@[i]).hand@
                == pre.players@[i].hand@)
        &&& post.players@[seat as int].hand@.to_multiset() == pre.players@[
            seat as int
        ].hand@.to_multiset().remove(card)
        &&& post.players@[seat as int].hand@.len() == pre.players@[seat as int].hand@.len() - 1
        &&& if trick1.len() < 4 {
            &&& post.current_trick@ == trick1
            &&& post.current_player_index == (seat as int + 1) % 4
            &&& post.state == GameState::Playing
            &&& (forall|i: int|
                0 <= i < 4 ==> (#[trigger] post.players@[i]).won_tricks
                    == pre.players@[i].won_tricks)
            &&& post.scores == pre.scores
        } else {
            let w = trick_winner_spec(trick1, pre.trump_suit);
            &&& post.current_trick@.len() == 0
            &&& post.current_player_index == w
            &&& (forall|i: int|
                0 <= i < 4 ==> (#[trigger] post.players@[i]).won_tricks as int == pre.players@[
                    i
                ].won_tricks as int + (if i == w as int {
                    1int
                } else {
                    0int
                }))
            &&& if post.players@[0].hand@.len() == 0 {
                &&& post.state == GameState::Finished
                &&& (if post.players@[0].won_tricks + post.players@[2].won_tricks >= 7 {
                    post.scores.0 == pre.scores.0 + 1 && post.scores.1 == pre.scores.1
                } else {
                    post.scores.0 == pre.scores.0 && post.scores.1 == pre.scores.1 + 1
                })
            } else {
                &&& post.state == GameState::Playing
                &&& post.scores == pre.scores
            }
        }
    }

    /// The mid-play state handed to trick resolution: the Playing-phase
    /// invariant, but with all four cards of the trick on the table and
    /// every seat's hand already one card short.
    pub open spec fn resolvable(self) -> bool {
        &&& self.players@.len() == 4
        &&& (forall|i: int| 0 <= i < 4 ==> (#[trigger] self.players@[i]).id == i)
        &&& self.hakim_index < 4
        &&& self.current_player_index < 4
        &&& self.state == GameState::Playing
        &&& self.trump_suit is Some
        &&& self.scores.0 == 0 && self.scores.1 == 0
        &&& self.current_trick@.len() == 4
        &&& (forall|k: int|
            0 <= k < self.current_trick@.len() ==> (#[trigger] self.current_trick@[k]).0 < 4)
        &&& (forall|c: Card| #[trigger] self.cards_in_play().count(c) <= 1)
        &&& 0 <= self.tricks_done() <= 12
        &&& (forall|i: int|
            0 <= i < 4 ==> (#[trigger] self.players@[i]).hand@.len() == 12 - self.tricks_done())
    }

    /// Resolves the completed trick: the winning seat's counter rises by
    /// one, the winner leads the next trick, the trick is emptied, and the
    /// round ends once the hands are empty.
    fn resolve_trick(&mut self)
        requires
            old(self).resolvable(),
        ensures
            final(self).wf(),
            final(self).players@.len() == 4,
            final(self).hakim_index == old(self).hakim_index,
            final(self).trump_suit == old(self).trump_suit,
            final(self).current_trick@.len() == 0,
            forall|i: int|
                0 <= i < 4 ==> (#[trigger] final(self).players@[i]).id == i && final(self).players@[i].hand@ == old(self).players@[i].hand@,
            ({
                let w = trick_winner_spec(old(self).current_trick@, old(self).trump_suit);
                &&& final(self).current_player_index == w
                &&& (forall|i: int|
                    0 <= i < 4 ==> (#[trigger] final(self).players@[i]).won_tricks as int == old(self).players@[i].won_tricks as int + (if i == w as int {
                        1int
                    } else {
                        0int
                    }))
                &&& (if old(self).players@[0].hand@.len() == 0 {
                    &&& final(self).state == GameState::Finished
                    &&& (if final(self).players@[0].won_tricks + final(self).players@[2].won_tricks >= 7 {
                        final(self).scores.0 == 1 && final(self).scores.1 == 0
                    } else {
                        final(self).scores.0 == 0 && final(self).scores.1 == 1
                    })
                } else {
                    &&& final(self).state == GameState::Playing
                    &&& final(self).scores == old(self).scores
                })
            }),
    {
        let winner_idx = self.determine_trick_winner();
        proof {
            assert(self.players@[winner_idx as int].won_tricks <= self.tricks_done());
        }
        self.players[winner_idx].won_tricks = self.players[winner_idx].won_tricks + 1;
        self.current_trick.clear();
        self.current_player_index = winner_idx;
        proof {
            assert(self.trick_cards() =~= Seq::<Card>::empty());
            assert forall|c: Card| #[trigger] self.cards_in_play().count(c) <= 1 by {
                broadcast use vstd::multiset::group_multiset_axioms;
                broadcast use vstd::seq_lib::group_to_multiset_ensures;

                assert(old(self).cards_in_play().count(c) <= 1);
                assert(self.dealt_cards() == old(self).dealt_cards());
                assert(self.trick_cards().to_multiset().len() == 0);
            }
        }
        let ghost mid = *self;
        if self.players[0].hand.len() == 0 {
            proof {
                assert(self.tricks_done() == old(self).tricks_done() + 1);
                assert(old(self).players@[0].hand@.len() == 12 - old(self).tricks_done());
            }
            self.end_round();
        }
        proof {
            assert forall|c: Card| #[trigger] self.cards_in_play().count(c) <= 1 by {
                assert(mid.cards_in_play().count(c) <= 1);
                assert(self.cards_in_play() == mid.cards_in_play());
            }
        }
    }

    /// The seat winning the open trick as it stands, under the round's
    /// trump suit.
    fn determine_trick_winner(&self) -> (winner: usize)
        requires
            self.current_trick@.len() >= 1,
        ensures
            winner == trick_winner_spec(self.current_trick@, self.trump_suit),
            exists|k: int| 0 <= k < self.current_trick@.len() && self.current_trick@[k].0 == winner,
    {
        trick_winner(&self.current_trick, self.trump_suit)
    }

    /// Ends the round after the thirteenth trick: team A (seats 0 and 2)
    /// takes the round with seven or more tricks, the majority of thirteen,
    /// otherwise team B does. The winning team's score rises by exactly one
    /// and the phase becomes Finished.
    fn end_round(&mut self)
        requires
            old(self).players@.len() == 4,
            old(self).players@[0].won_tricks + old(self).players@[2].won_tricks <= u32::MAX,
            old(self).scores.0 < u32::MAX,
            old(self).scores.1 < u32::MAX,
        ensures
            final(self).state == GameState::Finished,
            final(self).players == old(self).players,
            final(self).current_trick == old(self).current_trick,
            final(self).current_player_index == old(self).current_player_index,
            final(self).hakim_index == old(self).hakim_index,
            final(self).trump_suit == old(self).trump_suit,
            old(self).players@[0].won_tricks + old(self).players@[2].won_tricks >= 7 ==> final(self).scores.0 == old(self).scores.0 + 1 && final(self).scores.1 == old(self).scores.1,
            old(self).players@[0].won_tricks + old(self).players@[2].won_tricks < 7 ==> final(self).scores.0 == old(self).scores.0 && final(self).scores.1 == old(self).scores.1 + 1,
    {
        let team0_tricks = self.players[0].won_tricks + self.players[2].won_tricks;
        if team0_tricks >= 7 {
            self.scores = (self.scores.0 + 1, self.scores.1);
        } else {
            self.scores = (self.scores.0, self.scores.1 + 1);
        }
        self.state = GameState::Finished;
    }

    /// Plays `card` from seat `player_id` into the trick. The checks, in
    /// order, each with its own error: the phase must be Playing, the seat
    /// must be the current player, the card must be in that seat's hand,
    /// and if the trick already has a lead suit and the seat still holds
    /// that suit, the card must follow it. A rejected play leaves the game
    /// completely unchanged. A legal play moves the card from the hand to
    /// the trick; the fourth card resolves the trick and the thirteenth
    /// resolved trick ends the round.
    pub fn play_card(&mut self, player_id: usize, card: Card) -> (r: Result<(), HokmError>)
        requires
            old(self).wf(),
        ensures
            final(self).wf(),
            match old(self).play_card_error(player_id, card) {
                Some(e) => r == Err::<(), HokmError>(e) && *final(self) == *old(self),
                None => r == Ok::<(), HokmError>(()) && HokmGame::play_card_success(
                    *old(self),
                    *final(self),
                    player_id,
                    card,
                ),
            },
    {
        if self.state != GameState::Playing {
            return Err(HokmError::InvalidPhase);
        }
        if player_id != self.current_player_index {
            return Err(HokmError::NotYourTurn);
        }
        if !hand_contains(&self.players[player_id].hand, &card) {
            return Err(HokmError::CardNotInHand);
        }
        if self.current_trick.len() > 0 {
            let lead_card_suit = self.current_trick[0].1.suit;
            if card.suit != lead_card_suit && self.players[player_id].has_suit(lead_card_suit) {
                return Err(HokmError::MustFollowSuit);
            }
        }
        proof {
            self.lemma_acting_seat_not_in_trick(player_id);
        }
        let ghost pre = *self;
        self.players[player_id].remove_card(&card);
        self.current_trick.push((player_id, card));
        proof {
            assert(self.trick_cards() =~= pre.trick_cards().push(card));
            assert forall|c: Card| #[trigger] self.cards_in_play().count(c) <= 1 by {
                broadcast use vstd::multiset::group_multiset_axioms;
                broadcast use vstd::seq_lib::group_to_multiset_ensures;

                assert(pre.cards_in_play().count(c) <= 1);
                assert(pre.players@[player_id as int].hand@.to_multiset().count(card) > 0);
                assert(self.trick_cards().to_multiset() =~= pre.trick_cards().to_multiset().insert(
                    card,
                ));
            }
        }
        let ghost mid = *self;
        if self.current_trick.len() == 4 {
            proof {
                assert forall|i: int|
                    0 <= i < 4 && i != player_id implies pre.seat_in_trick(i) by {
                    let t0 = pre.current_trick@[0].0 as int;
                    let k = (i - t0) % 4;
                    assert(0 <= k < 4);
                    assert((t0 + k) % 4 == i);
                    assert(player_id == (t0 + 3) % 4);
                    assert(k != 3);
                    assert(pre.current_trick@[k].0 == (t0 + k) % 4);
                }
                assert forall|k: int|
                    0 <= k < self.current_trick@.len() implies (
                #[trigger] self.current_trick@[k]).0 < 4 by {
                    if k < 3 {
                        assert(self.current_trick@[k] == pre.current_trick@[k]);
                    }
                }
                assert(self.resolvable());
            }
            self.resolve_trick();
        } else {
            self.current_player_index = (player_id + 1) % 4;
            proof {
                let trick1 = pre.current_trick@.push((player_id, card));
                assert(self.current_trick@ == trick1);
                assert forall|c: Card| #[trigger] self.cards_in_play().count(c) <= 1 by {
                    assert(mid.cards_in_play().count(c) <= 1);
                    assert(self.cards_in_play() == mid.cards_in_play());
                }
                assert forall|k: int|
                    0 <= k < self.current_trick@.len() implies (
                #[trigger] self.current_trick@[k]).0 == (self.current_trick@[0].0 + k) % 4 by {
                    if k < pre.current_trick@.len() {
                        assert(self.current_trick@[k] == pre.current_trick@[k]);
                    }
                    if pre.current_trick@.len() == 0 {
                        assert(self.current_trick@[0].0 == player_id);
                    }
                }
                assert forall|i: int|
                    0 <= i < 4 implies (#[trigger] self.players@[i]).hand@.len() == 13
                    - self.tricks_done() - (if self.seat_in_trick(i) {
                    1int
                } else {
                    0int
                }) by {
                    if i == player_id {
                        assert(self.current_trick@[pre.current_trick@.len() as int].0 == i);
                        assert(self.seat_in_trick(i));
                        assert(!pre.seat_in_trick(i));
                    } else {
                        assert(self.players@[i].hand@ == pre.players@[i].hand@);
                        assert(self.seat_in_trick(i) == pre.seat_in_trick(i)) by {
                            if self.seat_in_trick(i) {
                                let k = choose|k: int|
                                    0 <= k < self.current_trick@.len()
                                        && self.current_trick@[k].0 == i;
                                assert(k < pre.current_trick@.len());
                                assert(pre.current_trick@[k].0 == i);
                            }
                            if pre.seat_in_trick(i) {
                                let k = choose|k: int|
                                    0 <= k < pre.current_trick@.len()
                                        && pre.current_trick@[k].0 == i;
                                assert(self.current_trick@[k].0 == i);
                            }
                        }
                    }
                }
                assert(self.wf());
            }
        }
        Ok(())
    }

    /// In a well-formed Playing state the current player has not yet played
    /// into the open trick: the trick holds the seats of the rotation that
    /// ends just before the current player.
    proof fn lemma_acting_seat_not_in_trick(self, seat: usize)
        requires
            self.wf(),
            self.state == GameState::Playing,
            seat == self.current_player_index,
        ensures
            !self.seat_in_trick(seat as int),
            forall|k: int|
                0 <= k < self.current_trick@.len() ==> (#[trigger] self.current_trick@[k]).0
                    != seat,
    {
        assert forall|k: int|
            0 <= k < self.current_trick@.len() implies (#[trigger] self.current_trick@[k]).0
            != seat by {
            let t0 = self.current_trick@[0].0 as int;
            let n = self.current_trick@.len() as int;
            assert(self.current_trick@[k].0 == (t0 + k) % 4);
            assert(seat == (t0 + n) % 4);
            assert((t0 + k) % 4 != (t0 + n) % 4);
        }
    }

    /// Dealing covers the deck: when each card appears exactly once across
    /// the four hands (as `start_game` ensures), the union of the hands is
    /// exactly the full 52-card deck, with no duplicate and no omission.
    pub proof fn lemma_deal_is_full_deck(self)
        requires
            forall|c: Card| #[trigger] self.dealt_cards().count(c) == 1,
        ensures
            self.dealt_cards() == full_deck().to_multiset(),
    {
        lemma_full_deck_each_card_once();
        assert(self.dealt_cards() =~= full_deck().to_multiset());
    }

    /// No card is in two places at once: in a well-formed game each card
    /// value appears at most once across the four hands and the open trick.
    pub proof fn lemma_card_unique(self, c: Card)
        requires
            self.wf(),
        ensures
            self.cards_in_play().count(c) <= 1,
    {
    }

    /// A card held by one seat is held by no other seat and is not on the
    /// table in the open trick.
    pub proof fn lemma_no_card_in_two_hands(self, i: int, j: int, c: Card)
        requires
            self.wf(),
            0 <= i < 4,
            0 <= j < 4,
            i != j,
            self.hand(i).contains(c),
        ensures
            !self.hand(j).contains(c),
            !self.trick_cards().contains(c),
    {
        broadcast use vstd::multiset::group_multiset_axioms;
        broadcast use vstd::seq_lib::group_to_multiset_ensures;

        assert(self.hand(i).to_multiset().count(c) > 0);
        assert(self.cards_in_play().count(c) <= 1);
        assert(self.dealt_cards().count(c) >= self.hand(i).to_multiset().count(c)
            + self.hand(j).to_multiset().count(c));
        if self.trick_cards().contains(c) {
            assert(self.trick_cards().to_multiset().count(c) > 0);
        }
    }

    /// After dealing, the union of the four hands is exactly the deck: each
    /// hand is two contiguous pieces of it and the eight pieces tile all 52
    /// positions.
    proof fn lemma_deal_covers_deck(self, d: Seq<Card>, r: Seq<Card>)
        requires
            d.len() == 52,
            forall|c: Card| #[trigger] d.to_multiset().count(c) == 1,
            r == d.subrange(20, 52),
            self.players@.len() == 4,
            forall|k: int|
                0 <= k < 4 ==> (#[trigger] self.players@[k]).hand@ == d.subrange(5 * k, 5 * k + 5)
                    + r.subrange(8 * k, 8 * k + 8),
        ensures
            forall|c: Card| #[trigger] self.dealt_cards().count(c) == 1,
    {
        broadcast use vstd::seq_lib::lemma_multiset_commutative;
        broadcast use vstd::multiset::group_multiset_axioms;

        let p0 = d.subrange(0, 5);
        let p1 = d.subrange(5, 10);
        let p2 = d.subrange(10, 15);
        let p3 = d.subrange(15, 20);
        let q0 = r.subrange(0, 8);
        let q1 = r.subrange(8, 16);
        let q2 = r.subrange(16, 24);
        let q3 = r.subrange(24, 32);
        assert(d =~= p0 + p1 + p2 + p3 + q0 + q1 + q2 + q3);
        assert(self.hand(0) == p0 + q0);
        assert(self.hand(1) == p1 + q1);
        assert(self.hand(2) == p2 + q2);
        assert(self.hand(3) == p3 + q3);
        assert forall|c: Card| #[trigger] self.dealt_cards().count(c) == 1 by {
            assert((p0 + p1 + p2 + p3 + q0 + q1 + q2 + q3).to_multiset().count(c) == 1);
        }
    }
}

/// A linear scan: does the hand hold `card`?
fn hand_contains(hand: &Vec<Card>, card: &Card) -> (r: bool)
    ensures
        r == hand@.contains(*card),
{
    let mut i: usize = 0;
    while i < hand.len()
        invariant
            i <= hand@.len(),
            forall|k: int| 0 <= k < i ==> hand@[k] != *card,
        decreases hand@.len() - i,
    {
        if hand[i] == *card {
            return true;
        }
        i = i + 1;
    }
    false
}

/// Copies `deck[start..end]` into a fresh vector.
fn cards_range(deck: &Vec<Card>, start: usize, end: usize) -> (r: Vec<Card>)
    requires
        start <= end,
        end <= deck@.len(),
    ensures
        r@ == deck@.subrange(start as int, end as int),
{
    let mut r: Vec<Card> = Vec::new();
    let mut i: usize = start;
    while i < end
        invariant
            start <= i <= end,
            end <= deck@.len(),
            r@ == deck@.subrange(start as int, i as int),
        decreases end - i,
    {
        r.push(deck[i]);
        proof {
            assert(deck@.subrange(start as int, i as int + 1) =~= deck@.subrange(
                start as int,
                i as int,
            ).push(deck@[i as int]));
        }
        i = i + 1;
    }
    r
}

} // verus!
