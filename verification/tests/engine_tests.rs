use hokm::cards::{Card, Rank, Suit};
use hokm::game::{GameState, HokmError, HokmGame};
use hokm::player::Player;
use hokm::trick::trick_winner;

fn card(rank: Rank, suit: Suit) -> Card {
    Card { rank, suit }
}

fn player_with(id: usize, hand: Vec<Card>, won_tricks: u32) -> Player {
    Player { id, hand, won_tricks }
}

/// A mid-round Playing-phase game: every seat holds the given hand, the
/// trick is empty, `leader` is to act, and the given trick counts have
/// already been won (hands and counts must agree: 13 = tricks won so far
/// + cards still held by each seat).
fn playing_game(
    hands: [Vec<Card>; 4],
    won: [u32; 4],
    trump: Suit,
    leader: usize,
) -> HokmGame {
    let [h0, h1, h2, h3] = hands;
    HokmGame {
        players: vec![
            player_with(0, h0, won[0]),
            player_with(1, h1, won[1]),
            player_with(2, h2, won[2]),
            player_with(3, h3, won[3]),
        ],
        hakim_index: 0,
        trump_suit: Some(trump),
        current_player_index: leader,
        state: GameState::Playing,
        current_trick: Vec::new(),
        scores: (0, 0),
    }
}

#[test]
fn new_game_initial_state() {
    let g = HokmGame::new();
    assert_eq!(g.state, GameState::DetermineHakim);
    assert_eq!(g.hakim_index, 0);
    assert_eq!(g.current_player_index, 0);
    assert_eq!(g.trump_suit, None);
    assert_eq!(g.players.len(), 4);
    for (i, p) in g.players.iter().enumerate() {
        assert_eq!(p.id, i);
        assert!(p.hand.is_empty());
        assert_eq!(p.won_tricks, 0);
    }
    assert!(g.current_trick.is_empty());
    assert_eq!(g.scores, (0, 0));
}

#[test]
fn create_deck_has_52_unique_cards() {
    let deck = HokmGame::create_deck();
    assert_eq!(deck.len(), 52);
    for i in 0..deck.len() {
        for j in 0..i {
            assert_ne!(deck[i], deck[j]);
        }
    }
    // a few concrete combinations must be present
    assert!(deck.contains(&card(Rank::Two, Suit::Hearts)));
    assert!(deck.contains(&card(Rank::Ace, Suit::Spades)));
    assert!(deck.contains(&card(Rank::Queen, Suit::Diamonds)));
}

#[test]
fn start_game_deals_13_to_each_seat() {
    let mut g = HokmGame::new();
    g.start_game();
    assert_eq!(g.state, GameState::DeclareTrump);
    assert_eq!(g.current_player_index, g.hakim_index);
    for p in &g.players {
        assert_eq!(p.hand.len(), 13);
    }
}

#[test]
fn start_game_union_of_hands_is_full_deck() {
    let mut g = HokmGame::new();
    g.start_game();
    let mut all: Vec<Card> = Vec::new();
    for p in &g.players {
        all.extend(p.hand.iter().copied());
    }
    assert_eq!(all.len(), 52);
    for i in 0..all.len() {
        for j in 0..i {
            assert_ne!(all[i], all[j]);
        }
    }
}

#[test]
fn declare_trump_sets_trump_and_phase() {
    let mut g = HokmGame::new();
    g.start_game();
    let r = g.declare_trump(Suit::Hearts);
    assert_eq!(r, Ok(()));
    assert_eq!(g.trump_suit, Some(Suit::Hearts));
    assert_eq!(g.state, GameState::Playing);
    assert_eq!(g.current_player_index, g.hakim_index);
}

#[test]
fn declare_trump_outside_phase_is_rejected() {
    let mut g = HokmGame::new();
    let r = g.declare_trump(Suit::Clubs);
    assert_eq!(r, Err(HokmError::InvalidPhase));
    assert_eq!(g.trump_suit, None);
    assert_eq!(g.state, GameState::DetermineHakim);
}

#[test]
fn declare_trump_twice_second_call_is_rejected() {
    let mut g = HokmGame::new();
    g.start_game();
    assert_eq!(g.declare_trump(Suit::Spades), Ok(()));
    let r = g.declare_trump(Suit::Hearts);
    assert_eq!(r, Err(HokmError::InvalidPhase));
    assert_eq!(g.trump_suit, Some(Suit::Spades));
    assert_eq!(g.state, GameState::Playing);
}

#[test]
fn play_card_outside_playing_phase_is_rejected() {
    let mut g = HokmGame::new();
    let r = g.play_card(0, card(Rank::Ace, Suit::Hearts));
    assert_eq!(r, Err(HokmError::InvalidPhase));
    assert_eq!(g.state, GameState::DetermineHakim);
}

#[test]
fn play_card_out_of_turn_is_rejected() {
    let mut g = HokmGame::new();
    g.start_game();
    g.declare_trump(Suit::Spades).unwrap();
    assert_eq!(g.current_player_index, 0);
    let seat1_card = g.players[1].hand[0];
    let hand_before = g.players[1].hand.clone();
    let r = g.play_card(1, seat1_card);
    assert_eq!(r, Err(HokmError::NotYourTurn));
    assert_eq!(g.players[1].hand, hand_before);
    assert!(g.current_trick.is_empty());
    assert_eq!(g.current_player_index, 0);
}

#[test]
fn play_card_not_in_hand_is_rejected() {
    let mut g = HokmGame::new();
    g.start_game();
    g.declare_trump(Suit::Spades).unwrap();
    // find a card seat 0 does not hold
    let mut missing = None;
    for &suit in &[Suit::Hearts, Suit::Diamonds, Suit::Clubs, Suit::Spades] {
        for &rank in &[
            Rank::Two,
            Rank::Three,
            Rank::Four,
            Rank::Five,
            Rank::Six,
            Rank::Seven,
            Rank::Eight,
            Rank::Nine,
            Rank::Ten,
            Rank::Jack,
            Rank::Queen,
            Rank::King,
            Rank::Ace,
        ] {
            let c = card(rank, suit);
            if missing.is_none() && !g.players[0].hand.contains(&c) {
                missing = Some(c);
            }
        }
    }
    let c = missing.expect("a 13-card hand cannot hold all 52 cards");
    let r = g.play_card(0, c);
    assert_eq!(r, Err(HokmError::CardNotInHand));
    assert!(g.current_trick.is_empty());
}

#[test]
fn must_follow_suit_when_lead_suit_held() {
    // every seat holds two cards: eleven tricks already resolved
    let g0 = vec![card(Rank::Ten, Suit::Hearts), card(Rank::Two, Suit::Hearts)];
    let g1 = vec![card(Rank::Ace, Suit::Hearts), card(Rank::Two, Suit::Clubs)];
    let g2 = vec![card(Rank::Three, Suit::Clubs), card(Rank::Four, Suit::Clubs)];
    let g3 = vec![card(Rank::King, Suit::Hearts), card(Rank::Five, Suit::Clubs)];
    let mut g = playing_game([g0, g1, g2, g3], [3, 3, 3, 2], Suit::Spades, 0);
    assert_eq!(g.play_card(0, card(Rank::Ten, Suit::Hearts)), Ok(()));
    // seat 1 holds the Ace of Hearts, so a club is illegal
    let r = g.play_card(1, card(Rank::Two, Suit::Clubs));
    assert_eq!(r, Err(HokmError::MustFollowSuit));
    assert_eq!(g.players[1].hand.len(), 2);
    assert_eq!(g.current_trick.len(), 1);
    // following suit is legal
    assert_eq!(g.play_card(1, card(Rank::Ace, Suit::Hearts)), Ok(()));
}

#[test]
fn void_in_lead_suit_any_card_accepted() {
    let g0 = vec![card(Rank::Ten, Suit::Hearts), card(Rank::Two, Suit::Hearts)];
    let g1 = vec![card(Rank::Three, Suit::Clubs), card(Rank::Two, Suit::Clubs)];
    let g2 = vec![card(Rank::Four, Suit::Clubs), card(Rank::Five, Suit::Clubs)];
    let g3 = vec![card(Rank::King, Suit::Hearts), card(Rank::Six, Suit::Clubs)];
    let mut g = playing_game([g0, g1, g2, g3], [3, 3, 3, 2], Suit::Spades, 0);
    assert_eq!(g.play_card(0, card(Rank::Ten, Suit::Hearts)), Ok(()));
    // seat 1 holds no heart: an off-suit discard is legal
    assert_eq!(g.play_card(1, card(Rank::Two, Suit::Clubs)), Ok(()));
}

#[test]
fn trick_winner_trump_beats_higher_lead() {
    // lead suit Hearts, trump Spades: the lone trump wins the trick
    let trick = vec![
        (0usize, card(Rank::Ten, Suit::Hearts)),
        (1usize, card(Rank::Ace, Suit::Hearts)),
        (2usize, card(Rank::Two, Suit::Spades)),
        (3usize, card(Rank::King, Suit::Hearts)),
    ];
    assert_eq!(trick_winner(&trick, Some(Suit::Spades)), 2);
}

#[test]
fn trick_winner_highest_lead_when_no_trump_played() {
    // trump Spades but none played: the highest heart wins
    let trick = vec![
        (0usize, card(Rank::Ten, Suit::Hearts)),
        (1usize, card(Rank::Ace, Suit::Hearts)),
        (2usize, card(Rank::Two, Suit::Clubs)),
        (3usize, card(Rank::King, Suit::Hearts)),
    ];
    assert_eq!(trick_winner(&trick, Some(Suit::Spades)), 1);
}

#[test]
fn trick_winner_no_trump_declared_fallback() {
    let trick = vec![
        (0usize, card(Rank::Ten, Suit::Hearts)),
        (1usize, card(Rank::Ace, Suit::Hearts)),
        (2usize, card(Rank::Two, Suit::Clubs)),
        (3usize, card(Rank::King, Suit::Hearts)),
    ];
    assert_eq!(trick_winner(&trick, None), 1);
}

#[test]
fn trick_winner_higher_trump_overtakes_trump() {
    let trick = vec![
        (0usize, card(Rank::Two, Suit::Spades)),
        (1usize, card(Rank::Ace, Suit::Hearts)),
        (2usize, card(Rank::Queen, Suit::Spades)),
        (3usize, card(Rank::King, Suit::Spades)),
    ];
    // the queen of trumps overtakes the two, the king overtakes the queen
    assert_eq!(trick_winner(&trick, Some(Suit::Spades)), 3);
}

#[test]
fn resolved_trick_winner_leads_next() {
    // two cards per seat: the first trick resolves, the winner leads
    let g0 = vec![card(Rank::Ten, Suit::Hearts), card(Rank::Two, Suit::Hearts)];
    let g1 = vec![card(Rank::Ace, Suit::Hearts), card(Rank::Two, Suit::Clubs)];
    let g2 = vec![card(Rank::Three, Suit::Clubs), card(Rank::Four, Suit::Clubs)];
    let g3 = vec![card(Rank::King, Suit::Hearts), card(Rank::Five, Suit::Clubs)];
    let mut g = playing_game([g0, g1, g2, g3], [3, 3, 3, 2], Suit::Spades, 0);
    assert_eq!(g.play_card(0, card(Rank::Ten, Suit::Hearts)), Ok(()));
    assert_eq!(g.current_player_index, 1);
    assert_eq!(g.play_card(1, card(Rank::Ace, Suit::Hearts)), Ok(()));
    assert_eq!(g.play_card(2, card(Rank::Three, Suit::Clubs)), Ok(()));
    assert_eq!(g.play_card(3, card(Rank::King, Suit::Hearts)), Ok(()));
    // seat 1's ace of hearts took the trick
    assert!(g.current_trick.is_empty());
    assert_eq!(g.current_player_index, 1);
    assert_eq!(g.players[1].won_tricks, 4);
    assert_eq!(g.players[0].won_tricks, 3);
    assert_eq!(g.state, GameState::Playing);
    assert_eq!(g.scores, (0, 0));
}

#[test]
fn round_end_team_a_scores_with_seven_tricks() {
    // the thirteenth trick: one card per seat, twelve tricks resolved,
    // team A at six tricks; seat 0 takes the last with a trump
    let g0 = vec![card(Rank::Ace, Suit::Spades)];
    let g1 = vec![card(Rank::Ten, Suit::Hearts)];
    let g2 = vec![card(Rank::Two, Suit::Hearts)];
    let g3 = vec![card(Rank::King, Suit::Hearts)];
    let mut g = playing_game([g0, g1, g2, g3], [3, 3, 3, 3], Suit::Spades, 0);
    assert_eq!(g.play_card(0, card(Rank::Ace, Suit::Spades)), Ok(()));
    assert_eq!(g.play_card(1, card(Rank::Ten, Suit::Hearts)), Ok(()));
    assert_eq!(g.play_card(2, card(Rank::Two, Suit::Hearts)), Ok(()));
    assert_eq!(g.play_card(3, card(Rank::King, Suit::Hearts)), Ok(()));
    // team A: 4 + 3 = 7 of 13, team B: 3 + 3 = 6
    assert_eq!(g.players[0].won_tricks + g.players[2].won_tricks, 7);
    assert_eq!(g.players[1].won_tricks + g.players[3].won_tricks, 6);
    assert_eq!(g.scores, (1, 0));
    assert_eq!(g.state, GameState::Finished);
}

#[test]
fn round_end_team_b_scores_when_team_a_short() {
    // the thirteenth trick taken by seat 1: team B reaches seven
    let g0 = vec![card(Rank::Ten, Suit::Hearts)];
    let g1 = vec![card(Rank::Ace, Suit::Spades)];
    let g2 = vec![card(Rank::Two, Suit::Hearts)];
    let g3 = vec![card(Rank::King, Suit::Hearts)];
    let mut g = playing_game([g0, g1, g2, g3], [3, 3, 3, 3], Suit::Spades, 0);
    assert_eq!(g.play_card(0, card(Rank::Ten, Suit::Hearts)), Ok(()));
    assert_eq!(g.play_card(1, card(Rank::Ace, Suit::Spades)), Ok(()));
    assert_eq!(g.play_card(2, card(Rank::Two, Suit::Hearts)), Ok(()));
    assert_eq!(g.play_card(3, card(Rank::King, Suit::Hearts)), Ok(()));
    assert_eq!(g.players[0].won_tricks + g.players[2].won_tricks, 6);
    assert_eq!(g.players[1].won_tricks + g.players[3].won_tricks, 7);
    assert_eq!(g.scores, (0, 1));
    assert_eq!(g.state, GameState::Finished);
}

#[test]
fn played_card_leaves_hand_and_enters_trick() {
    let mut g = HokmGame::new();
    g.start_game();
    g.declare_trump(Suit::Diamonds).unwrap();
    let c = g.players[0].hand[0];
    assert_eq!(g.play_card(0, c), Ok(()));
    // the card is in exactly one place: the trick
    assert!(!g.players[0].hand.contains(&c));
    assert_eq!(g.players[0].hand.len(), 12);
    assert_eq!(g.current_trick, vec![(0usize, c)]);
    for p in &g.players[1..] {
        assert!(!p.hand.contains(&c));
    }
}

#[test]
fn full_round_runs_to_finish() {
    let mut g = HokmGame::new();
    g.start_game();
    g.declare_trump(Suit::Hearts).unwrap();
    for _trick in 0..13 {
        for _play in 0..4 {
            let seat = g.current_player_index;
            let hand = g.players[seat].hand.clone();
            let choice = if let Some(&(_, lead)) = g.current_trick.first() {
                hand.iter()
                    .copied()
                    .find(|c| c.suit == lead.suit)
                    .or_else(|| hand.first().copied())
            } else {
                hand.first().copied()
            };
            let c = choice.expect("a hand cannot be empty mid-round");
            assert_eq!(g.play_card(seat, c), Ok(()));
        }
    }
    assert_eq!(g.state, GameState::Finished);
    assert_eq!(g.scores.0 + g.scores.1, 1);
    for p in &g.players {
        assert!(p.hand.is_empty());
    }
    let total: u32 = g.players.iter().map(|p| p.won_tricks).sum();
    assert_eq!(total, 13);
}

#[test]
fn player_add_and_remove_cards() {
    let mut p = Player::new(2);
    assert_eq!(p.id, 2);
    p.add_cards(vec![card(Rank::Ace, Suit::Clubs), card(Rank::Two, Suit::Hearts)]);
    assert_eq!(p.hand.len(), 2);
    assert!(p.remove_card(&card(Rank::Ace, Suit::Clubs)));
    assert_eq!(p.hand, vec![card(Rank::Two, Suit::Hearts)]);
    assert!(!p.remove_card(&card(Rank::Ace, Suit::Clubs)));
    assert_eq!(p.hand.len(), 1);
}

#[test]
fn player_has_suit() {
    let mut p = Player::new(0);
    p.add_cards(vec![card(Rank::Nine, Suit::Diamonds)]);
    assert!(p.has_suit(Suit::Diamonds));
    assert!(!p.has_suit(Suit::Spades));
}
