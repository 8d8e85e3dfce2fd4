//! Rules engine for Hokm, a four-player trick-taking card game played in two
//! fixed teams (seats 0 and 2 against seats 1 and 3). The engine owns the
//! deck, enforces turn order and suit-following, resolves tricks under a
//! trump suit, and tallies round scores for the two teams.

pub mod cards;
pub mod deck;
pub mod player;
pub mod trick;
pub mod game;
