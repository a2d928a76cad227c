//! Rules of a turn-based drawing game: players take turns placing circles on a
//! bounded board, no circle may touch another or leave the board, and each
//! circle a player places adds its area, rounded to a whole number, to that
//! player's score. The game is over when every player has retired; the
//! players are then ranked by score.
//!
//! The board is an integer grid. [`Session`] holds one game and takes the
//! players' gestures; the modules below it hold the rules it applies.

pub mod color;
pub mod isqrt;
pub mod placement;
pub mod player;
pub mod ranking;
pub mod session;
pub mod shape;
pub mod turn;

pub use color::Color;
pub use placement::{validate, PlacementError};
pub use player::Player;
pub use ranking::sort_by_score;
pub use session::{score_for, Feedback, Session};
pub use shape::{Circle, Position2d, Rect};
pub use turn::{disable_other_players, next_player_idx};
