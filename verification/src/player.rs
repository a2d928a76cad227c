//! A player of the game: a name, a colour, whether the player is still in the
//! game, and the score so far.

use crate::color::Color;
use vstd::prelude::*;

verus! {

/// What a player is, as plain values.
pub struct PlayerView {
    pub name: Seq<char>,
    pub color: Color,
    pub active: bool,
    pub score: u32,
}

impl PlayerView {
    /// A player who has just joined: in the game, with no points.
    pub open spec fn fresh(name: Seq<char>, color: Color) -> PlayerView {
        PlayerView { name, color, active: true, score: 0 }
    }

    /// The same player after leaving the game.
    pub open spec fn retired(self) -> PlayerView {
        PlayerView { active: false, ..self }
    }

    /// The same player with `amount` more points.
    pub open spec fn credited(self, amount: u32) -> PlayerView {
        PlayerView { score: (self.score + amount) as u32, ..self }
    }
}

/// A player. A player joins active and without points; the score only grows,
/// and a player who has left the game stays out.
#[derive(Debug)]
pub struct Player {
    name: String,
    color: Color,
    active: bool,
    score: u32,
}

impl View for Player {
    type V = PlayerView;

    closed spec fn view(&self) -> PlayerView {
        PlayerView { name: self.name@, color: self.color, active: self.active, score: self.score }
    }
}

impl Clone for Player {
    fn clone(&self) -> (copy: Player)
        ensures
            copy@ == self@,
    {
        Player {
            name: self.name.clone(),
            color: self.color,
            active: self.active,
            score: self.score,
        }
    }
}

/// The players of a sequence, as plain values.
pub open spec fn views(players: Seq<Player>) -> Seq<PlayerView> {
    players.map_values(|p: Player| p@)
}

impl Player {
    /// A new player, active and without points.
    pub fn new(name: &str, color: Color) -> (player: Player)
        ensures
            player@ == PlayerView::fresh(name@, color),
    {
        Player { name: name.to_owned(), color, active: true, score: 0 }
    }

    /// Takes the player out of the game, for good.
    pub fn deactivate(&mut self)
        ensures
            final(self)@ == old(self)@.retired(),
    {
        self.active = false;
    }

    /// The player's name.
    pub fn name(&self) -> (name: &str)
        ensures
            name@ == self@.name,
    {
        self.name.as_str()
    }

    /// The player's colour.
    pub fn color(&self) -> (color: &Color)
        ensures
            *color == self@.color,
    {
        &self.color
    }

    /// Whether the player is still in the game.
    pub fn active(&self) -> (active: bool)
        ensures
            active == self@.active,
    {
        self.active
    }

    /// The player's score.
    pub fn score(&self) -> (score: u32)
        ensures
            score == self@.score,
    {
        self.score
    }

    /// Adds `amount` to the score and returns the new score.
    pub fn add_score(&mut self, amount: u32) -> (total: u32)
        requires
            old(self)@.score + amount <= u32::MAX,
        ensures
            final(self)@ == old(self)@.credited(amount),
            total == old(self)@.score + amount,
    {
        self.score += amount;
        self.score
    }
}

/// Retiring takes a player out of the game and changes nothing else; to
/// retire a second time changes nothing at all.
pub proof fn lemma_retired_once(player: PlayerView)
    ensures
        !player.retired().active,
        player.retired().name == player.name,
        player.retired().color == player.color,
        player.retired().score == player.score,
        player.retired().retired() == player.retired(),
{
}

/// Points are only ever added: a player who is given points keeps name,
/// colour and place in the game, and the score grows by the points given.
pub proof fn lemma_credited(player: PlayerView, amount: u32)
    requires
        player.score + amount <= u32::MAX,
    ensures
        player.credited(amount).score == player.score + amount,
        player.credited(amount).score >= player.score,
        player.credited(amount).name == player.name,
        player.credited(amount).color == player.color,
        player.credited(amount).active == player.active,
        player.credited(0) == player,
{
}

} // verus!
