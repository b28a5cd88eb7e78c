//! A player that moves at random.

use vstd::prelude::*;

use crate::chance::pick_in_range;
use crate::geometry::Move;
use crate::world::Game;

verus! {

/// The direction that a draw from 0 to 3 stands for.
pub open spec fn direction_of_draw(draw: i32) -> Move {
    if draw > 3 {
        Move::Up
    } else if draw > 2 {
        Move::Left
    } else if draw > 1 {
        Move::Down
    } else {
        Move::Right
    }
}

/// The direction that a draw stands for.
pub fn direction_for(draw: i32) -> (m: Move)
    ensures
        m == direction_of_draw(draw),
{
    if draw > 3 {
        Move::Up
    } else if draw > 2 {
        Move::Left
    } else if draw > 1 {
        Move::Down
    } else {
        Move::Right
    }
}

/// A direction drawn at random; it is never `Up`.
pub fn random_direction() -> (m: Move)
    ensures
        exists|draw: i32| 0 <= draw < 4 && m == direction_of_draw(draw),
        m != Move::Up,
{
    let draw: i32 = pick_in_range(0, 4);
    direction_for(draw)
}

/// A player that moves at random.
#[derive(Clone, Copy, Debug, PartialEq, Eq, Structural)]
pub struct ComputerPlayer {
    pub player_id: u8,
}

impl ComputerPlayer {
    pub fn init(player_id: u8) -> (player: Self)
        ensures
            player.player_id == player_id,
    {
        ComputerPlayer { player_id }
    }

    /// The next move: a direction drawn at random, whatever the world holds.
    pub fn play(&self, game: &Game) -> (m: Move)
        ensures
            exists|draw: i32| 0 <= draw < 4 && m == direction_of_draw(draw),
            m != Move::Up,
    {
        random_direction()
    }
}

} // verus!
