//! The rules of one player's worker: where a player starts, when input and
//! frames are due, what one frame step does to the world, and when the game
//! has ended. The worker itself, with its socket and its clock, lives outside;
//! it hands in the time in milliseconds and what it received.

use vstd::prelude::*;

use crate::chance::shuffle_colors;
use crate::game::Snake;
use crate::game::INITIAL_STOMACH;
use crate::geometry::opposite;
use crate::geometry::Move;
use crate::protocol::PlayerParams;
use crate::world::alive_count;
use crate::world::index_of_id;
use crate::world::initial_direction;
use crate::world::Game;
use crate::world::Rolls;

verus! {

/// Side of the grid, in tiles.
pub const MAP_SIZE: u16 = 64;

/// Side of a tile, in pixels.
pub const BLOCK_SIZE: u16 = 10;

/// Initial speed of the players.
pub const INITIAL_SPEED: u8 = 1;

/// Milliseconds between two frames.
pub const INITIAL_PERIOD: u64 = 50;

/// Milliseconds a worker sleeps between two rounds.
pub const GAME_SLEEP: u64 = 1;

/// Milliseconds after which a read gives up.
pub const READ_TO: u64 = 1;

/// Milliseconds between two looks for a move of the client.
pub const INPUT_PERIOD: u64 = 10;

/// Milliseconds a boost lasts.
pub const BOOST_DURATION: u64 = 750;

/// Tiles between a start position and the two nearest borders.
pub const START_OFFSET: u16 = 4;

/// Fewest and most players of a game.
pub const MIN_PLAYERS: u8 = 2;

pub const MAX_PLAYERS: u8 = 4;

/// Whether a game can have `n_players` players.
pub fn is_valid_player_count(n_players: u8) -> (ok: bool)
    ensures
        ok == (2 <= n_players <= 4),
{
    !(n_players < MIN_PLAYERS || n_players > MAX_PLAYERS)
}

/// Where the player `player_id` starts: players 1 to 4 take the four corners,
/// four tiles from each of the two nearest borders.
pub open spec fn start_of(player_id: u8) -> Option<(u16, u16)> {
    if player_id == 1 {
        Some((4u16, 4u16))
    } else if player_id == 2 {
        Some((4u16, 60u16))
    } else if player_id == 3 {
        Some((60u16, 4u16))
    } else if player_id == 4 {
        Some((60u16, 60u16))
    } else {
        None
    }
}

/// Where the player `player_id` starts, for players 1 to 4.
pub fn start_position(player_id: u8) -> (start: Option<(u16, u16)>)
    ensures
        start == start_of(player_id),
{
    match player_id {
        1 => Some((START_OFFSET, START_OFFSET)),
        2 => Some((START_OFFSET, MAP_SIZE - START_OFFSET)),
        3 => Some((MAP_SIZE - START_OFFSET, START_OFFSET)),
        4 => Some((MAP_SIZE - START_OFFSET, MAP_SIZE - START_OFFSET)),
        _ => None,
    }
}

/// The colours that snakes are given.
pub open spec fn palette() -> Seq<(u8, u8, u8)> {
    seq![
        (0x4Cu8, 0x3Bu8, 0xE3u8),
        (0xDAu8, 0xADu8, 0xFFu8),
        (0xF6u8, 0x83u8, 0x03u8),
        (0xF7u8, 0x49u8, 0x80u8),
        (0x9Au8, 0xF4u8, 0x96u8),
        (0x91u8, 0x67u8, 0x9Du8),
        (0xE1u8, 0x1Cu8, 0x2Fu8),
        (0x97u8, 0x99u8, 0x13u8),
    ]
}

/// The colours that snakes are given, in a random order.
pub fn snake_colors() -> (colors: Vec<(u8, u8, u8)>)
    ensures
        colors@.len() == 8,
        colors@.to_multiset() == palette().to_multiset(),
{
    let mut colors: Vec<(u8, u8, u8)> = Vec::new();
    colors.push((0x4C, 0x3B, 0xE3));
    colors.push((0xDA, 0xAD, 0xFF));
    colors.push((0xF6, 0x83, 0x03));
    colors.push((0xF7, 0x49, 0x80));
    colors.push((0x9A, 0xF4, 0x96));
    colors.push((0x91, 0x67, 0x9D));
    colors.push((0xE1, 0x1C, 0x2F));
    colors.push((0x97, 0x99, 0x13));
    proof {
        assert(colors@ =~= palette());
    }
    shuffle_colors(&mut colors);
    colors
}

/// The states of a worker.
#[derive(Clone, Copy, Debug, PartialEq, Eq, Structural)]
pub enum Phase {
    /// The player's snake is in the world; not all players have joined.
    AwaitingPlayers,
    /// All players have joined and this player has been told the parameters.
    GameParamsSent,
    /// The game runs.
    Simulating,
    /// Fewer than two snakes are alive.
    Ended,
}

/// What one frame step of a worker came to.
#[derive(Clone, Copy, Debug, PartialEq, Eq, Structural)]
pub enum FrameStep {
    /// The snake made its tick, and a second one if it was boosted.
    Advanced,
    /// No frame step is made in this phase.
    Idle,
    /// The snake cannot tick: its head would leave the coordinate range, or
    /// its growth credits have no room for an apple. The world is as it was.
    Blocked,
}

/// One player's worker, as far as its decisions go.
#[derive(Clone, Copy, Debug, PartialEq, Eq, Structural)]
pub struct Worker {
    pub player_id: u8,
    pub n_players: u8,
    pub phase: Phase,
    /// Index of the player's snake in the world.
    pub snake_index: usize,
    /// When the last frame was sent, in milliseconds.
    pub last_frame: u64,
    /// When the last move was taken, in milliseconds.
    pub last_input: u64,
    /// When the last boost began, in milliseconds.
    pub last_boost: u64,
}

/// Whether more than `period` milliseconds have passed from `since` to `now`.
pub open spec fn is_due(since: u64, now: u64, period: u64) -> bool {
    now - since > period
}

/// Whether more than `period` milliseconds have passed from `since` to `now`.
pub fn due(since: u64, now: u64, period: u64) -> (r: bool)
    ensures
        r == is_due(since, now, period),
{
    now > since && now - since > period
}

impl Worker {
    /// Puts the snake of the player `player_id` into the world at its start
    /// position and returns its worker, which waits for the other players.
    /// Returns nothing, and leaves the world as it was, for a player other
    /// than 1 to 4 or one that is already in the world.
    pub fn join(game: &mut Game, player_id: u8, n_players: u8, snake_color: (u8, u8, u8)) -> (w:
        Option<Worker>)
        requires
            old(game).wf(),
        ensures
            final(game).wf(),
            final(game).same_settings(old(game)),
            final(game).food == old(game).food,
            w.is_some() == (start_of(player_id).is_some() && index_of_id(
                old(game).players@,
                player_id,
                0,
            ) == old(game).players@.len()),
            w.is_none() ==> final(game).players == old(game).players,
            w.is_some() ==> {
                &&& w.unwrap().player_id == player_id
                &&& w.unwrap().n_players == n_players
                &&& w.unwrap().phase == Phase::AwaitingPlayers
                &&& w.unwrap().snake_index == old(game).players@.len()
                &&& final(game).players@.len() == old(game).players@.len() + 1
                &&& final(game).players@.drop_last() == old(game).players@
                &&& final(game).players@.last().id == player_id
                &&& final(game).players@.last().color == snake_color
                &&& final(game).players@.last().head@ == seq![
                    (start_of(player_id).unwrap().0 as i16, start_of(player_id).unwrap().1 as i16),
                    (start_of(player_id).unwrap().0 as i16, start_of(player_id).unwrap().1 as i16),
                ]
                &&& final(game).players@.last().direction == initial_direction(
                    start_of(player_id).unwrap().0,
                    start_of(player_id).unwrap().1,
                    old(game).dimensions,
                )
                &&& final(game).players@.last().moving == final(game).players@.last().direction
                &&& final(game).players@.last().stomach == INITIAL_STOMACH
                &&& !final(game).players@.last().has_lost
                &&& !final(game).players@.last().boost
            },
    {
        let start = start_position(player_id);
        match start {
            None => None,
            Some((x, y)) => {
                if game.get_player(player_id).is_some() {
                    return None;
                }
                let index: usize = game.players.len();
                game.add_player(player_id, snake_color, x, y);
                Some(
                    Worker {
                        player_id,
                        n_players,
                        phase: Phase::AwaitingPlayers,
                        snake_index: index,
                        last_frame: 0,
                        last_input: 0,
                        last_boost: 0,
                    },
                )
            },
        }
    }

    /// Whether all players have joined.
    pub fn everyone_joined(&self, game: &Game) -> (r: bool)
        ensures
            r == (game.players@.len() == self.n_players),
    {
        game.players.len() == self.n_players as usize
    }

    /// What the game parameters say of the players, once all have joined:
    /// identifier, colour and head position of the first `n_players` snakes.
    /// The worker has then told its player the parameters.
    pub fn announce(&mut self, game: &Game) -> (players: Vec<PlayerParams>)
        requires
            old(self).n_players <= game.players@.len(),
        ensures
            final(self).phase == if old(self).phase == Phase::AwaitingPlayers {
                Phase::GameParamsSent
            } else {
                old(self).phase
            },
            final(self).player_id == old(self).player_id,
            final(self).n_players == old(self).n_players,
            final(self).snake_index == old(self).snake_index,
            final(self).last_frame == old(self).last_frame,
            final(self).last_input == old(self).last_input,
            final(self).last_boost == old(self).last_boost,
            players@.len() == old(self).n_players,
            forall|i: int|
                0 <= i < players@.len() ==> players@[i] == (
                    game.players@[i].id,
                    game.players@[i].color,
                    game.players@[i].head@[0].0,
                    game.players@[i].head@[0].1,
                ),
    {
        let mut players: Vec<PlayerParams> = Vec::new();
        let mut i: usize = 0;
        while i < self.n_players as usize
            invariant
                0 <= i <= self.n_players <= game.players@.len(),
                *self == *old(self),
                players@.len() == i,
                forall|k: int|
                    0 <= k < i ==> players@[k] == (
                        game.players@[k].id,
                        game.players@[k].color,
                        game.players@[k].head@[0].0,
                        game.players@[k].head@[0].1,
                    ),
            decreases self.n_players - i,
        {
            proof {
                game.players@[i as int].head.lemma_path();
            }
            let player = &game.players[i];
            players.push((player.id, player.color, player.head.x, player.head.y));
            i += 1;
        }
        if self.phase == Phase::AwaitingPlayers {
            self.phase = Phase::GameParamsSent;
        }
        players
    }

    /// Starts the simulation at time `now`, once the parameters are sent: the
    /// worker finds its snake and sets its clocks. Returns whether it did; it
    /// does not in another phase or when its snake is not in the world.
    pub fn start(&mut self, game: &Game, now: u64) -> (started: bool)
        ensures
            started == (old(self).phase == Phase::GameParamsSent && index_of_id(
                game.players@,
                old(self).player_id,
                0,
            ) < game.players@.len()),
            !started ==> *final(self) == *old(self),
            started ==> *final(self) == (Worker {
                phase: Phase::Simulating,
                snake_index: index_of_id(game.players@, old(self).player_id, 0) as usize,
                last_frame: now,
                last_input: now,
                last_boost: now,
                ..*old(self)
            }),
    {
        if self.phase != Phase::GameParamsSent {
            return false;
        }
        match game.get_player(self.player_id) {
            None => false,
            Some(index) => {
                self.snake_index = index;
                self.last_frame = now;
                self.last_input = now;
                self.last_boost = now;
                self.phase = Phase::Simulating;
                true
            },
        }
    }

    /// Whether it is time to look for a move of the client.
    pub fn input_due(&self, now: u64) -> (r: bool)
        ensures
            r == (self.phase == Phase::Simulating && is_due(self.last_input, now, INPUT_PERIOD)),
    {
        self.phase == Phase::Simulating && due(self.last_input, now, INPUT_PERIOD)
    }

    /// Whether it is time for a frame.
    pub fn frame_due(&self, now: u64) -> (r: bool)
        ensures
            r == (self.phase == Phase::Simulating && is_due(self.last_frame, now, INITIAL_PERIOD)),
    {
        self.phase == Phase::Simulating && due(self.last_frame, now, INITIAL_PERIOD)
    }

    /// Takes a move received from the client at time `now`: the snake wants
    /// to go that way next, unless that is the reverse of the way it last
    /// went.
    pub fn take_move(&mut self, game: &mut Game, player_move: Move, now: u64)
        requires
            old(self).snake_index < old(game).players@.len(),
        ensures
            *final(self) == (Worker { last_input: now, ..*old(self) }),
            final(game).same_settings(old(game)),
            final(game).food == old(game).food,
            final(game).players@ == old(game).players@.update(
                old(self).snake_index as int,
                (Snake {
                    moving: if opposite(
                        player_move,
                        old(game).players@[old(self).snake_index as int].direction,
                    ) {
                        old(game).players@[old(self).snake_index as int].moving
                    } else {
                        player_move
                    },
                    ..old(game).players@[old(self).snake_index as int]
                }),
            ),
            old(game).wf() ==> final(game).wf(),
    {
        self.last_input = now;
        game.players[self.snake_index].change_intent(player_move);
        proof {
            let index = self.snake_index as int;
            assert(game.players@ =~= old(game).players@.update(
                index,
                (Snake {
                    moving: if opposite(player_move, old(game).players@[index].direction) {
                        old(game).players@[index].moving
                    } else {
                        player_move
                    },
                    ..old(game).players@[index]
                }),
            ));
        }
    }

    /// Whether the game has ended: fewer than two snakes are alive.
    pub fn game_ended(&self, game: &Game) -> (r: bool)
        ensures
            r == (alive_count(game.players@) < 2),
    {
        game.is_over()
    }
}

impl Worker {
    /// Whether the worker simulates and its snake is in the world.
    pub open spec fn runs_in(&self, game: &Game) -> bool {
        self.phase == Phase::Simulating && self.snake_index < game.players@.len()
    }

    /// The first half of a frame step at time `now`: the snake makes one tick,
    /// and a boost it gains begins now.
    pub fn frame_step(&mut self, game: &mut Game, now: u64) -> (r: FrameStep)
        requires
            old(game).wf(),
        ensures
            final(game).wf(),
            r == if !old(self).runs_in(old(game)) {
                FrameStep::Idle
            } else if !old(game).can_tick(old(self).snake_index as int) {
                FrameStep::Blocked
            } else {
                FrameStep::Advanced
            },
            r != FrameStep::Advanced ==> *final(self) == *old(self) && *final(game) == *old(game),
            r == FrameStep::Advanced ==> exists|rolls: Rolls, boosted: bool|
                rolls.fits(old(game).dimensions) && #[trigger] final(game).follows_tick(
                    old(game),
                    old(self).snake_index as int,
                    &rolls,
                    boosted,
                ) && *final(self) == (Worker {
                    last_boost: if boosted {
                        now
                    } else {
                        old(self).last_boost
                    },
                    ..*old(self)
                }),
    {
        if self.phase != Phase::Simulating || self.snake_index >= game.players.len() {
            return FrameStep::Idle;
        }
        if !game.is_able_to_tick(self.snake_index) {
            return FrameStep::Blocked;
        }
        let boosted: bool = game.update_snake(self.snake_index);
        if boosted {
            self.last_boost = now;
        }
        FrameStep::Advanced
    }

    /// The second half of a frame step at time `now`: a boosted snake makes
    /// one more tick; then a boost that has lasted its time ends.
    pub fn boost_step(&mut self, game: &mut Game, now: u64) -> (r: FrameStep)
        requires
            old(game).wf(),
        ensures
            final(game).wf(),
            *final(self) == *old(self),
            r == if !old(self).runs_in(old(game)) {
                FrameStep::Idle
            } else if old(game).players@[old(self).snake_index as int].boost && !old(
                game,
            ).can_tick(old(self).snake_index as int) {
                FrameStep::Blocked
            } else {
                FrameStep::Advanced
            },
            r != FrameStep::Advanced ==> *final(game) == *old(game),
            r == FrameStep::Advanced ==> exists|mid: Game|
                {
                    &&& #[trigger] mid.wf()
                    &&& if old(game).players@[old(self).snake_index as int].boost {
                        exists|rolls: Rolls, boosted: bool|
                            rolls.fits(old(game).dimensions) && #[trigger] mid.follows_tick(
                                old(game),
                                old(self).snake_index as int,
                                &rolls,
                                boosted,
                            )
                    } else {
                        mid == *old(game)
                    }
                    &&& final(game).same_settings(&mid)
                    &&& final(game).food == mid.food
                    &&& final(game).players@ == mid.players@.update(
                        old(self).snake_index as int,
                        (Snake {
                            boost: mid.players@[old(self).snake_index as int].boost && !is_due(
                                old(self).last_boost,
                                now,
                                BOOST_DURATION,
                            ),
                            ..mid.players@[old(self).snake_index as int]
                        }),
                    )
                },
    {
        if self.phase != Phase::Simulating || self.snake_index >= game.players.len() {
            return FrameStep::Idle;
        }
        let index: usize = self.snake_index;
        if game.players[index].boost {
            if !game.is_able_to_tick(index) {
                return FrameStep::Blocked;
            }
            game.update_snake(index);
        }
        let ghost mid = *game;
        if due(self.last_boost, now, BOOST_DURATION) {
            game.players[index].boost = false;
        }
        proof {
            assert(game.players@ =~= mid.players@.update(
                index as int,
                (Snake {
                    boost: mid.players@[index as int].boost && !is_due(
                        self.last_boost,
                        now,
                        BOOST_DURATION,
                    ),
                    ..mid.players@[index as int]
                }),
            ));
            assert(mid.wf());
        }
        FrameStep::Advanced
    }

    /// Notes that a frame was sent at time `now`.
    pub fn frame_sent(&mut self, now: u64)
        ensures
            *final(self) == (Worker { last_frame: now, ..*old(self) }),
    {
        self.last_frame = now;
    }

    /// Ends the worker's game once fewer than two snakes are alive: the snake
    /// makes one last tick, if it can, and the worker has ended. Returns
    /// whether the game has ended.
    pub fn finish_if_over(&mut self, game: &mut Game) -> (over: bool)
        requires
            old(game).wf(),
        ensures
            final(game).wf(),
            over == (old(self).phase == Phase::Simulating && alive_count(old(game).players@) < 2),
            !over ==> *final(self) == *old(self) && *final(game) == *old(game),
            over ==> *final(self) == (Worker { phase: Phase::Ended, ..*old(self) }),
            over ==> if old(game).can_tick(old(self).snake_index as int) {
                exists|rolls: Rolls, boosted: bool|
                    rolls.fits(old(game).dimensions) && #[trigger] final(game).follows_tick(
                        old(game),
                        old(self).snake_index as int,
                        &rolls,
                        boosted,
                    )
            } else {
                *final(game) == *old(game)
            },
    {
        if self.phase != Phase::Simulating {
            return false;
        }
        if !game.is_over() {
            return false;
        }
        if game.is_able_to_tick(self.snake_index) {
            game.update_snake(self.snake_index);
        }
        self.phase = Phase::Ended;
        true
    }
}

} // verus!
