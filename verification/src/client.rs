//! The rules of a client: its states, when a frame ends the game, what a key
//! means once the game has ended, and where the pieces of the picture go.

use vstd::prelude::*;

use crate::game::SnakeNode;
use crate::geometry::aligned;
use crate::world::Key;

verus! {

/// Width of the side panel, in pixels.
pub const HUD_WIDTH: u16 = 250;

/// Side of the grid, in tiles, before the server has said otherwise.
pub const DEFAULT_GAME_DIMENSIONS: u16 = 64;

/// Side of a tile, in pixels, before the server has said otherwise.
pub const DEFAULT_BLOCK_SIZE: u16 = 10;

/// Milliseconds between two moves sent to the server.
pub const INPUT_PERIOD: u64 = 50;

/// Milliseconds between two looks for a frame.
pub const UPDATE_PERIOD: u64 = 5;

/// Size of the letters of the side panel, in pixels.
pub const FONT_SIZE: u32 = 16;

/// Height of a line of the side panel, in pixels.
pub const LINE_HEIGHT: u32 = 24;

/// The states of a client.
#[derive(Clone, Copy, Debug, PartialEq, Eq, Structural)]
pub enum ClientState {
    Waiting,
    OnGoing,
    EndOfGame,
}

/// Width and height of the window, in pixels.
pub fn window_size() -> (size: (u32, u32))
    ensures
        size == (890u32, 640u32),
{
    let side: u16 = DEFAULT_GAME_DIMENSIONS * DEFAULT_BLOCK_SIZE;
    ((side + HUD_WIDTH) as u32, side as u32)
}

/// The number of the first `upto` snakes shown that have not lost.
pub open spec fn shown_alive(alive: Seq<(u8, bool)>, upto: nat) -> nat
    decreases upto,
{
    if upto == 0 {
        0
    } else {
        shown_alive(alive, (upto - 1) as nat) + if alive[upto - 1].1 { 0nat } else { 1nat }
    }
}

/// Whether a frame ends the game for a client: at most one of the snakes it
/// shows is alive, or none when the game has a single player.
pub fn frame_ends_game(alive: &Vec<(u8, bool)>, n_players: u8) -> (over: bool)
    requires
        n_players >= 1,
    ensures
        over == (shown_alive(alive@, alive@.len()) <= if n_players >= 2 { 1int } else { 0int }),
{
    let mut n_alive: usize = 0;
    let mut i: usize = 0;
    while i < alive.len()
        invariant
            0 <= i <= alive@.len(),
            n_alive == shown_alive(alive@, i as nat),
            n_alive <= i,
        decreases alive@.len() - i,
    {
        if !alive[i].1 {
            n_alive += 1;
        }
        i += 1;
    }
    let most: usize = if n_players - 1 < 1 { (n_players - 1) as usize } else { 1 };
    n_alive <= most
}

/// Whether a snake is among those a frame shows.
pub fn is_shown(alive: &Vec<(u8, bool)>, id: u8) -> (r: bool)
    ensures
        r == exists|i: int| 0 <= i < alive@.len() && (#[trigger] alive@[i]).0 == id,
{
    let mut i: usize = 0;
    while i < alive.len()
        invariant
            0 <= i <= alive@.len(),
            forall|k: int| 0 <= k < i ==> (#[trigger] alive@[k]).0 != id,
        decreases alive@.len() - i,
    {
        if alive[i].0 == id {
            return true;
        }
        i += 1;
    }
    false
}

/// What a key means once the game has ended: `R` asks for another game, `Q`
/// and `Escape` ask to leave, any other key means nothing.
pub fn replay_choice(key: Key) -> (choice: Option<bool>)
    ensures
        choice == match key {
            Key::R => Some(true),
            Key::Q => Some(false),
            Key::Escape => Some(false),
            _ => None::<bool>,
        },
{
    match key {
        Key::R => Some(true),
        Key::Q => Some(false),
        Key::Escape => Some(false),
        _ => None,
    }
}

/// A rectangle on the grid, in tiles: the top-left corner, the height and the
/// width.
#[derive(Clone, Copy, Debug, PartialEq, Eq, Structural)]
pub struct Rect {
    pub x: i16,
    pub y: i16,
    pub h: i16,
    pub w: i16,
}

/// The smaller of two numbers.
pub open spec fn least(a: int, b: int) -> int {
    if a <= b {
        a
    } else {
        b
    }
}

/// The distance between two numbers.
pub open spec fn span(a: int, b: int) -> int {
    if a <= b {
        b - a
    } else {
        a - b
    }
}

/// The rectangle of tiles that the segment between two aligned points
/// covers: one tile thick, from the lesser end to the greater, both ends
/// included.
pub open spec fn section_of(a: (i16, i16), b: (i16, i16)) -> Rect {
    if a.0 == b.0 {
        Rect { x: a.0, y: least(a.1 as int, b.1 as int) as i16, h: (1 + span(a.1 as int, b.1 as int)) as i16, w: 1 }
    } else {
        Rect { x: least(a.0 as int, b.0 as int) as i16, y: a.1, h: 1, w: (1 + span(a.0 as int, b.0 as int)) as i16 }
    }
}

/// The rectangle of tiles that the segment between two nodes covers. The
/// nodes are aligned and no further apart than a coordinate can tell.
pub fn section_rect(node1: &SnakeNode, node2: &SnakeNode) -> (rect: Rect)
    requires
        aligned((node1.x, node1.y), (node2.x, node2.y)),
        1 + span(node1.x as int, node2.x as int) <= i16::MAX,
        1 + span(node1.y as int, node2.y as int) <= i16::MAX,
    ensures
        rect == section_of((node1.x, node1.y), (node2.x, node2.y)),
{
    if node1.x == node2.x {
        if node1.y < node2.y {
            Rect { x: node1.x, y: node1.y, h: node2.y - node1.y + 1, w: 1 }
        } else {
            Rect { x: node2.x, y: node2.y, h: node1.y - node2.y + 1, w: 1 }
        }
    } else {
        if node1.x < node2.x {
            Rect { x: node1.x, y: node1.y, h: 1, w: node2.x - node1.x + 1 }
        } else {
            Rect { x: node2.x, y: node2.y, h: 1, w: node1.x - node2.x + 1 }
        }
    }
}

/// The four rectangles of the border of a grid of side `dimensions`, one tile
/// thick: left, top, right, bottom.
pub fn border_rects(dimensions: u16) -> (rects: [Rect; 4])
    requires
        1 <= dimensions <= i16::MAX,
    ensures
        rects[0] == (Rect { x: 0, y: 0, h: dimensions as i16, w: 1 }),
        rects[1] == (Rect { x: 0, y: 0, h: 1, w: dimensions as i16 }),
        rects[2] == (Rect { x: (dimensions - 1) as i16, y: 0, h: dimensions as i16, w: 1 }),
        rects[3] == (Rect { x: 0, y: (dimensions - 1) as i16, h: 1, w: dimensions as i16 }),
{
    let side: i16 = dimensions as i16;
    [
        Rect { x: 0, y: 0, h: side, w: 1 },
        Rect { x: 0, y: 0, h: 1, w: side },
        Rect { x: side - 1, y: 0, h: side, w: 1 },
        Rect { x: 0, y: side - 1, h: 1, w: side },
    ]
}

} // verus!
