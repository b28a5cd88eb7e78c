//! Reading messages: headers, the small payloads, game parameters and frames.

use vstd::prelude::*;

use crate::game::Food;
use crate::game::FoodType;
use crate::game::Snake;
use crate::game::SnakeNode;
use crate::geometry::Move;
use crate::geometry::Point;
use crate::protocol::i16_of_bits;
use crate::protocol::id_to_msg;
use crate::protocol::le_value;
use crate::protocol::move_of;
use crate::protocol::msg_of;
use crate::protocol::read_i16;
use crate::protocol::read_int_from_n_bytes;
use crate::protocol::Msg;
use crate::world::index_of_id;
use crate::world::Game;

verus! {

/// Why a message was not accepted.
#[derive(Clone, Copy, Debug, PartialEq, Eq, Structural)]
pub enum ProtocolError {
    /// The type byte stands for no kind of message.
    UnknownMessage(u8),
    /// The message is of another kind than the one expected.
    UnexpectedMessage,
    /// The payload does not have the length its kind calls for.
    BadLength,
    /// The byte stands for no direction.
    UnknownMove(u8),
    /// The byte stands for no kind of food.
    UnknownFood(u8),
    /// No snake has this identifier.
    UnknownPlayer(u8),
    /// The bytes end before what they announce.
    BufferUnderrun,
}

/// The signed 16-bit number that stands in `buf` at `pos`.
pub open spec fn i16_at(buf: Seq<u8>, pos: int) -> i16 {
    i16_of_bits(le_value(buf.subrange(pos, pos + 2)))
}

/// What a three-byte header says: the kind of message and the payload length.
pub open spec fn header_of(header: Seq<u8>) -> Result<(Msg, u16), ProtocolError> {
    if header.len() < 3 {
        Err(ProtocolError::BufferUnderrun)
    } else if msg_of(header[0]) == Msg::UnknownId {
        Err(ProtocolError::UnknownMessage(header[0]))
    } else {
        Ok((msg_of(header[0]), le_value(header.subrange(1, 3)) as u16))
    }
}

/// Reads a header: the kind of message and the payload length.
pub fn decode_header(header: &[u8]) -> (r: Result<(Msg, u16), ProtocolError>)
    ensures
        r == header_of(header@),
{
    if header.len() < 3 {
        return Err(ProtocolError::BufferUnderrun);
    }
    let msg = id_to_msg(header[0]);
    if msg == Msg::UnknownId {
        return Err(ProtocolError::UnknownMessage(header[0]));
    }
    let len: u32 = read_int_from_n_bytes(header, 1, 2);
    proof {
        lemma_two_bytes_bound(header@.subrange(1, 3));
    }
    Ok((msg, len as u16))
}

/// Two bytes stand for a number below 65536.
pub proof fn lemma_two_bytes_bound(s: Seq<u8>)
    requires
        s.len() == 2,
    ensures
        le_value(s) == s[0] + 256 * s[1],
        le_value(s) < 0x1_0000,
{
    let t = s.drop_first();
    assert(t.len() == 1);
    assert(t.drop_first().len() == 0);
    assert(le_value(t.drop_first()) == 0);
    assert(le_value(t) == t[0] as nat + 256 * le_value(t.drop_first()));
    assert(le_value(s) == s[0] as nat + 256 * le_value(t));
    assert(t[0] == s[1]);
}

/// What the payload of a message that assigns an identifier says.
pub open spec fn player_id_of(msg: Msg, content: Seq<u8>) -> Result<u8, ProtocolError> {
    if msg != Msg::PlayerId {
        Err(ProtocolError::UnexpectedMessage)
    } else if content.len() != 1 {
        Err(ProtocolError::BadLength)
    } else {
        Ok(content[0])
    }
}

/// Reads the identifier that the server assigned.
pub fn decode_player_id(msg: Msg, content: &[u8]) -> (r: Result<u8, ProtocolError>)
    ensures
        r == player_id_of(msg, content@),
{
    if msg != Msg::PlayerId {
        return Err(ProtocolError::UnexpectedMessage);
    }
    if content.len() != 1 {
        return Err(ProtocolError::BadLength);
    }
    Ok(content[0])
}

/// What the payload of a move message says.
pub open spec fn move_in(msg: Msg, content: Seq<u8>) -> Result<Move, ProtocolError> {
    if msg != Msg::Move {
        Err(ProtocolError::UnexpectedMessage)
    } else if content.len() != 1 {
        Err(ProtocolError::BadLength)
    } else {
        match move_of(content[0]) {
            Some(m) => Ok(m),
            None => Err(ProtocolError::UnknownMove(content[0])),
        }
    }
}

/// Reads the direction a player wants.
pub fn decode_move(msg: Msg, content: &[u8]) -> (r: Result<Move, ProtocolError>)
    ensures
        r == move_in(msg, content@),
{
    if msg != Msg::Move {
        return Err(ProtocolError::UnexpectedMessage);
    }
    if content.len() != 1 {
        return Err(ProtocolError::BadLength);
    }
    match content[0] {
        1 => Ok(Move::Up),
        2 => Ok(Move::Down),
        3 => Ok(Move::Left),
        4 => Ok(Move::Right),
        _ => Err(ProtocolError::UnknownMove(content[0])),
    }
}

/// What the game parameters say of one player: identifier, red, green, blue,
/// `x`, `y`.
pub type Announced = (u8, u8, u8, u8, i16, i16);

/// The parameters of a game as a client receives them.
#[derive(Debug, PartialEq)]
pub struct GameParams {
    pub map_size: u16,
    pub block_size: u16,
    pub initial_speed: u8,
    pub n_players: u8,
    pub players: Vec<Announced>,
}

/// The player that stands in the payload of the game parameters at place `k`.
pub open spec fn announced_at(content: Seq<u8>, k: int) -> Announced {
    (
        content[6 + 8 * k],
        content[6 + 8 * k + 1],
        content[6 + 8 * k + 2],
        content[6 + 8 * k + 3],
        i16_at(content, 6 + 8 * k + 4),
        i16_at(content, 6 + 8 * k + 6),
    )
}

/// Whether the bytes are game parameters: of the right kind, and long enough
/// for the players they announce.
pub open spec fn game_params_fit(msg: Msg, content: Seq<u8>) -> bool {
    msg == Msg::GameParams && content.len() >= 6 && content.len() >= 6 + 8 * content[5]
}

/// Whether `p` is what the payload `content` says.
pub open spec fn game_params_match(p: GameParams, content: Seq<u8>) -> bool {
    &&& p.map_size == le_value(content.subrange(0, 2))
    &&& p.block_size == le_value(content.subrange(2, 4))
    &&& p.initial_speed == content[4]
    &&& p.n_players == content[5]
    &&& p.players@.len() == content[5]
    &&& forall|k: int| 0 <= k < content[5] ==> p.players@[k] == announced_at(content, k)
}

/// Reads the parameters of a game.
pub fn decode_game_params(msg: Msg, content: &[u8]) -> (r: Result<GameParams, ProtocolError>)
    ensures
        r.is_ok() == game_params_fit(msg, content@),
        r.is_ok() ==> game_params_match(r.unwrap(), content@),
        r.is_err() ==> r.unwrap_err() == if msg != Msg::GameParams {
            ProtocolError::UnexpectedMessage
        } else {
            ProtocolError::BufferUnderrun
        },
{
    if msg != Msg::GameParams {
        return Err(ProtocolError::UnexpectedMessage);
    }
    if content.len() < 6 {
        return Err(ProtocolError::BufferUnderrun);
    }
    let n_players: u8 = content[5];
    if content.len() < 6 + 8 * (n_players as usize) {
        return Err(ProtocolError::BufferUnderrun);
    }
    proof {
        lemma_two_bytes_bound(content@.subrange(0, 2));
        lemma_two_bytes_bound(content@.subrange(2, 4));
    }
    let map_size: u16 = read_int_from_n_bytes(content, 0, 2) as u16;
    let block_size: u16 = read_int_from_n_bytes(content, 2, 2) as u16;
    let initial_speed: u8 = content[4];
    let mut players: Vec<Announced> = Vec::new();
    let mut i: usize = 0;
    while i < n_players as usize
        invariant
            0 <= i <= n_players,
            n_players == content@[5],
            content@.len() >= 6 + 8 * n_players,
            players@.len() == i,
            forall|k: int| 0 <= k < i ==> players@[k] == announced_at(content@, k),
        decreases n_players - i,
    {
        let at: usize = 6 + 8 * i;
        let x: i16 = read_i16(content, (at + 4) as u32);
        let y: i16 = read_i16(content, (at + 6) as u32);
        players.push((content[at], content[at + 1], content[at + 2], content[at + 3], x, y));
        i += 1;
    }
    Ok(GameParams { map_size, block_size, initial_speed, n_players, players })
}

/// One snake as a frame shows it.
#[derive(Debug, PartialEq)]
pub struct SnakeRecord {
    pub id: u8,
    pub has_lost: bool,
    pub stomach: u8,
    /// The nodes from head to tail.
    pub nodes: Vec<(i16, i16)>,
}

/// One snake as a frame shows it, as a mathematical value.
pub struct SnakeShot {
    pub id: u8,
    pub has_lost: bool,
    pub stomach: u8,
    pub nodes: Seq<Point>,
}

impl View for SnakeRecord {
    type V = SnakeShot;

    open spec fn view(&self) -> SnakeShot {
        SnakeShot { id: self.id, has_lost: self.has_lost, stomach: self.stomach, nodes: self.nodes@ }
    }
}

/// The snakes of a list of records, as mathematical values.
pub open spec fn shots(records: Seq<SnakeRecord>) -> Seq<SnakeShot> {
    Seq::new(records.len(), |i: int| records[i]@)
}

/// A frame as a client receives it.
#[derive(Debug, PartialEq)]
pub struct FrameData {
    pub food: Vec<Food>,
    pub snakes: Vec<SnakeRecord>,
}

/// The kind of food that a wire byte stands for, if any.
pub open spec fn food_type_of(byte: u8) -> Option<FoodType> {
    if byte == 1 {
        Some(FoodType::Apple)
    } else if byte == 2 {
        Some(FoodType::Mango)
    } else {
        None
    }
}

/// The first `count` food items of a frame, which start at byte 1 and take
/// five bytes each; the first item that is cut short or of no known kind
/// makes the error.
pub open spec fn parse_foods(buf: Seq<u8>, count: nat) -> Result<Seq<Food>, ProtocolError>
    decreases count,
{
    if count == 0 {
        Ok(Seq::<Food>::empty())
    } else {
        let pos = 1 + 5 * (count - 1);
        match parse_foods(buf, (count - 1) as nat) {
            Err(e) => Err(e),
            Ok(prev) => if pos + 5 > buf.len() {
                Err(ProtocolError::BufferUnderrun)
            } else {
                match food_type_of(buf[pos]) {
                    None => Err(ProtocolError::UnknownFood(buf[pos])),
                    Some(t) => Ok(
                        prev.push(
                            Food { x: i16_at(buf, pos + 1), y: i16_at(buf, pos + 3), food_type: t },
                        ),
                    ),
                }
            },
        }
    }
}

/// The `count` points that stand in `buf` from `pos` on.
pub open spec fn parse_points(buf: Seq<u8>, pos: int, count: nat) -> Seq<Point> {
    Seq::new(count, |k: int| (i16_at(buf, pos + 4 * k), i16_at(buf, pos + 4 * k + 2)))
}

/// The first `count` snakes that stand in `buf` from `start` on, and where
/// they end; each is four bytes and then its nodes.
pub open spec fn parse_snakes(buf: Seq<u8>, start: int, count: nat) -> Result<
    (Seq<SnakeShot>, int),
    ProtocolError,
>
    decreases count,
{
    if count == 0 {
        Ok((Seq::<SnakeShot>::empty(), start))
    } else {
        match parse_snakes(buf, start, (count - 1) as nat) {
            Err(e) => Err(e),
            Ok((prev, pos)) => if pos + 4 > buf.len() || pos + 4 + 4 * buf[pos + 3] > buf.len() {
                Err(ProtocolError::BufferUnderrun)
            } else {
                Ok(
                    (
                        prev.push(
                            SnakeShot {
                                id: buf[pos],
                                has_lost: buf[pos + 1] == 1,
                                stomach: buf[pos + 2],
                                nodes: parse_points(buf, pos + 4, buf[pos + 3] as nat),
                            },
                        ),
                        pos + 4 + 4 * buf[pos + 3],
                    ),
                )
            },
        }
    }
}

/// What the payload of a frame says: the food, then the snakes.
pub open spec fn parse_frame(buf: Seq<u8>) -> Result<(Seq<Food>, Seq<SnakeShot>), ProtocolError> {
    if buf.len() < 1 {
        Err(ProtocolError::BufferUnderrun)
    } else {
        match parse_foods(buf, buf[0] as nat) {
            Err(e) => Err(e),
            Ok(food) => if 1 + 5 * buf[0] >= buf.len() {
                Err(ProtocolError::BufferUnderrun)
            } else {
                match parse_snakes(buf, 2 + 5 * buf[0], buf[1 + 5 * buf[0]] as nat) {
                    Err(e) => Err(e),
                    Ok((snakes, end)) => Ok((food, snakes)),
                }
            },
        }
    }
}

/// An error among the first food items is an error among more of them.
pub proof fn lemma_food_error_stays(buf: Seq<u8>, few: nat, many: nat)
    requires
        few <= many,
        parse_foods(buf, few).is_err(),
    ensures
        parse_foods(buf, many) == parse_foods(buf, few),
    decreases many,
{
    if few < many {
        lemma_food_error_stays(buf, few, (many - 1) as nat);
    }
}

/// An error among the first snakes is an error among more of them.
pub proof fn lemma_snake_error_stays(buf: Seq<u8>, start: int, few: nat, many: nat)
    requires
        few <= many,
        parse_snakes(buf, start, few).is_err(),
    ensures
        parse_snakes(buf, start, many) == parse_snakes(buf, start, few),
    decreases many,
{
    if few < many {
        lemma_snake_error_stays(buf, start, few, (many - 1) as nat);
    }
}

/// Reads the payload of a frame.
pub fn decode_frame(buf: &[u8]) -> (r: Result<FrameData, ProtocolError>)
    ensures
        match r {
            Ok(frame) => parse_frame(buf@) == Ok::<(Seq<Food>, Seq<SnakeShot>), ProtocolError>(
                (frame.food@, shots(frame.snakes@)),
            ),
            Err(e) => parse_frame(buf@) == Err::<(Seq<Food>, Seq<SnakeShot>), ProtocolError>(e),
        },
{
    if buf.len() < 1 {
        return Err(ProtocolError::BufferUnderrun);
    }
    let food_number: u8 = buf[0];
    let mut food: Vec<Food> = Vec::new();
    let mut i: u8 = 0;
    while i < food_number
        invariant
            0 <= i <= food_number,
            buf@.len() >= 1,
            food_number == buf@[0],
            parse_foods(buf@, i as nat) == Ok::<Seq<Food>, ProtocolError>(food@),
        decreases food_number - i,
    {
        let pos: usize = 1 + 5 * (i as usize);
        if buf.len() < pos + 5 {
            proof {
                lemma_food_error_stays(buf@, (i + 1) as nat, food_number as nat);
            }
            return Err(ProtocolError::BufferUnderrun);
        }
        let kind = Food::int_to_food_type(buf[pos]);
        match kind {
            None => {
                proof {
                    lemma_food_error_stays(buf@, (i + 1) as nat, food_number as nat);
                }
                return Err(ProtocolError::UnknownFood(buf[pos]));
            },
            Some(t) => {
                let x: i16 = read_i16(buf, (pos + 1) as u32);
                let y: i16 = read_i16(buf, (pos + 3) as u32);
                food.push(Food::new(x, y, t));
            },
        }
        i += 1;
    }
    let at: usize = 1 + 5 * (food_number as usize);
    if at >= buf.len() {
        return Err(ProtocolError::BufferUnderrun);
    }
    let snake_number: u8 = buf[at];
    let start: usize = at + 1;
    let mut snakes: Vec<SnakeRecord> = Vec::new();
    let mut pos: usize = start;
    let mut k: u8 = 0;
    proof {
        assert(shots(snakes@) =~= Seq::<SnakeShot>::empty());
    }
    while k < snake_number
        invariant
            0 <= k <= snake_number,
            start <= pos <= start + 1024 * k,
            buf@.len() >= start >= 2,
            food_number == buf@[0],
            start == 2 + 5 * food_number,
            snake_number == buf@[start - 1],
            parse_foods(buf@, food_number as nat) == Ok::<Seq<Food>, ProtocolError>(food@),
            parse_snakes(buf@, start as int, k as nat) == Ok::<
                (Seq<SnakeShot>, int),
                ProtocolError,
            >((shots(snakes@), pos as int)),
        decreases snake_number - k,
    {
        if buf.len() < pos + 4 {
            proof {
                lemma_snake_error_stays(buf@, start as int, (k + 1) as nat, snake_number as nat);
            }
            return Err(ProtocolError::BufferUnderrun);
        }
        let id: u8 = buf[pos];
        let has_lost: bool = buf[pos + 1] == 1;
        let stomach: u8 = buf[pos + 2];
        let node_number: u8 = buf[pos + 3];
        if buf.len() < pos + 4 + 4 * (node_number as usize) {
            proof {
                lemma_snake_error_stays(buf@, start as int, (k + 1) as nat, snake_number as nat);
            }
            return Err(ProtocolError::BufferUnderrun);
        }
        let mut nodes: Vec<(i16, i16)> = Vec::new();
        let mut m: u8 = 0;
        while m < node_number
            invariant
                0 <= m <= node_number,
                pos + 4 + 4 * node_number <= buf@.len(),
                pos <= 1 + 5 * 255 + 1 + 1024 * 255,
                nodes@.len() == m,
                forall|j: int|
                    0 <= j < m ==> nodes@[j] == (
                        i16_at(buf@, pos + 4 + 4 * j),
                        i16_at(buf@, pos + 4 + 4 * j + 2),
                    ),
            decreases node_number - m,
        {
            let here: usize = pos + 4 + 4 * (m as usize);
            let x: i16 = read_i16(buf, here as u32);
            let y: i16 = read_i16(buf, (here + 2) as u32);
            nodes.push((x, y));
            m += 1;
        }
        let ghost before = shots(snakes@);
        let record = SnakeRecord { id, has_lost, stomach, nodes };
        proof {
            assert(record@.nodes =~= parse_points(buf@, pos + 4, node_number as nat));
        }
        snakes.push(record);
        proof {
            assert(shots(snakes@) =~= before.push(record@));
        }
        pos = pos + 4 + 4 * (node_number as usize);
        k += 1;
    }
    Ok(FrameData { food, snakes })
}

/// The identifier of the first of the first `count` snakes shown that no
/// player has, if there is one.
pub open spec fn unknown_player(shown: Seq<SnakeShot>, players: Seq<Snake>, count: nat) -> Option<u8>
    decreases count,
{
    if count == 0 {
        None
    } else {
        match unknown_player(shown, players, (count - 1) as nat) {
            Some(id) => Some(id),
            None => if index_of_id(players, shown[count - 1].id, 0) < players.len() {
                None
            } else {
                Some(shown[count - 1].id)
            },
        }
    }
}

/// What a frame says to a world with the given players: the food and the
/// snakes it shows, or why it is not accepted.
pub open spec fn frame_outcome(msg: Msg, buf: Seq<u8>, players: Seq<Snake>) -> Result<
    (Seq<Food>, Seq<SnakeShot>),
    ProtocolError,
> {
    if msg != Msg::Frame {
        Err(ProtocolError::UnexpectedMessage)
    } else {
        match parse_frame(buf) {
            Err(e) => Err(e),
            Ok((food, shown)) => match unknown_player(shown, players, shown.len()) {
                Some(id) => Err(ProtocolError::UnknownPlayer(id)),
                None => Ok((food, shown)),
            },
        }
    }
}

/// Loss, growth credits and body of the player at index `j` once the first
/// `upto` snakes shown have been taken over. A snake shown goes to the first
/// player with its identifier; one shown without nodes leaves the body as it
/// was.
pub open spec fn state_after(shown: Seq<SnakeShot>, players: Seq<Snake>, j: int, upto: nat) -> (
    bool,
    u8,
    Seq<Point>,
)
    decreases upto,
{
    if upto == 0 {
        (players[j].has_lost, players[j].stomach, players[j].head@)
    } else {
        let prev = state_after(shown, players, j, (upto - 1) as nat);
        let s = shown[upto - 1];
        if index_of_id(players, s.id, 0) == j {
            (s.has_lost, s.stomach, if s.nodes.len() > 0 { s.nodes } else { prev.2 })
        } else {
            prev
        }
    }
}

/// Whether `after` is what taking over the first `upto` snakes shown
/// makes of `players`.
pub open spec fn shown_to(after: Seq<Snake>, shown: Seq<SnakeShot>, players: Seq<Snake>, upto: nat)
    -> bool {
    &&& after.len() == players.len()
    &&& forall|j: int|
        0 <= j < players.len() ==> {
            &&& (#[trigger] after[j]).id == players[j].id
            &&& after[j].color == players[j].color
            &&& after[j].direction == players[j].direction
            &&& after[j].moving == players[j].moving
            &&& after[j].boost == players[j].boost
            &&& (after[j].has_lost, after[j].stomach, after[j].head@) == state_after(
                shown,
                players,
                j,
                upto,
            )
        }
}

/// Players with the same identifiers in the same places are found at the
/// same index.
pub proof fn lemma_same_ids_same_index(a: Seq<Snake>, b: Seq<Snake>, id: u8, from: int)
    requires
        a.len() == b.len(),
        forall|j: int| 0 <= j < a.len() ==> a[j].id == b[j].id,
    ensures
        index_of_id(a, id, from) == index_of_id(b, id, from),
    decreases a.len() - from,
{
    if 0 <= from < a.len() {
        lemma_same_ids_same_index(a, b, id, from + 1);
    }
}

/// Takes over what a frame shows of one snake.
pub fn show_snake(snake: &mut Snake, record: &SnakeRecord)
    ensures
        final(snake).id == old(snake).id,
        final(snake).color == old(snake).color,
        final(snake).direction == old(snake).direction,
        final(snake).moving == old(snake).moving,
        final(snake).boost == old(snake).boost,
        final(snake).has_lost == record.has_lost,
        final(snake).stomach == record.stomach,
        final(snake).head@ == if record.nodes@.len() > 0 {
            record.nodes@
        } else {
            old(snake).head@
        },
{
    let n: usize = record.nodes.len();
    if n > 0 {
        let first: (i16, i16) = record.nodes[0];
        snake.reset_snake_with_node(SnakeNode::new(first.0, first.1));
        let mut m: usize = 1;
        proof {
            assert(snake.head@ =~= record.nodes@.take(1));
        }
        while m < n
            invariant
                1 <= m <= n,
                n == record.nodes@.len(),
                snake.id == old(snake).id,
                snake.color == old(snake).color,
                snake.direction == old(snake).direction,
                snake.moving == old(snake).moving,
                snake.boost == old(snake).boost,
                snake.head@ == record.nodes@.take(m as int),
            decreases n - m,
        {
            let p: (i16, i16) = record.nodes[m];
            snake.add_node_as_tail(SnakeNode::new(p.0, p.1));
            proof {
                assert(snake.head@ =~= record.nodes@.take(m + 1));
            }
            m += 1;
        }
        proof {
            assert(record.nodes@.take(n as int) =~= record.nodes@);
        }
    }
    snake.has_lost = record.has_lost;
    snake.stomach = record.stomach;
}

/// Takes a frame over into the world of a client: the food is replaced by the
/// food shown, and each snake shown sets loss, growth credits and body of the
/// player with its identifier. Returns, for each snake shown, its identifier
/// and whether it has lost. A frame that is not accepted leaves the world as
/// it was.
pub fn deconstruct_frame(msg: Msg, buf: &[u8], game: &mut Game) -> (r: Result<
    Vec<(u8, bool)>,
    ProtocolError,
>)
    ensures
        final(game).same_settings(old(game)),
        match (r, frame_outcome(msg, buf@, old(game).players@)) {
            (Err(e), Err(expected)) => {
                &&& e == expected
                &&& final(game).food == old(game).food
                &&& final(game).players == old(game).players
            },
            (Ok(alive), Ok((food, shown))) => {
                &&& final(game).food@ == food
                &&& shown_to(final(game).players@, shown, old(game).players@, shown.len())
                &&& alive@ == Seq::new(shown.len(), |k: int| (shown[k].id, shown[k].has_lost))
            },
            _ => false,
        },
{
    if msg != Msg::Frame {
        return Err(ProtocolError::UnexpectedMessage);
    }
    let frame: FrameData = match decode_frame(buf) {
        Err(e) => {
            return Err(e);
        },
        Ok(frame) => frame,
    };
    let ghost shown = shots(frame.snakes@);
    let ghost players = game.players@;
    let mut c: usize = 0;
    while c < frame.snakes.len()
        invariant
            0 <= c <= frame.snakes@.len(),
            msg == Msg::Frame,
            parse_frame(buf@) == Ok::<(Seq<Food>, Seq<SnakeShot>), ProtocolError>(
                (frame.food@, shown),
            ),
            shown == shots(frame.snakes@),
            players == game.players@,
            *game == *old(game),
            unknown_player(shown, players, c as nat).is_none(),
        decreases frame.snakes@.len() - c,
    {
        let id: u8 = frame.snakes[c].id;
        assert(shown[c as int].id == id);
        if game.get_player_index(id).is_none() {
            proof {
                lemma_unknown_stays(shown, players, (c + 1) as nat, shown.len());
            }
            return Err(ProtocolError::UnknownPlayer(id));
        }
        c += 1;
    }
    let ghost food = frame.food@;
    game.food = frame.food;
    let mut alive: Vec<(u8, bool)> = Vec::new();
    let mut k: usize = 0;
    while k < frame.snakes.len()
        invariant
            0 <= k <= frame.snakes@.len(),
            msg == Msg::Frame,
            parse_frame(buf@) == Ok::<(Seq<Food>, Seq<SnakeShot>), ProtocolError>((food, shown)),
            shown == shots(frame.snakes@),
            players == old(game).players@,
            game.same_settings(old(game)),
            game.food@ == food,
            unknown_player(shown, players, shown.len()).is_none(),
            shown_to(game.players@, shown, players, k as nat),
            alive@.len() == k,
            forall|m: int| 0 <= m < k ==> alive@[m] == (shown[m].id, shown[m].has_lost),
        decreases frame.snakes@.len() - k,
    {
        let id: u8 = frame.snakes[k].id;
        let has_lost: bool = frame.snakes[k].has_lost;
        let ghost now = game.players@;
        proof {
            assert(shown[k as int] == frame.snakes@[k as int]@);
            lemma_same_ids_same_index(now, players, id, 0);
            lemma_known_within(shown, players, shown.len(), k as int);
        }
        match game.get_player_index(id) {
            Some(index) => {
                show_snake(&mut game.players[index], &frame.snakes[k]);
                proof {
                    assert forall|j: int| 0 <= j < players.len() implies {
                        &&& (#[trigger] game.players@[j]).id == players[j].id
                        &&& game.players@[j].color == players[j].color
                        &&& game.players@[j].direction == players[j].direction
                        &&& game.players@[j].moving == players[j].moving
                        &&& game.players@[j].boost == players[j].boost
                        &&& (game.players@[j].has_lost, game.players@[j].stomach, game.players@[j].head@)
                            == state_after(shown, players, j, (k + 1) as nat)
                    } by {
                        assert(now[j].id == players[j].id);
                        if j != index {
                            assert(game.players@[j] == now[j]);
                        }
                    }
                }
            },
            None => {},
        }
        alive.push((id, has_lost));
        k += 1;
    }
    proof {
        assert(alive@ =~= Seq::new(shown.len(), |k: int| (shown[k].id, shown[k].has_lost)));
    }
    Ok(alive)
}

/// An unknown player among the first snakes shown is the unknown player among
/// more of them.
pub proof fn lemma_unknown_stays(shown: Seq<SnakeShot>, players: Seq<Snake>, few: nat, many: nat)
    requires
        few <= many,
        unknown_player(shown, players, few).is_some(),
    ensures
        unknown_player(shown, players, many) == unknown_player(shown, players, few),
    decreases many,
{
    if few < many {
        lemma_unknown_stays(shown, players, few, (many - 1) as nat);
    }
}

/// With no unknown player among the first `count` snakes shown, each of them
/// has a player.
pub proof fn lemma_known_within(shown: Seq<SnakeShot>, players: Seq<Snake>, count: nat, k: int)
    requires
        0 <= k < count,
        unknown_player(shown, players, count).is_none(),
    ensures
        index_of_id(players, shown[k].id, 0) < players.len(),
    decreases count,
{
    if k < count - 1 {
        lemma_known_within(shown, players, (count - 1) as nat, k);
    }
}

/// The border colour of a client once the first `upto` announced players have
/// been looked at: that of the last one with the client's own identifier, or
/// `start` if there is none.
pub open spec fn border_after(
    players: Seq<Announced>,
    client_player_id: u8,
    start: (u8, u8, u8),
    upto: nat,
) -> (u8, u8, u8)
    decreases upto,
{
    if upto == 0 {
        start
    } else {
        let p = players[upto - 1];
        if p.0 == client_player_id {
            (p.1, p.2, p.3)
        } else {
            border_after(players, client_player_id, start, (upto - 1) as nat)
        }
    }
}

/// Takes the parameters of a game over into the world of the client
/// `client_player_id`: grid, tile size and player count are set, the border
/// takes the client's own colour, and a new snake is added for each announced
/// player.
pub fn apply_game_params(game: &mut Game, params: GameParams, client_player_id: u8)
    ensures
        final(game).dimensions == params.map_size,
        final(game).block_size == params.block_size,
        final(game).n_players == params.n_players,
        final(game).border_color == border_after(
            params.players@,
            client_player_id,
            old(game).border_color,
            params.players@.len(),
        ),
        final(game).waiting == old(game).waiting,
        final(game).can_send_move == old(game).can_send_move,
        final(game).frequency == old(game).frequency,
        final(game).no_death == old(game).no_death,
        final(game).food == old(game).food,
        final(game).players@.len() == old(game).players@.len() + params.players@.len(),
        forall|j: int|
            0 <= j < old(game).players@.len() ==> final(game).players@[j] == old(game).players@[j],
        forall|k: int|
            0 <= k < params.players@.len() ==> crate::world::announced(
                #[trigger] final(game).players@[old(game).players@.len() + k],
                params.players@[k],
                params.map_size,
            ),
{
    let mut i: usize = 0;
    while i < params.players.len()
        invariant
            0 <= i <= params.players@.len(),
            game.border_color == border_after(
                params.players@,
                client_player_id,
                old(game).border_color,
                i as nat,
            ),
            game.dimensions == old(game).dimensions,
            game.block_size == old(game).block_size,
            game.n_players == old(game).n_players,
            game.waiting == old(game).waiting,
            game.can_send_move == old(game).can_send_move,
            game.frequency == old(game).frequency,
            game.no_death == old(game).no_death,
            game.food == old(game).food,
            game.players == old(game).players,
        decreases params.players@.len() - i,
    {
        let p: Announced = params.players[i];
        if p.0 == client_player_id {
            game.set_border_color((p.1, p.2, p.3));
        }
        i += 1;
    }
    game.dimensions = params.map_size;
    game.block_size = params.block_size;
    game.n_players = params.n_players;
    game.init_players(params.players);
}

/// Reads the parameters of a game and takes them over into the world of the
/// client `client_player_id`. Bytes that are not accepted leave the world as
/// it was.
pub fn get_game_params(msg: Msg, content: &[u8], game: &mut Game, client_player_id: u8) -> (r:
    Result<(), ProtocolError>)
    ensures
        r.is_ok() == game_params_fit(msg, content@),
        r.is_err() ==> *final(game) == *old(game),
        r.is_err() ==> r == Err::<(), ProtocolError>(
            if msg != Msg::GameParams {
                ProtocolError::UnexpectedMessage
            } else {
                ProtocolError::BufferUnderrun
            },
        ),
        r.is_ok() ==> {
            &&& final(game).border_color == border_after(
                Seq::new(content@[5] as nat, |k: int| announced_at(content@, k)),
                client_player_id,
                old(game).border_color,
                content@[5] as nat,
            )
            &&& final(game).waiting == old(game).waiting
            &&& final(game).can_send_move == old(game).can_send_move
            &&& final(game).frequency == old(game).frequency
            &&& final(game).no_death == old(game).no_death
            &&& final(game).dimensions == le_value(content@.subrange(0, 2))
            &&& final(game).block_size == le_value(content@.subrange(2, 4))
            &&& final(game).n_players == content@[5]
            &&& final(game).food == old(game).food
            &&& final(game).players@.len() == old(game).players@.len() + content@[5]
            &&& forall|j: int|
                0 <= j < old(game).players@.len() ==> final(game).players@[j] == old(
                    game,
                ).players@[j]
            &&& forall|k: int|
                0 <= k < content@[5] ==> crate::world::announced(
                    #[trigger] final(game).players@[old(game).players@.len() + k],
                    announced_at(content@, k),
                    final(game).dimensions,
                )
        },
{
    match decode_game_params(msg, content) {
        Err(e) => Err(e),
        Ok(params) => {
            proof {
                assert(params.players@ =~= Seq::new(
                    content@[5] as nat,
                    |k: int| announced_at(content@, k),
                ));
            }
            apply_game_params(game, params, client_player_id);
            Ok(())
        },
    }
}

} // verus!
