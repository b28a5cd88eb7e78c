//! The wire codec: every message is one type byte, a two-byte little-endian
//! payload length, and the payload.

use vstd::prelude::*;

use crate::game::food_number;
use crate::game::Food;
use crate::game::Snake;
use crate::game::SnakeNode;
use crate::geometry::Move;
use crate::geometry::Point;

verus! {

/// The kinds of message.
#[derive(Clone, Copy, Debug, PartialEq, Eq, Structural)]
pub enum Msg {
    PlayerId,
    GameParams,
    GameStart,
    Frame,
    Move,
    UnknownId,
}

/// The kind of message that a type byte stands for.
pub open spec fn msg_of(id: u8) -> Msg {
    if id == 0 {
        Msg::PlayerId
    } else if id == 1 {
        Msg::GameParams
    } else if id == 2 {
        Msg::GameStart
    } else if id == 3 {
        Msg::Frame
    } else if id == 4 {
        Msg::Move
    } else {
        Msg::UnknownId
    }
}

/// The type byte of a kind of message; `UnknownId` has none.
pub open spec fn msg_number(msg: Msg) -> u8 {
    match msg {
        Msg::PlayerId => 0,
        Msg::GameParams => 1,
        Msg::GameStart => 2,
        Msg::Frame => 3,
        Msg::Move => 4,
        Msg::UnknownId => 255,
    }
}

/// The kind of message that a type byte stands for.
pub fn id_to_msg(id: u8) -> (msg: Msg)
    ensures
        msg == msg_of(id),
        msg != Msg::UnknownId ==> msg_number(msg) == id,
{
    match id {
        0 => Msg::PlayerId,
        1 => Msg::GameParams,
        2 => Msg::GameStart,
        3 => Msg::Frame,
        4 => Msg::Move,
        _ => Msg::UnknownId,
    }
}

/// The type byte of a kind of message.
pub fn msg_to_id(id: Msg) -> (byte: u8)
    requires
        id != Msg::UnknownId,
    ensures
        byte == msg_number(id),
        msg_of(byte) == id,
{
    match id {
        Msg::PlayerId => 0,
        Msg::GameParams => 1,
        Msg::GameStart => 2,
        Msg::Frame => 3,
        Msg::Move => 4,
        Msg::UnknownId => 255,
    }
}

/// The `sz` low bytes of `n`, lowest first.
pub open spec fn le_bytes(n: nat, sz: nat) -> Seq<u8>
    decreases sz,
{
    if sz == 0 {
        Seq::<u8>::empty()
    } else {
        seq![(n % 256) as u8] + le_bytes(n / 256, (sz - 1) as nat)
    }
}

/// The number whose bytes, lowest first, are `s`.
pub open spec fn le_value(s: Seq<u8>) -> nat
    decreases s.len(),
{
    if s.len() == 0 {
        0
    } else {
        s[0] as nat + 256 * le_value(s.drop_first())
    }
}

/// A signed 16-bit number as the unsigned number with the same bits.
pub open spec fn i16_bits(v: i16) -> nat {
    if v >= 0 {
        v as nat
    } else {
        (v + 0x1_0000) as nat
    }
}

/// The signed 16-bit number with the same low 16 bits as `n`.
pub open spec fn i16_of_bits(n: nat) -> i16 {
    let low = n % 0x1_0000;
    if low < 0x8000 {
        low as i16
    } else {
        (low - 0x1_0000) as i16
    }
}

/// A signed 16-bit number on the wire: two's complement, low byte first.
pub open spec fn i16_bytes(v: i16) -> Seq<u8> {
    seq![(i16_bits(v) % 256) as u8, (i16_bits(v) / 256) as u8]
}

/// Reading back the two bytes written for a signed 16-bit number gives the
/// number, negative ones included.
pub proof fn lemma_i16_round_trip(v: i16)
    ensures
        i16_bytes(v).len() == 2,
        le_value(i16_bytes(v)) == i16_bits(v),
        i16_of_bits(le_value(i16_bytes(v))) == v,
        i16_bytes(-1i16) == seq![0xffu8, 0xffu8],
{
    let s = i16_bytes(v);
    let t = s.drop_first();
    assert(t.len() == 1);
    assert(t.drop_first().len() == 0);
    assert(le_value(t.drop_first()) == 0);
    assert(le_value(t) == t[0] as nat + 256 * le_value(t.drop_first()));
    assert(le_value(s) == s[0] as nat + 256 * le_value(t));
    assert(t[0] == s[1]);
    assert(i16_bytes(-1i16) =~= seq![0xffu8, 0xffu8]);
}

/// The `sz` low bytes of `n`, lowest first.
pub fn split_bytes(n: u32, sz: usize) -> (out: Vec<u8>)
    ensures
        out@ == le_bytes(n as nat, sz as nat),
        out@.len() == sz,
{
    let mut n = n;
    let ghost start = n;
    let mut out: Vec<u8> = Vec::new();
    let mut i: usize = 0;
    while i < sz
        invariant
            0 <= i <= sz,
            out@.len() == i,
            out@ + le_bytes(n as nat, (sz - i) as nat) == le_bytes(start as nat, sz as nat),
        decreases sz - i,
    {
        let ghost before = out@;
        let ghost rest = le_bytes((n / 256) as nat, (sz - i - 1) as nat);
        out.push((n % 256) as u8);
        proof {
            assert(le_bytes(n as nat, (sz - i) as nat) == seq![(n % 256) as u8] + rest);
            assert(out@ + rest =~= before + (seq![(n % 256) as u8] + rest));
        }
        n = n / 256;
        i += 1;
    }
    proof {
        assert(out@ + Seq::<u8>::empty() =~= out@);
    }
    out
}

/// The first `n` bytes of a signed 16-bit number on the wire, for `n` up to
/// 2.
pub fn vec_as_n_bytes(data: i16, n: usize) -> (v: Vec<u8>)
    requires
        n <= 2,
    ensures
        v@ == i16_bytes(data).take(n as int),
        v@.len() == n,
{
    let bits: u16 = if data >= 0 {
        data as u16
    } else {
        let wide: i32 = data as i32 + 0x1_0000;
        wide as u16
    };
    let mut v: Vec<u8> = Vec::new();
    if n >= 1 {
        v.push((bits % 256) as u8);
    }
    if n >= 2 {
        v.push((bits / 256) as u8);
    }
    proof {
        assert(v@ =~= i16_bytes(data).take(n as int));
    }
    v
}

/// The number whose `n` bytes, lowest first, stand in `buf` from `index` on,
/// for `n` up to 4.
pub fn read_int_from_n_bytes(buf: &[u8], index: u32, n: u32) -> (res: u32)
    requires
        n <= 4,
        index + n <= u32::MAX,
        index + n <= buf@.len(),
    ensures
        res == le_value(buf@.subrange(index as int, index + n)),
{
    let ghost part = buf@.subrange(index as int, index + n);
    let mut res: u32 = 0;
    let mut i: u32 = n;
    proof {
        assert(part.subrange(n as int, n as int).len() == 0);
    }
    while i > 0
        invariant
            0 <= i <= n <= 4,
            index + n <= u32::MAX,
            index + n <= buf@.len(),
            part == buf@.subrange(index as int, index + n),
            res == le_value(part.subrange(i as int, n as int)),
            n - i == 0 ==> res == 0,
            n - i == 1 ==> res < 0x100,
            n - i == 2 ==> res < 0x1_0000,
            n - i == 3 ==> res < 0x100_0000,
        decreases i,
    {
        i -= 1;
        let byte: u8 = buf[(index + i) as usize];
        proof {
            let now = part.subrange(i as int, n as int);
            assert(now[0] == byte);
            assert(now.drop_first() =~= part.subrange(i + 1, n as int));
        }
        res = res * 256 + byte as u32;
    }
    proof {
        assert(part.subrange(0, n as int) =~= part);
    }
    res
}

/// The signed 16-bit number whose two bytes stand in `buf` from `index` on.
pub fn read_i16(buf: &[u8], index: u32) -> (v: i16)
    requires
        index + 2 <= u32::MAX,
        index + 2 <= buf@.len(),
    ensures
        v == i16_of_bits(le_value(buf@.subrange(index as int, index + 2))),
{
    let raw: u32 = read_int_from_n_bytes(buf, index, 2);
    let low: u32 = raw % 0x1_0000;
    if low < 0x8000 {
        low as i16
    } else {
        let wide: i32 = low as i32 - 0x1_0000;
        wide as i16
    }
}

/// A whole message: type byte, payload length in two bytes, payload. A length
/// beyond two bytes is cut to its two low bytes.
pub open spec fn message(msg: Msg, payload: Seq<u8>) -> Seq<u8> {
    seq![msg_number(msg), (payload.len() % 256) as u8, ((payload.len() / 256) % 256) as u8]
        + payload
}

/// Appends `bytes` to `out`.
fn put(out: &mut Vec<u8>, bytes: &[u8])
    ensures
        final(out)@ == old(out)@ + bytes@,
{
    let mut i: usize = 0;
    while i < bytes.len()
        invariant
            0 <= i <= bytes@.len(),
            out@ == old(out)@ + bytes@.take(i as int),
        decreases bytes@.len() - i,
    {
        out.push(bytes[i]);
        proof {
            assert(out@ =~= old(out)@ + bytes@.take(i + 1));
        }
        i += 1;
    }
    proof {
        assert(bytes@.take(i as int) =~= bytes@);
    }
}

/// Appends a signed 16-bit number as the wire carries it.
fn put_i16(out: &mut Vec<u8>, v: i16)
    ensures
        final(out)@ == old(out)@ + i16_bytes(v),
{
    let bytes = vec_as_n_bytes(v, 2);
    proof {
        assert(i16_bytes(v).take(2) =~= i16_bytes(v));
    }
    put(out, bytes.as_slice());
}

/// The bytes of a whole message of kind `msg` with the given payload.
pub fn encode_message(msg: Msg, msg_data: &[u8]) -> (bytes: Vec<u8>)
    requires
        msg != Msg::UnknownId,
    ensures
        bytes@ == message(msg, msg_data@),
{
    let n: usize = msg_data.len();
    let mut bytes: Vec<u8> = Vec::new();
    bytes.push(msg_to_id(msg));
    bytes.push((n % 256) as u8);
    bytes.push(((n / 256) % 256) as u8);
    put(&mut bytes, msg_data);
    proof {
        assert(bytes@ =~= message(msg, msg_data@));
    }
    bytes
}

/// The message that tells a player its identifier.
pub fn player_id_message(player_id: u8) -> (bytes: Vec<u8>)
    ensures
        bytes@ == message(Msg::PlayerId, seq![player_id]),
        bytes@ == seq![0u8, 1u8, 0u8, player_id],
{
    let mut payload: Vec<u8> = Vec::new();
    payload.push(player_id);
    let bytes = encode_message(Msg::PlayerId, payload.as_slice());
    proof {
        assert(payload@ =~= seq![player_id]);
        assert(bytes@ =~= seq![0u8, 1u8, 0u8, player_id]);
    }
    bytes
}

/// The byte that stands for a direction.
pub open spec fn move_number(m: Move) -> u8 {
    match m {
        Move::Up => 1,
        Move::Down => 2,
        Move::Left => 3,
        Move::Right => 4,
    }
}

/// The direction that a byte stands for, if any.
pub open spec fn move_of(byte: u8) -> Option<Move> {
    if byte == 1 {
        Some(Move::Up)
    } else if byte == 2 {
        Some(Move::Down)
    } else if byte == 3 {
        Some(Move::Left)
    } else if byte == 4 {
        Some(Move::Right)
    } else {
        None
    }
}

/// The message that tells the server which way a player wants to go.
pub fn move_message(player_move: &Move) -> (bytes: Vec<u8>)
    ensures
        bytes@ == message(Msg::Move, seq![move_number(*player_move)]),
        bytes@ == seq![4u8, 1u8, 0u8, move_number(*player_move)],
        move_of(move_number(*player_move)) == Some(*player_move),
{
    let move_byte: u8 = match player_move {
        Move::Up => 1,
        Move::Down => 2,
        Move::Left => 3,
        Move::Right => 4,
    };
    let mut payload: Vec<u8> = Vec::new();
    payload.push(move_byte);
    let bytes = encode_message(Msg::Move, payload.as_slice());
    proof {
        assert(payload@ =~= seq![move_byte]);
        assert(bytes@ =~= seq![4u8, 1u8, 0u8, move_byte]);
    }
    bytes
}

/// One food item on the wire: kind, `x`, `y`.
pub open spec fn food_bytes(f: Food) -> Seq<u8> {
    seq![food_number(f.food_type)] + i16_bytes(f.x) + i16_bytes(f.y)
}

/// Food items on the wire, one after the other.
pub open spec fn foods_bytes(foods: Seq<Food>) -> Seq<u8>
    decreases foods.len(),
{
    if foods.len() == 0 {
        Seq::<u8>::empty()
    } else {
        foods_bytes(foods.drop_last()) + food_bytes(foods.last())
    }
}

/// The food part of a frame: the count in one byte, cut to its low byte, then
/// the items.
pub open spec fn food_section(foods: Seq<Food>) -> Seq<u8> {
    seq![(foods.len() % 256) as u8] + foods_bytes(foods)
}

/// Points on the wire, one after the other, each as `x`, `y`.
pub open spec fn points_bytes(path: Seq<Point>) -> Seq<u8>
    decreases path.len(),
{
    if path.len() == 0 {
        Seq::<u8>::empty()
    } else {
        i16_bytes(path[0].0) + i16_bytes(path[0].1) + points_bytes(path.drop_first())
    }
}

/// One snake on the wire: identifier, whether it has lost, growth credits,
/// node count cut to its low byte, then the nodes from head to tail.
pub open spec fn snake_bytes(s: Snake) -> Seq<u8> {
    seq![s.id, if s.has_lost { 1u8 } else { 0u8 }, s.stomach, (s.head@.len() % 256) as u8]
        + points_bytes(s.head@)
}

/// Snakes on the wire, one after the other.
pub open spec fn snakes_bytes(snakes: Seq<Snake>) -> Seq<u8>
    decreases snakes.len(),
{
    if snakes.len() == 0 {
        Seq::<u8>::empty()
    } else {
        snakes_bytes(snakes.drop_last()) + snake_bytes(snakes.last())
    }
}

/// The snake part of a frame: the count in one byte, cut to its low byte,
/// then the snakes.
pub open spec fn snake_section(snakes: Seq<Snake>) -> Seq<u8> {
    seq![(snakes.len() % 256) as u8] + snakes_bytes(snakes)
}

/// The snakes that a list of references points to.
pub open spec fn pointees(list: Seq<&Snake>) -> Seq<Snake> {
    Seq::new(list.len(), |i: int| *list[i])
}

/// The food part of a frame.
pub fn food_to_bytes(list_food: &Vec<Food>) -> (data: Vec<u8>)
    ensures
        data@ == food_section(list_food@),
{
    let mut data: Vec<u8> = Vec::new();
    data.push((list_food.len() % 256) as u8);
    let mut i: usize = 0;
    proof {
        assert(list_food@.take(0) =~= Seq::<Food>::empty());
        assert(data@ =~= seq![(list_food@.len() % 256) as u8] + foods_bytes(list_food@.take(0)));
    }
    while i < list_food.len()
        invariant
            0 <= i <= list_food@.len(),
            data@ == seq![(list_food@.len() % 256) as u8] + foods_bytes(list_food@.take(i as int)),
        decreases list_food@.len() - i,
    {
        let ghost before = data@;
        let (f_id, x, y): (u8, i16, i16) = list_food[i].get_info_for_data_trs();
        data.push(f_id);
        put_i16(&mut data, x);
        put_i16(&mut data, y);
        proof {
            let upto = list_food@.take(i + 1);
            assert(upto.drop_last() =~= list_food@.take(i as int));
            assert(upto.last() == list_food@[i as int]);
            assert(data@ =~= before + food_bytes(list_food@[i as int]));
            assert(data@ =~= seq![(list_food@.len() % 256) as u8] + foods_bytes(upto));
        }
        i += 1;
    }
    proof {
        assert(list_food@.take(i as int) =~= list_food@);
    }
    data
}

impl SnakeNode {
    /// The number of nodes in the chain that starts here, cut to its low
    /// byte.
    pub fn count_byte(&self) -> (n: u8)
        ensures
            n == self@.len() % 256,
        decreases self@.len(),
    {
        proof {
            self.lemma_path();
        }
        match &self.next_node {
            None => 1,
            Some(next) => {
                let rest: u8 = next.count_byte();
                if rest == 255 {
                    0
                } else {
                    rest + 1
                }
            },
        }
    }

    /// Appends the nodes of the chain that starts here as the wire carries
    /// them.
    pub fn write_points(&self, out: &mut Vec<u8>)
        ensures
            final(out)@ == old(out)@ + points_bytes(self@),
        decreases self@.len(),
    {
        proof {
            self.lemma_path();
        }
        put_i16(out, self.x);
        put_i16(out, self.y);
        match &self.next_node {
            None => {
                proof {
                    assert(self@.len() == 1);
                    assert(self@.drop_first().len() == 0);
                    assert(points_bytes(self@.drop_first()) =~= Seq::<u8>::empty());
                    assert(out@ =~= old(out)@ + points_bytes(self@));
                }
            },
            Some(next) => {
                next.write_points(out);
                proof {
                    assert(out@ =~= old(out)@ + points_bytes(self@));
                }
            },
        }
    }
}

/// The snake part of a frame.
pub fn snake_to_bytes(list_snake: &Vec<&Snake>) -> (data: Vec<u8>)
    ensures
        data@ == snake_section(pointees(list_snake@)),
{
    let ghost snakes = pointees(list_snake@);
    let mut data: Vec<u8> = Vec::new();
    data.push((list_snake.len() % 256) as u8);
    let mut i: usize = 0;
    proof {
        assert(snakes.take(0) =~= Seq::<Snake>::empty());
        assert(data@ =~= seq![(snakes.len() % 256) as u8] + snakes_bytes(snakes.take(0)));
    }
    while i < list_snake.len()
        invariant
            0 <= i <= list_snake@.len(),
            snakes == pointees(list_snake@),
            data@ == seq![(snakes.len() % 256) as u8] + snakes_bytes(snakes.take(i as int)),
        decreases list_snake@.len() - i,
    {
        let ghost before = data@;
        let snake: &Snake = list_snake[i];
        data.push(snake.id);
        data.push(if snake.has_lost { 1u8 } else { 0u8 });
        data.push(snake.stomach);
        data.push(snake.head.count_byte());
        snake.head.write_points(&mut data);
        proof {
            let upto = snakes.take(i + 1);
            assert(upto.drop_last() =~= snakes.take(i as int));
            assert(upto.last() == *snake);
            assert(data@ =~= before + snake_bytes(*snake));
            assert(data@ =~= seq![(snakes.len() % 256) as u8] + snakes_bytes(upto));
        }
        i += 1;
    }
    proof {
        assert(snakes.take(i as int) =~= snakes);
    }
    data
}

/// The message that shows a player the world: all food, then the given
/// snakes.
pub fn frame_message(list_food: &Vec<Food>, list_snake: &Vec<&Snake>) -> (bytes: Vec<u8>)
    ensures
        bytes@ == message(
            Msg::Frame,
            food_section(list_food@) + snake_section(pointees(list_snake@)),
        ),
{
    let mut payload: Vec<u8> = food_to_bytes(list_food);
    let snakes: Vec<u8> = snake_to_bytes(list_snake);
    put(&mut payload, snakes.as_slice());
    encode_message(Msg::Frame, payload.as_slice())
}

/// What the game parameters say of one player: identifier, colour, start
/// point.
pub type PlayerParams = (u8, (u8, u8, u8), i16, i16);

/// One player on the wire: identifier, red, green, blue, `x`, `y`.
pub open spec fn player_bytes(p: PlayerParams) -> Seq<u8> {
    seq![p.0, p.1.0, p.1.1, p.1.2] + i16_bytes(p.2) + i16_bytes(p.3)
}

/// Players on the wire, one after the other.
pub open spec fn players_bytes(players: Seq<PlayerParams>) -> Seq<u8>
    decreases players.len(),
{
    if players.len() == 0 {
        Seq::<u8>::empty()
    } else {
        players_bytes(players.drop_last()) + player_bytes(players.last())
    }
}

/// The payload of the game parameters: grid side and tile side in two bytes
/// each, speed and player count in one byte each, then the first `n_players`
/// players.
pub open spec fn game_params_payload(
    map_size: u16,
    block_size: u16,
    initial_speed: u8,
    n_players: u8,
    players: Seq<PlayerParams>,
) -> Seq<u8> {
    le_bytes(map_size as nat, 2) + le_bytes(block_size as nat, 2) + seq![initial_speed, n_players]
        + players_bytes(players.take(n_players as int))
}

/// The message that tells a player the parameters of the game.
pub fn game_params_message(
    map_size: u16,
    block_size: u16,
    initial_speed: u8,
    n_players: u8,
    players: &Vec<PlayerParams>,
) -> (bytes: Vec<u8>)
    requires
        n_players <= players@.len(),
    ensures
        bytes@ == message(
            Msg::GameParams,
            game_params_payload(map_size, block_size, initial_speed, n_players, players@),
        ),
{
    let mut payload: Vec<u8> = split_bytes(map_size as u32, 2);
    let block: Vec<u8> = split_bytes(block_size as u32, 2);
    put(&mut payload, block.as_slice());
    payload.push(initial_speed);
    payload.push(n_players);
    let ghost head = payload@;
    let ghost shown = players@.take(n_players as int);
    let mut i: usize = 0;
    proof {
        assert(head =~= le_bytes(map_size as nat, 2) + le_bytes(block_size as nat, 2)
            + seq![initial_speed, n_players]);
        assert(shown.take(0) =~= Seq::<PlayerParams>::empty());
        assert(payload@ =~= head + players_bytes(shown.take(0)));
    }
    while i < n_players as usize
        invariant
            0 <= i <= n_players <= players@.len(),
            shown == players@.take(n_players as int),
            payload@ == head + players_bytes(shown.take(i as int)),
        decreases n_players - i,
    {
        let ghost before = payload@;
        let p: PlayerParams = players[i];
        payload.push(p.0);
        payload.push((p.1).0);
        payload.push((p.1).1);
        payload.push((p.1).2);
        put_i16(&mut payload, p.2);
        put_i16(&mut payload, p.3);
        proof {
            let upto = shown.take(i + 1);
            assert(upto.drop_last() =~= shown.take(i as int));
            assert(upto.last() == p);
            assert(payload@ =~= before + player_bytes(p));
            assert(payload@ =~= head + players_bytes(upto));
        }
        i += 1;
    }
    proof {
        assert(shown.take(i as int) =~= shown);
    }
    encode_message(Msg::GameParams, payload.as_slice())
}

} // verus!
