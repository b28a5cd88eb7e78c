//! What is written can be read back: a frame that is encoded and then parsed
//! gives the food and the snakes it was made of, and so do game parameters.

use vstd::prelude::*;

use crate::decode::announced_at;
use crate::decode::food_type_of;
use crate::decode::game_params_fit;
use crate::decode::lemma_two_bytes_bound;
use crate::decode::i16_at;
use crate::decode::parse_foods;
use crate::decode::parse_frame;
use crate::decode::parse_points;
use crate::decode::parse_snakes;
use crate::decode::ProtocolError;
use crate::decode::SnakeShot;
use crate::game::food_number;
use crate::game::Food;
use crate::game::Snake;
use crate::geometry::Point;
use crate::protocol::food_bytes;
use crate::protocol::food_section;
use crate::protocol::foods_bytes;
use crate::protocol::game_params_payload;
use crate::protocol::i16_bytes;
use crate::protocol::le_bytes;
use crate::protocol::le_value;
use crate::protocol::player_bytes;
use crate::protocol::players_bytes;
use crate::protocol::Msg;
use crate::protocol::PlayerParams;
use crate::protocol::lemma_i16_round_trip;
use crate::protocol::points_bytes;
use crate::protocol::snake_bytes;
use crate::protocol::snake_section;
use crate::protocol::snakes_bytes;

verus! {

/// A snake as a frame shows it.
pub open spec fn shot_of(s: Snake) -> SnakeShot {
    SnakeShot { id: s.id, has_lost: s.has_lost, stomach: s.stomach, nodes: s.head@ }
}

/// Snakes as a frame shows them.
pub open spec fn shots_of(snakes: Seq<Snake>) -> Seq<SnakeShot> {
    Seq::new(snakes.len(), |i: int| shot_of(snakes[i]))
}

/// The two bytes of a signed number, wherever they stand, read back as that
/// number.
pub proof fn lemma_i16_at(buf: Seq<u8>, pos: int, v: i16)
    requires
        0 <= pos,
        pos + 2 <= buf.len(),
        buf[pos] == i16_bytes(v)[0],
        buf[pos + 1] == i16_bytes(v)[1],
    ensures
        i16_at(buf, pos) == v,
{
    assert(buf.subrange(pos, pos + 2) =~= i16_bytes(v));
    lemma_i16_round_trip(v);
}

/// Each food item takes five bytes, and item `j` stands at byte `5 * j`.
pub proof fn lemma_food_at(foods: Seq<Food>, j: int, t: int)
    requires
        0 <= j < foods.len(),
        0 <= t < 5,
    ensures
        foods_bytes(foods).len() == 5 * foods.len(),
        foods_bytes(foods)[5 * j + t] == food_bytes(foods[j])[t],
    decreases foods.len(),
{
    lemma_foods_len(foods);
    let rest = foods.drop_last();
    lemma_foods_len(rest);
    if j < foods.len() - 1 {
        lemma_food_at(rest, j, t);
        assert(rest[j] == foods[j]);
    }
}

/// Each food item takes five bytes.
pub proof fn lemma_foods_len(foods: Seq<Food>)
    ensures
        foods_bytes(foods).len() == 5 * foods.len(),
    decreases foods.len(),
{
    if foods.len() > 0 {
        lemma_foods_len(foods.drop_last());
    }
}

/// Bytes that hold the food items one after the other from byte 1 on are
/// parsed to those items.
pub proof fn lemma_parse_foods(buf: Seq<u8>, foods: Seq<Food>, k: nat)
    requires
        buf.len() >= 1 + 5 * foods.len(),
        forall|j: int, t: int|
            0 <= j < foods.len() && 0 <= t < 5 ==> buf[1 + 5 * j + t] == #[trigger] food_bytes(
                foods[j],
            )[t],
        k <= foods.len(),
    ensures
        parse_foods(buf, k) == Ok::<Seq<Food>, ProtocolError>(foods.take(k as int)),
    decreases k,
{
    if k == 0 {
        assert(foods.take(0) =~= Seq::<Food>::empty());
    } else {
        lemma_parse_foods(buf, foods, (k - 1) as nat);
        let f = foods[k - 1];
        let pos = 1 + 5 * (k - 1);
        assert(buf[pos + 0] == food_bytes(f)[0]);
        assert(buf[pos + 1] == food_bytes(f)[1]);
        assert(buf[pos + 2] == food_bytes(f)[2]);
        assert(buf[pos + 3] == food_bytes(f)[3]);
        assert(buf[pos + 4] == food_bytes(f)[4]);
        lemma_i16_at(buf, pos + 1, f.x);
        lemma_i16_at(buf, pos + 3, f.y);
        assert(food_type_of(food_number(f.food_type)) == Some(f.food_type));
        assert(foods.take(k - 1).push(f) =~= foods.take(k as int));
    }
}

/// Each point takes four bytes, and point `j` stands at byte `4 * j`.
pub proof fn lemma_point_at(path: Seq<Point>, j: int, t: int)
    requires
        0 <= j < path.len(),
        0 <= t < 4,
    ensures
        points_bytes(path).len() == 4 * path.len(),
        points_bytes(path)[4 * j + t] == (i16_bytes(path[j].0) + i16_bytes(path[j].1))[t],
    decreases path.len(),
{
    lemma_points_len(path);
    let rest = path.drop_first();
    lemma_points_len(rest);
    if j > 0 {
        lemma_point_at(rest, j - 1, t);
        assert(rest[j - 1] == path[j]);
        assert(points_bytes(path)[4 * j + t] == points_bytes(rest)[4 * (j - 1) + t]);
    }
}

/// Each point takes four bytes.
pub proof fn lemma_points_len(path: Seq<Point>)
    ensures
        points_bytes(path).len() == 4 * path.len(),
    decreases path.len(),
{
    if path.len() > 0 {
        lemma_points_len(path.drop_first());
    }
}

/// Snake `k` stands in the bytes of all snakes right behind the bytes of the
/// snakes before it.
pub proof fn lemma_snake_at(snakes: Seq<Snake>, k: int, t: int)
    requires
        0 <= k < snakes.len(),
        0 <= t < snake_bytes(snakes[k]).len(),
    ensures
        snakes_bytes(snakes.take(k + 1)).len() == snakes_bytes(snakes.take(k)).len() + snake_bytes(
            snakes[k],
        ).len(),
        snakes_bytes(snakes.take(k + 1)).len() <= snakes_bytes(snakes).len(),
        snakes_bytes(snakes)[snakes_bytes(snakes.take(k)).len() + t] == snake_bytes(snakes[k])[t],
    decreases snakes.len(),
{
    let rest = snakes.drop_last();
    assert(snakes.take(k + 1).drop_last() =~= snakes.take(k));
    assert(snakes.take(k + 1).last() == snakes[k]);
    if k < snakes.len() - 1 {
        lemma_snake_at(rest, k, t);
        assert(rest.take(k) =~= snakes.take(k));
        assert(rest.take(k + 1) =~= snakes.take(k + 1));
        assert(rest[k] == snakes[k]);
    } else {
        assert(snakes.take(k) =~= rest);
        assert(snakes.take(k + 1) =~= snakes);
    }
}

/// Bytes that hold the snakes one after the other from `start` on are parsed
/// to those snakes, as long as no body has more nodes than a byte can count.
pub proof fn lemma_parse_snakes(buf: Seq<u8>, start: int, snakes: Seq<Snake>, k: nat)
    requires
        0 <= start,
        buf.len() >= start + snakes_bytes(snakes).len(),
        forall|i: int|
            0 <= i < snakes_bytes(snakes).len() ==> #[trigger] buf[start + i] == snakes_bytes(
                snakes,
            )[i],
        forall|i: int| 0 <= i < snakes.len() ==> (#[trigger] snakes[i]).head@.len() <= 255,
        k <= snakes.len(),
    ensures
        parse_snakes(buf, start, k) == Ok::<(Seq<SnakeShot>, int), ProtocolError>(
            (shots_of(snakes).take(k as int), start + snakes_bytes(snakes.take(k as int)).len()),
        ),
    decreases k,
{
    if k == 0 {
        assert(shots_of(snakes).take(0) =~= Seq::<SnakeShot>::empty());
        assert(snakes.take(0) =~= Seq::<Snake>::empty());
    } else {
        lemma_parse_snakes(buf, start, snakes, (k - 1) as nat);
        let s = snakes[k - 1];
        let path = s.head@;
        let n = path.len() as int;
        assert(n <= 255);
        let off = snakes_bytes(snakes.take(k - 1)).len() as int;
        let pos = start + off;
        lemma_points_len(path);
        assert(snake_bytes(s).len() == 4 + 4 * n);
        lemma_snake_at(snakes, k - 1, 0);
        assert forall|t: int| 0 <= t < 4 + 4 * n implies buf[pos + t] == snake_bytes(s)[t] by {
            lemma_snake_at(snakes, k - 1, t);
            assert(buf[start + (off + t)] == snakes_bytes(snakes)[off + t]);
        }
        assert(buf[pos + 0] == snake_bytes(s)[0]);
        assert(buf[pos + 0] == s.id);
        assert(buf[pos + 1] == snake_bytes(s)[1]);
        assert(buf[pos + 2] == snake_bytes(s)[2]);
        assert(buf[pos + 2] == s.stomach);
        assert(buf[pos + 3] == snake_bytes(s)[3]);
        assert(buf[pos + 3] == n);
        assert((buf[pos + 1] == 1) == s.has_lost);
        assert forall|j: int| 0 <= j < n implies (
            i16_at(buf, pos + 4 + 4 * j),
            i16_at(buf, pos + 4 + 4 * j + 2),
        ) == path[j] by {
            lemma_point_at(path, j, 0);
            lemma_point_at(path, j, 1);
            lemma_point_at(path, j, 2);
            lemma_point_at(path, j, 3);
            assert(buf[pos + (4 + 4 * j + 0)] == snake_bytes(s)[4 + 4 * j + 0]);
            assert(buf[pos + (4 + 4 * j + 1)] == snake_bytes(s)[4 + 4 * j + 1]);
            assert(buf[pos + (4 + 4 * j + 2)] == snake_bytes(s)[4 + 4 * j + 2]);
            assert(buf[pos + (4 + 4 * j + 3)] == snake_bytes(s)[4 + 4 * j + 3]);
            assert(snake_bytes(s)[4 + 4 * j + 0] == points_bytes(path)[4 * j + 0]);
            assert(snake_bytes(s)[4 + 4 * j + 1] == points_bytes(path)[4 * j + 1]);
            assert(snake_bytes(s)[4 + 4 * j + 2] == points_bytes(path)[4 * j + 2]);
            assert(snake_bytes(s)[4 + 4 * j + 3] == points_bytes(path)[4 * j + 3]);
            lemma_i16_at(buf, pos + 4 + 4 * j, path[j].0);
            lemma_i16_at(buf, pos + 4 + 4 * j + 2, path[j].1);
        }
        assert(parse_points(buf, pos + 4, n as nat) =~= path);
        assert(shots_of(snakes).take(k - 1).push(shot_of(s)) =~= shots_of(snakes).take(k as int));
    }
}

/// A frame that is encoded and then parsed gives back its food and its
/// snakes, as long as no count exceeds what a byte can hold.
pub proof fn lemma_frame_round_trip(foods: Seq<Food>, snakes: Seq<Snake>)
    requires
        foods.len() <= 255,
        snakes.len() <= 255,
        forall|i: int| 0 <= i < snakes.len() ==> (#[trigger] snakes[i]).head@.len() <= 255,
    ensures
        parse_frame(food_section(foods) + snake_section(snakes)) == Ok::<
            (Seq<Food>, Seq<SnakeShot>),
            ProtocolError,
        >((foods, shots_of(snakes))),
{
    let buf = food_section(foods) + snake_section(snakes);
    let fb = foods_bytes(foods);
    let sb = snakes_bytes(snakes);
    lemma_foods_len(foods);
    let m = foods.len() as int;
    assert(food_section(foods).len() == 1 + 5 * m);
    assert(buf[0] == foods.len());
    assert forall|j: int, t: int| 0 <= j < foods.len() && 0 <= t < 5 implies buf[1 + 5 * j + t]
        == #[trigger] food_bytes(foods[j])[t] by {
        lemma_food_at(foods, j, t);
        assert(buf[1 + 5 * j + t] == food_section(foods)[1 + 5 * j + t]);
        assert(food_section(foods)[1 + 5 * j + t] == fb[5 * j + t]);
    }
    lemma_parse_foods(buf, foods, foods.len());
    assert(foods.take(m) =~= foods);
    assert(buf[1 + 5 * m] == snake_section(snakes)[0]);
    assert(buf[1 + 5 * m] == snakes.len());
    let start = 2 + 5 * m;
    assert forall|i: int| 0 <= i < sb.len() implies #[trigger] buf[start + i] == sb[i] by {
        assert(buf[start + i] == snake_section(snakes)[1 + i]);
    }
    lemma_parse_snakes(buf, start, snakes, snakes.len());
    assert(shots_of(snakes).take(snakes.len() as int) =~= shots_of(snakes));
}

/// Each announced player takes eight bytes, and player `j` stands at byte
/// `8 * j`.
pub proof fn lemma_player_at(players: Seq<PlayerParams>, j: int, t: int)
    requires
        0 <= j < players.len(),
        0 <= t < 8,
    ensures
        players_bytes(players).len() == 8 * players.len(),
        players_bytes(players)[8 * j + t] == player_bytes(players[j])[t],
    decreases players.len(),
{
    lemma_players_len(players);
    let rest = players.drop_last();
    lemma_players_len(rest);
    if j < players.len() - 1 {
        lemma_player_at(rest, j, t);
        assert(rest[j] == players[j]);
    }
}

/// Each announced player takes eight bytes.
pub proof fn lemma_players_len(players: Seq<PlayerParams>)
    ensures
        players_bytes(players).len() == 8 * players.len(),
    decreases players.len(),
{
    if players.len() > 0 {
        lemma_players_len(players.drop_last());
    }
}

/// The two low bytes of a number below 65536 are the number.
pub proof fn lemma_u16_round_trip(n: u16)
    ensures
        le_bytes(n as nat, 2).len() == 2,
        le_bytes(n as nat, 2)[0] == n % 256,
        le_bytes(n as nat, 2)[1] == n / 256,
        le_value(le_bytes(n as nat, 2)) == n,
{
    let s = le_bytes(n as nat, 2);
    let t = le_bytes((n / 256) as nat, 1);
    assert(le_bytes(((n / 256) / 256) as nat, 0) =~= Seq::<u8>::empty());
    assert(t =~= seq![((n / 256) % 256) as u8]);
    assert(s =~= seq![(n % 256) as u8, (n / 256) as u8]);
    lemma_two_bytes_bound(s);
}

/// Game parameters that are encoded and then read give back what they were
/// made of: grid side, tile side, speed, player count and the players
/// announced.
pub proof fn lemma_game_params_round_trip(
    map_size: u16,
    block_size: u16,
    initial_speed: u8,
    n_players: u8,
    players: Seq<PlayerParams>,
)
    requires
        n_players <= players.len(),
    ensures
        game_params_fit(
            Msg::GameParams,
            game_params_payload(map_size, block_size, initial_speed, n_players, players),
        ),
        ({
            let content = game_params_payload(
                map_size,
                block_size,
                initial_speed,
                n_players,
                players,
            );
            &&& le_value(content.subrange(0, 2)) == map_size
            &&& le_value(content.subrange(2, 4)) == block_size
            &&& content[4] == initial_speed
            &&& content[5] == n_players
            &&& forall|k: int|
                0 <= k < n_players ==> #[trigger] announced_at(content, k) == (
                    players[k].0,
                    players[k].1.0,
                    players[k].1.1,
                    players[k].1.2,
                    players[k].2,
                    players[k].3,
                )
        }),
{
    let content = game_params_payload(map_size, block_size, initial_speed, n_players, players);
    let shown = players.take(n_players as int);
    lemma_u16_round_trip(map_size);
    lemma_u16_round_trip(block_size);
    lemma_players_len(shown);
    assert(content.len() == 6 + 8 * n_players);
    assert(content.subrange(0, 2) =~= le_bytes(map_size as nat, 2));
    assert(content.subrange(2, 4) =~= le_bytes(block_size as nat, 2));
    assert forall|k: int| 0 <= k < n_players implies #[trigger] announced_at(content, k) == (
        players[k].0,
        players[k].1.0,
        players[k].1.1,
        players[k].1.2,
        players[k].2,
        players[k].3,
    ) by {
        let p = players[k];
        assert(shown[k] == p);
        assert forall|t: int| 0 <= t < 8 implies content[6 + 8 * k + t] == player_bytes(p)[t] by {
            lemma_player_at(shown, k, t);
            assert(content[6 + (8 * k + t)] == players_bytes(shown)[8 * k + t]);
        }
        assert(content[6 + 8 * k + 0] == player_bytes(p)[0]);
        assert(content[6 + 8 * k + 1] == player_bytes(p)[1]);
        assert(content[6 + 8 * k + 2] == player_bytes(p)[2]);
        assert(content[6 + 8 * k + 3] == player_bytes(p)[3]);
        assert(content[6 + 8 * k + 4] == player_bytes(p)[4]);
        assert(content[6 + 8 * k + 5] == player_bytes(p)[5]);
        assert(content[6 + 8 * k + 6] == player_bytes(p)[6]);
        assert(content[6 + 8 * k + 7] == player_bytes(p)[7]);
        lemma_i16_at(content, 6 + 8 * k + 4, p.2);
        lemma_i16_at(content, 6 + 8 * k + 6, p.3);
    }
}

} // verus!
