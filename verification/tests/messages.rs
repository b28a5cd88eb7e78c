use snake::decode::apply_game_params;
use snake::decode::decode_frame;
use snake::decode::decode_game_params;
use snake::decode::decode_header;
use snake::decode::decode_move;
use snake::decode::decode_player_id;
use snake::decode::deconstruct_frame;
use snake::decode::get_game_params;
use snake::decode::show_snake;
use snake::decode::ProtocolError;
use snake::decode::SnakeRecord;
use snake::game::Food;
use snake::game::FoodType;
use snake::game::Snake;
use snake::game::SnakeNode;
use snake::geometry::Move;
use snake::protocol::encode_message;
use snake::protocol::frame_message;
use snake::protocol::game_params_message;
use snake::protocol::id_to_msg;
use snake::protocol::move_message;
use snake::protocol::msg_to_id;
use snake::protocol::player_id_message;
use snake::protocol::read_i16;
use snake::protocol::read_int_from_n_bytes;
use snake::protocol::split_bytes;
use snake::protocol::vec_as_n_bytes;
use snake::protocol::Msg;
use snake::world::Game;

fn path(node: &SnakeNode) -> Vec<(i16, i16)> {
    let mut out = vec![(node.x, node.y)];
    let mut cur = node;
    while let Some(next) = cur.get_next() {
        out.push((next.x, next.y));
        cur = next;
    }
    out
}

#[test]
fn signed_coordinates_round_trip() {
    for v in [0i16, 1, -1, 255, 256, -256, 9832, i16::MAX, i16::MIN, -12345] {
        let bytes = vec_as_n_bytes(v, 2);
        assert_eq!(read_i16(&bytes, 0), v);
        assert_eq!(bytes, v.to_le_bytes().to_vec());
    }
    assert_eq!(vec_as_n_bytes(-1, 2), vec![0xFF, 0xFF]);
    assert_eq!(vec_as_n_bytes(-2, 1), vec![0xFE]);
    assert_eq!(vec_as_n_bytes(77, 0), Vec::<u8>::new());
}

#[test]
fn all_signed_values_round_trip() {
    let mut v = i16::MIN;
    loop {
        let bytes = vec_as_n_bytes(v, 2);
        assert_eq!(read_i16(&bytes, 0), v);
        if v == i16::MAX {
            break;
        }
        v += 1;
    }
}

#[test]
fn unsigned_numbers_split_and_read_back() {
    assert_eq!(split_bytes(0x0102_0304, 4), vec![4, 3, 2, 1]);
    assert_eq!(split_bytes(0x0102_0304, 2), vec![4, 3]);
    assert_eq!(split_bytes(64, 2), vec![64, 0]);
    assert_eq!(split_bytes(7, 6), vec![7, 0, 0, 0, 0, 0]);
    assert_eq!(split_bytes(7, 0), Vec::<u8>::new());
    let buf = [9u8, 4, 3, 2, 1, 9];
    assert_eq!(read_int_from_n_bytes(&buf, 1, 4), 0x0102_0304);
    assert_eq!(read_int_from_n_bytes(&buf, 1, 2), 0x0304);
    assert_eq!(read_int_from_n_bytes(&buf, 5, 1), 9);
    assert_eq!(read_int_from_n_bytes(&buf, 6, 0), 0);
    assert_eq!(read_int_from_n_bytes(&[0xFF, 0xFF, 0xFF, 0xFF], 0, 4), u32::MAX);
}

#[test]
fn message_kinds_and_numbers() {
    let kinds = [Msg::PlayerId, Msg::GameParams, Msg::GameStart, Msg::Frame, Msg::Move];
    for (i, k) in kinds.iter().enumerate() {
        assert_eq!(msg_to_id(*k), i as u8);
        assert_eq!(id_to_msg(i as u8), *k);
    }
    assert_eq!(id_to_msg(5), Msg::UnknownId);
    assert_eq!(id_to_msg(255), Msg::UnknownId);
}

#[test]
fn messages_are_framed_with_kind_and_length() {
    assert_eq!(encode_message(Msg::Frame, &[7, 8, 9]), vec![3, 3, 0, 7, 8, 9]);
    assert_eq!(encode_message(Msg::GameStart, &[]), vec![2, 0, 0]);
    let long = vec![1u8; 300];
    let m = encode_message(Msg::Frame, &long);
    assert_eq!(&m[..3], &[3, 44, 1]);
    assert_eq!(m.len(), 303);
    assert_eq!(player_id_message(3), vec![0, 1, 0, 3]);
    assert_eq!(move_message(&Move::Up), vec![4, 1, 0, 1]);
    assert_eq!(move_message(&Move::Down), vec![4, 1, 0, 2]);
    assert_eq!(move_message(&Move::Left), vec![4, 1, 0, 3]);
    assert_eq!(move_message(&Move::Right), vec![4, 1, 0, 4]);
}

#[test]
fn headers_are_read() {
    assert_eq!(decode_header(&[3, 44, 1]), Ok((Msg::Frame, 300)));
    assert_eq!(decode_header(&[4, 1, 0, 9]), Ok((Msg::Move, 1)));
    assert_eq!(decode_header(&[4, 1]), Err(ProtocolError::BufferUnderrun));
    assert_eq!(decode_header(&[9, 1, 0]), Err(ProtocolError::UnknownMessage(9)));
}

#[test]
fn moves_are_read() {
    assert_eq!(decode_move(Msg::Move, &[1]), Ok(Move::Up));
    assert_eq!(decode_move(Msg::Move, &[2]), Ok(Move::Down));
    assert_eq!(decode_move(Msg::Move, &[3]), Ok(Move::Left));
    assert_eq!(decode_move(Msg::Move, &[4]), Ok(Move::Right));
    assert_eq!(decode_move(Msg::Move, &[0]), Err(ProtocolError::UnknownMove(0)));
    assert_eq!(decode_move(Msg::Move, &[5]), Err(ProtocolError::UnknownMove(5)));
    assert_eq!(decode_move(Msg::Move, &[]), Err(ProtocolError::BadLength));
    assert_eq!(decode_move(Msg::Move, &[1, 1]), Err(ProtocolError::BadLength));
    assert_eq!(decode_move(Msg::Frame, &[1]), Err(ProtocolError::UnexpectedMessage));
    for m in [Move::Up, Move::Down, Move::Left, Move::Right] {
        let bytes = move_message(&m);
        let (kind, len) = decode_header(&bytes[..3]).unwrap();
        assert_eq!(len, 1);
        assert_eq!(decode_move(kind, &bytes[3..]), Ok(m));
    }
}

#[test]
fn player_ids_are_read() {
    assert_eq!(decode_player_id(Msg::PlayerId, &[3]), Ok(3));
    assert_eq!(decode_player_id(Msg::PlayerId, &[]), Err(ProtocolError::BadLength));
    assert_eq!(decode_player_id(Msg::Move, &[3]), Err(ProtocolError::UnexpectedMessage));
    let bytes = player_id_message(200);
    let (kind, _) = decode_header(&bytes[..3]).unwrap();
    assert_eq!(decode_player_id(kind, &bytes[3..]), Ok(200));
}

#[test]
fn game_params_have_the_documented_layout() {
    let players = vec![(1u8, (2u8, 3u8, 4u8), 4i16, 60i16), (2, (5, 6, 7), -2, 300)];
    let bytes = game_params_message(64, 10, 1, 2, &players);
    assert_eq!(
        bytes,
        vec![
            1, 22, 0, 64, 0, 10, 0, 1, 2, 1, 2, 3, 4, 4, 0, 60, 0, 2, 5, 6, 7, 0xFE, 0xFF, 44, 1
        ]
    );
    // Only the announced number of players is written.
    let fewer = game_params_message(64, 10, 1, 1, &players);
    assert_eq!(fewer.len(), 3 + 6 + 8);
    assert_eq!(fewer[8], 1);
}

#[test]
fn game_params_round_trip_into_a_client_world() {
    let players = vec![(1u8, (2u8, 3u8, 4u8), 4i16, 60i16), (2, (5, 6, 7), 60, 4)];
    let bytes = game_params_message(64, 10, 1, 2, &players);
    let (kind, len) = decode_header(&bytes[..3]).unwrap();
    assert_eq!(kind, Msg::GameParams);
    assert_eq!(len as usize, bytes.len() - 3);
    let params = decode_game_params(kind, &bytes[3..]).unwrap();
    assert_eq!(params.map_size, 64);
    assert_eq!(params.block_size, 10);
    assert_eq!(params.initial_speed, 1);
    assert_eq!(params.n_players, 2);
    assert_eq!(params.players, vec![(1, 2, 3, 4, 4, 60), (2, 5, 6, 7, 60, 4)]);

    let mut game = Game::with_food(0, 0, vec![]);
    assert_eq!(game.border_color, (255, 255, 255));
    assert_eq!(get_game_params(kind, &bytes[3..], &mut game, 2), Ok(()));
    assert_eq!(game.dimensions, 64);
    assert_eq!(game.block_size, 10);
    assert_eq!(game.n_players, 2);
    assert_eq!(game.border_color, (5, 6, 7));
    assert_eq!(game.players.len(), 2);
    assert_eq!(game.players[0].id, 1);
    assert_eq!(game.players[0].color, (2, 3, 4));
    assert_eq!(game.players[0].direction, Move::Right);
    assert_eq!(game.players[1].direction, Move::Left);
    assert_eq!(path(&game.players[1].head), vec![(60, 4), (60, 4)]);

    let mut other = Game::with_food(0, 0, vec![]);
    apply_game_params(&mut other, params, 9);
    assert_eq!(other.border_color, (255, 255, 255));
    assert_eq!(other.players.len(), 2);
}

#[test]
fn game_params_that_are_cut_short_are_refused() {
    let players = vec![(1u8, (2u8, 3u8, 4u8), 4i16, 60i16)];
    let bytes = game_params_message(64, 10, 1, 1, &players);
    let payload = &bytes[3..];
    assert_eq!(
        decode_game_params(Msg::Frame, payload).unwrap_err(),
        ProtocolError::UnexpectedMessage
    );
    assert_eq!(
        decode_game_params(Msg::GameParams, &payload[..payload.len() - 1]).unwrap_err(),
        ProtocolError::BufferUnderrun
    );
    assert_eq!(
        decode_game_params(Msg::GameParams, &payload[..5]).unwrap_err(),
        ProtocolError::BufferUnderrun
    );
    let mut game = Game::with_food(7, 0, vec![]);
    assert_eq!(
        get_game_params(Msg::GameParams, &payload[..8], &mut game, 1),
        Err(ProtocolError::BufferUnderrun)
    );
    assert_eq!(game.dimensions, 7);
    assert!(game.players.is_empty());
}

#[test]
fn frames_have_the_documented_layout() {
    let food = vec![Food::new(10, 20, FoodType::Apple), Food::new(30, 40, FoodType::Mango)];
    let sn = Snake::new(1, (2, 3, 4), 10, 20, Move::Right, Move::Right);
    let snakes = vec![&sn];
    assert_eq!(
        frame_message(&food, &snakes),
        vec![
            3, 24, 0, 2, 1, 10, 0, 20, 0, 2, 30, 0, 40, 0, 1, 1, 0, 10, 2, 10, 0, 20, 0, 10, 0, 20,
            0
        ]
    );
    assert_eq!(frame_message(&vec![], &vec![]), vec![3, 2, 0, 0, 0]);
}

#[test]
fn frames_round_trip_into_a_client_world() {
    let mut server = Game::with_food(
        64,
        1,
        vec![Food::new(10, 20, FoodType::Apple), Food::new(-3, 40, FoodType::Mango)],
    );
    server.add_player(1, (1, 1, 1), 4, 4);
    server.add_player(2, (2, 2, 2), 4, 60);
    server.add_player(3, (3, 3, 3), 60, 4);
    server.players[1].change_intent(Move::Up);
    for _ in 0..3 {
        server.players[1].update();
    }
    server.set_lost(3);
    let bytes = frame_message(&server.food, &server.players_alive());

    let mut client = Game::with_food(64, 0, vec![Food::new(1, 1, FoodType::Apple)]);
    client.init_players(vec![(1, 1, 1, 1, 4, 4), (2, 2, 2, 2, 4, 60), (3, 3, 3, 3, 60, 4)]);
    let (kind, len) = decode_header(&bytes[..3]).unwrap();
    assert_eq!(len as usize, bytes.len() - 3);
    let alive = deconstruct_frame(kind, &bytes[3..], &mut client).unwrap();
    assert_eq!(alive, vec![(1, false), (2, false)]);
    assert_eq!(client.food, server.food);
    assert_eq!(path(&client.players[0].head), path(&server.players[0].head));
    assert_eq!(path(&client.players[1].head), vec![(4, 57), (4, 60), (4, 60)]);
    assert_eq!(client.players[1].stomach, 7);
    assert!(!client.players[1].has_lost);
    // The lost snake is not shown: the client keeps what it had.
    assert!(!client.players[2].has_lost);
    assert_eq!(path(&client.players[2].head), vec![(60, 4), (60, 4)]);
}

#[test]
fn frames_that_are_not_accepted_leave_the_world_alone() {
    let mut client = Game::with_food(64, 0, vec![Food::new(1, 1, FoodType::Apple)]);
    client.init_players(vec![(1, 1, 1, 1, 4, 4)]);
    let good = vec![1u8, 1, 10, 0, 20, 0, 1, 1, 1, 5, 1, 7, 0, 8, 0];
    let cases: Vec<(Msg, Vec<u8>, ProtocolError)> = vec![
        (Msg::Move, good.clone(), ProtocolError::UnexpectedMessage),
        (Msg::Frame, vec![], ProtocolError::BufferUnderrun),
        (Msg::Frame, vec![1, 1, 10, 0, 20], ProtocolError::BufferUnderrun),
        (Msg::Frame, vec![1, 1, 10, 0, 20, 0], ProtocolError::BufferUnderrun),
        (Msg::Frame, vec![1, 3, 10, 0, 20, 0, 0], ProtocolError::UnknownFood(3)),
        (Msg::Frame, vec![0, 1, 1, 0, 5], ProtocolError::BufferUnderrun),
        (Msg::Frame, vec![0, 1, 1, 0, 5, 1, 7, 0, 8], ProtocolError::BufferUnderrun),
        (Msg::Frame, vec![0, 1, 9, 0, 5, 0], ProtocolError::UnknownPlayer(9)),
    ];
    for (kind, bytes, error) in cases {
        assert_eq!(deconstruct_frame(kind, &bytes, &mut client), Err(error));
        assert_eq!(client.food, vec![Food::new(1, 1, FoodType::Apple)]);
        assert_eq!(path(&client.players[0].head), vec![(4, 4), (4, 4)]);
        assert_eq!(client.players[0].stomach, 10);
    }
    assert_eq!(deconstruct_frame(Msg::Frame, &good, &mut client), Ok(vec![(1, true)]));
    assert_eq!(client.food, vec![Food::new(10, 20, FoodType::Apple)]);
    assert_eq!(path(&client.players[0].head), vec![(7, 8)]);
    assert_eq!(client.players[0].stomach, 5);
    assert!(client.players[0].has_lost);
    // A snake shown without nodes keeps its body.
    assert_eq!(deconstruct_frame(Msg::Frame, &[0, 1, 1, 0, 2, 0], &mut client), Ok(vec![(1, false)]));
    assert_eq!(path(&client.players[0].head), vec![(7, 8)]);
    assert_eq!(client.players[0].stomach, 2);
    assert!(client.food.is_empty());
}

#[test]
fn frame_payloads_are_parsed_to_plain_values() {
    let frame = decode_frame(&[1, 2, 0xFF, 0xFF, 0, 0x80, 1, 4, 0, 9, 2, 1, 0, 2, 0, 3, 0, 4, 0]).unwrap();
    assert_eq!(frame.food, vec![Food::new(-1, i16::MIN, FoodType::Mango)]);
    assert_eq!(
        frame.snakes,
        vec![SnakeRecord { id: 4, has_lost: false, stomach: 9, nodes: vec![(1, 2), (3, 4)] }]
    );
    let mut s = Snake::new(4, (0, 0, 0), 0, 0, Move::Up, Move::Up);
    show_snake(&mut s, &frame.snakes[0]);
    assert_eq!(path(&s.head), vec![(1, 2), (3, 4)]);
    assert_eq!(s.stomach, 9);
    // Only the value 1 of the second byte means that the snake has lost.
    let odd = decode_frame(&[0, 1, 4, 2, 9, 0]).unwrap();
    assert!(!odd.snakes[0].has_lost);
}
