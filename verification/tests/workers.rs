use snake::client::border_rects;
use snake::client::frame_ends_game;
use snake::client::is_shown;
use snake::client::replay_choice;
use snake::client::section_rect;
use snake::client::window_size;
use snake::client::ClientState;
use snake::client::Rect;
use snake::computer_player::direction_for;
use snake::computer_player::random_direction;
use snake::computer_player::ComputerPlayer;
use snake::game::Food;
use snake::game::FoodType;
use snake::game::SnakeNode;
use snake::geometry::Move;
use snake::session::due;
use snake::session::is_valid_player_count;
use snake::session::snake_colors;
use snake::session::start_position;
use snake::session::FrameStep;
use snake::session::Phase;
use snake::session::Worker;
use snake::world::Game;
use snake::world::Key;

fn joined(n: u8) -> (Game, Vec<Worker>) {
    let mut g = Game::with_food(64, 1, vec![]);
    let mut ws = vec![];
    for id in 1..=n {
        ws.push(Worker::join(&mut g, id, n, (id, id, id)).unwrap());
    }
    (g, ws)
}

#[test]
fn players_start_in_the_four_corners() {
    assert_eq!(start_position(1), Some((4, 4)));
    assert_eq!(start_position(2), Some((4, 60)));
    assert_eq!(start_position(3), Some((60, 4)));
    assert_eq!(start_position(4), Some((60, 60)));
    assert_eq!(start_position(0), None);
    assert_eq!(start_position(5), None);
}

#[test]
fn only_two_to_four_players_make_a_game() {
    let ok: Vec<u8> = (0..=6).filter(|n| is_valid_player_count(*n)).collect();
    assert_eq!(ok, vec![2, 3, 4]);
}

#[test]
fn colours_are_the_palette_in_some_order() {
    let palette = vec![
        (0x4C, 0x3B, 0xE3),
        (0xDA, 0xAD, 0xFF),
        (0xF6, 0x83, 0x03),
        (0xF7, 0x49, 0x80),
        (0x9A, 0xF4, 0x96),
        (0x91, 0x67, 0x9D),
        (0xE1, 0x1C, 0x2F),
        (0x97, 0x99, 0x13),
    ];
    let mut sorted_palette = palette.clone();
    sorted_palette.sort();
    let mut moved = false;
    for _ in 0..20 {
        let colors = snake_colors();
        moved = moved || colors != palette;
        let mut sorted = colors.clone();
        sorted.sort();
        assert_eq!(sorted, sorted_palette);
    }
    assert!(moved);
}

#[test]
fn joining_registers_the_snake_at_its_corner() {
    let mut g = Game::with_food(64, 1, vec![]);
    let w = Worker::join(&mut g, 2, 3, (9, 8, 7)).unwrap();
    assert_eq!(w.phase, Phase::AwaitingPlayers);
    assert_eq!(w.snake_index, 0);
    assert_eq!(g.players.len(), 1);
    assert_eq!((g.players[0].head.x, g.players[0].head.y), (4, 60));
    assert_eq!(g.players[0].color, (9, 8, 7));
    assert_eq!(g.players[0].direction, Move::Right);
    assert!(!w.everyone_joined(&g));
    assert!(Worker::join(&mut g, 2, 3, (0, 0, 0)).is_none());
    assert!(Worker::join(&mut g, 5, 3, (0, 0, 0)).is_none());
    assert_eq!(g.players.len(), 1);
}

#[test]
fn worker_goes_from_waiting_to_simulating() {
    let (g, mut ws) = joined(2);
    let w = &mut ws[1];
    assert!(w.everyone_joined(&g));
    assert!(!w.start(&g, 5));
    let params = w.announce(&g);
    assert_eq!(params, vec![(1, (1, 1, 1), 4, 4), (2, (2, 2, 2), 4, 60)]);
    assert_eq!(w.phase, Phase::GameParamsSent);
    assert!(!w.frame_due(1000));
    assert!(w.start(&g, 100));
    assert_eq!(w.phase, Phase::Simulating);
    assert_eq!(w.snake_index, 1);
    assert_eq!((w.last_frame, w.last_input, w.last_boost), (100, 100, 100));
    assert!(!w.input_due(110));
    assert!(w.input_due(111));
    assert!(!w.frame_due(150));
    assert!(w.frame_due(151));
    assert!(!w.frame_due(99));
    w.frame_sent(151);
    assert!(!w.frame_due(200));
    assert!(due(0, 751, 750));
    assert!(!due(0, 750, 750));
}

#[test]
fn moves_are_taken_unless_they_reverse() {
    let (mut g, mut ws) = joined(2);
    let w = &mut ws[0];
    w.announce(&g);
    w.start(&g, 0);
    w.take_move(&mut g, Move::Up, 20);
    assert_eq!(g.players[0].moving, Move::Down);
    assert_eq!(w.last_input, 20);
    w.take_move(&mut g, Move::Right, 40);
    assert_eq!(g.players[0].moving, Move::Right);
    assert_eq!(g.players[1].moving, Move::Right);
}

#[test]
fn frame_step_ticks_the_snake_and_boost_doubles_it() {
    let (mut g, mut ws) = joined(2);
    let w = &mut ws[0];
    assert_eq!(w.frame_step(&mut g, 0), FrameStep::Idle);
    w.announce(&g);
    w.start(&g, 0);
    g.food.push(Food::new(4, 6, FoodType::Mango));
    assert_eq!(w.frame_step(&mut g, 60), FrameStep::Advanced);
    assert_eq!((g.players[0].head.x, g.players[0].head.y), (4, 5));
    assert_eq!(w.last_boost, 0);
    assert_eq!(w.boost_step(&mut g, 60), FrameStep::Advanced);
    assert_eq!((g.players[0].head.x, g.players[0].head.y), (4, 5));
    assert_eq!(w.frame_step(&mut g, 120), FrameStep::Advanced);
    assert_eq!((g.players[0].head.x, g.players[0].head.y), (4, 6));
    assert!(g.players[0].boost);
    assert_eq!(w.last_boost, 120);
    // Without food there are no more meals, and so no more chance.
    g.clear_food();
    assert_eq!(w.boost_step(&mut g, 120), FrameStep::Advanced);
    assert_eq!((g.players[0].head.x, g.players[0].head.y), (4, 7));
    assert!(g.players[0].boost);
    // The boost ends once it has lasted more than its time.
    w.frame_step(&mut g, 870);
    assert_eq!(w.boost_step(&mut g, 870), FrameStep::Advanced);
    assert!(g.players[0].boost);
    w.frame_step(&mut g, 871);
    let y = g.players[0].head.y;
    assert_eq!(w.boost_step(&mut g, 871), FrameStep::Advanced);
    assert_eq!(g.players[0].head.y, y + 1);
    assert!(!g.players[0].boost);
    w.frame_step(&mut g, 900);
    let y = g.players[0].head.y;
    w.boost_step(&mut g, 900);
    assert_eq!(g.players[0].head.y, y);
}

#[test]
fn a_snake_that_cannot_tick_blocks_the_step() {
    let (mut g, mut ws) = joined(2);
    let w = &mut ws[0];
    w.announce(&g);
    w.start(&g, 0);
    g.players[0].stomach = 255;
    assert_eq!(w.frame_step(&mut g, 60), FrameStep::Blocked);
    assert_eq!((g.players[0].head.x, g.players[0].head.y), (4, 4));
    assert_eq!(w.boost_step(&mut g, 60), FrameStep::Advanced);
    g.players[0].boost = true;
    assert_eq!(w.boost_step(&mut g, 60), FrameStep::Blocked);
    assert!(g.players[0].boost);
}

#[test]
fn the_game_ends_when_fewer_than_two_snakes_live() {
    let (mut g, mut ws) = joined(3);
    for w in ws.iter_mut() {
        w.announce(&g);
        w.start(&g, 0);
    }
    assert!(!ws[0].game_ended(&g));
    g.set_lost(2);
    assert!(!ws[0].finish_if_over(&mut g));
    assert_eq!(ws[0].phase, Phase::Simulating);
    g.set_lost(3);
    assert!(ws[0].game_ended(&g));
    assert!(ws[0].finish_if_over(&mut g));
    assert_eq!(ws[0].phase, Phase::Ended);
    // The last tick moved the survivor.
    assert_eq!((g.players[0].head.x, g.players[0].head.y), (4, 5));
    assert!(!ws[0].finish_if_over(&mut g));
    assert!(ws[1].finish_if_over(&mut g));
    assert_eq!((g.players[1].head.x, g.players[1].head.y), (4, 60));
    assert_eq!(ws[1].frame_step(&mut g, 999), FrameStep::Idle);
}

#[test]
fn computer_player_never_goes_up() {
    assert_eq!(direction_for(0), Move::Right);
    assert_eq!(direction_for(1), Move::Right);
    assert_eq!(direction_for(2), Move::Down);
    assert_eq!(direction_for(3), Move::Left);
    assert_eq!(direction_for(4), Move::Up);
    let bot = ComputerPlayer::init(3);
    assert_eq!(bot.player_id, 3);
    let g = Game::with_food(64, 1, vec![]);
    let mut seen = std::collections::BTreeSet::new();
    for _ in 0..200 {
        let m = bot.play(&g);
        assert_ne!(m, Move::Up);
        seen.insert(format!("{:?}", m));
        assert_ne!(random_direction(), Move::Up);
    }
    assert_eq!(seen.len(), 3);
}

#[test]
fn client_sees_the_end_of_the_game() {
    assert!(!frame_ends_game(&vec![(1, false), (2, false)], 2));
    assert!(frame_ends_game(&vec![(1, false), (2, true)], 2));
    assert!(frame_ends_game(&vec![(1, false)], 3));
    assert!(frame_ends_game(&vec![], 3));
    assert!(!frame_ends_game(&vec![(1, false), (2, true), (3, false)], 3));
    assert!(!frame_ends_game(&vec![(1, false)], 1));
    assert!(frame_ends_game(&vec![(1, true)], 1));
    assert!(is_shown(&vec![(1, false), (3, true)], 3));
    assert!(!is_shown(&vec![(1, false), (3, true)], 2));
    assert_eq!(replay_choice(Key::R), Some(true));
    assert_eq!(replay_choice(Key::Q), Some(false));
    assert_eq!(replay_choice(Key::Escape), Some(false));
    assert_eq!(replay_choice(Key::Up), None);
    assert_ne!(ClientState::Waiting, ClientState::OnGoing);
    assert_ne!(ClientState::OnGoing, ClientState::EndOfGame);
    assert_eq!(window_size(), (890, 640));
}

#[test]
fn sections_and_borders_cover_the_right_tiles() {
    let a = SnakeNode::new(3, 4);
    let b = SnakeNode::new(3, 9);
    let c = SnakeNode::new(-2, 4);
    assert_eq!(section_rect(&a, &b), Rect { x: 3, y: 4, h: 6, w: 1 });
    assert_eq!(section_rect(&b, &a), Rect { x: 3, y: 4, h: 6, w: 1 });
    assert_eq!(section_rect(&a, &c), Rect { x: -2, y: 4, h: 1, w: 6 });
    assert_eq!(section_rect(&c, &a), Rect { x: -2, y: 4, h: 1, w: 6 });
    assert_eq!(section_rect(&a, &a), Rect { x: 3, y: 4, h: 1, w: 1 });
    assert_eq!(
        border_rects(64),
        [
            Rect { x: 0, y: 0, h: 64, w: 1 },
            Rect { x: 0, y: 0, h: 1, w: 64 },
            Rect { x: 63, y: 0, h: 64, w: 1 },
            Rect { x: 0, y: 63, h: 1, w: 64 },
        ]
    );
}
