use snake::game::food_id_to_type;
use snake::game::Food;
use snake::game::FoodType;
use snake::game::Snake;
use snake::geometry::Move;
use snake::world::Game;
use snake::world::Key;
use snake::world::Rolls;
use snake::world::TileType;

fn rolls(coin: u16) -> Rolls {
    Rolls { relocate_x: 30, relocate_y: 31, coin, spawn_x: 40, spawn_y: 41, spawn_kind: 2 }
}

fn world(food: Vec<Food>) -> Game {
    Game::with_food(64, 1, food)
}

#[test]
fn new_world_has_one_apple_inside() {
    for _ in 0..50 {
        let g = Game::new(64, 1);
        assert_eq!(g.food.len(), 1);
        assert_eq!(g.food[0].food_type, FoodType::Apple);
        assert!(2 <= g.food[0].x && g.food[0].x < 62);
        assert!(2 <= g.food[0].y && g.food[0].y < 62);
        assert!(g.players.is_empty());
        assert_eq!(g.dimensions, 64);
    }
}

#[test]
fn draws_fit_the_grid_and_vary() {
    let mut coins = [false, false];
    let mut kinds = [false, false];
    let mut xs = std::collections::BTreeSet::new();
    for _ in 0..200 {
        let r = Rolls::draw(64);
        assert!(2 <= r.relocate_x && r.relocate_x < 62);
        assert!(2 <= r.relocate_y && r.relocate_y < 62);
        assert!(2 <= r.spawn_x && r.spawn_x < 62);
        assert!(2 <= r.spawn_y && r.spawn_y < 62);
        assert!(r.coin <= 1);
        assert!(r.spawn_kind == 1 || r.spawn_kind == 2);
        coins[r.coin as usize] = true;
        kinds[(r.spawn_kind - 1) as usize] = true;
        xs.insert(r.relocate_x);
    }
    assert!(coins[0] && coins[1]);
    assert!(kinds[0] && kinds[1]);
    assert!(xs.len() > 1);
}

#[test]
fn smallest_grid_leaves_one_place_for_food() {
    let g = Game::new(5, 1);
    assert_eq!((g.food[0].x, g.food[0].y), (2, 2));
}

#[test]
fn players_start_heading_along_the_border() {
    let mut g = world(vec![]);
    g.add_player(1, (1, 1, 1), 4, 4);
    g.add_player(2, (2, 2, 2), 4, 60);
    g.add_player(3, (3, 3, 3), 60, 4);
    g.add_player(4, (4, 4, 4), 60, 60);
    let dirs: Vec<Move> = g.players.iter().map(|s| s.direction).collect();
    assert_eq!(dirs, vec![Move::Down, Move::Right, Move::Left, Move::Up]);
    for s in &g.players {
        assert_eq!(s.direction, s.moving);
        assert_eq!(s.head.len(), 2);
        assert_eq!(s.stomach, 10);
    }
    assert_eq!(g.get_player(3), Some(2));
    assert_eq!(g.get_player_index(4), Some(3));
    assert_eq!(g.get_player(9), None);
    // On the middle line a snake heads as if it were on the low side.
    let mut h = world(vec![]);
    h.add_player(1, (0, 0, 0), 32, 33);
    assert_eq!(h.players[0].direction, Move::Right);
}

#[test]
fn tiles_are_classified_snake_before_food_before_wall() {
    let mut g = world(vec![Food::new(10, 10, FoodType::Mango), Food::new(0, 5, FoodType::Apple)]);
    g.add_player(1, (0, 0, 0), 10, 8);
    g.add_player(2, (0, 0, 0), 20, 20);
    g.players[0].moving = Move::Down;
    for _ in 0..4 {
        g.players[0].update();
    }
    // snake 1 runs from (10,12) up to (10,8), across the mango.
    assert_eq!(g.check_tile(10, 10, 2), TileType::SnakeTile(1));
    assert_eq!(g.check_tile(10, 10, 1), TileType::FoodTile(FoodType::Mango));
    assert_eq!(g.check_tile(0, 5, 2), TileType::FoodTile(FoodType::Apple));
    assert_eq!(g.check_tile(0, 6, 2), TileType::Wall);
    assert_eq!(g.check_tile(63, 6, 2), TileType::Wall);
    assert_eq!(g.check_tile(6, 0, 2), TileType::Wall);
    assert_eq!(g.check_tile(6, 63, 2), TileType::Wall);
    assert_eq!(g.check_tile(-3, 6, 2), TileType::Wall);
    assert_eq!(g.check_tile(1, 1, 2), TileType::Nothing);
    assert_eq!(g.check_tile(62, 62, 2), TileType::Nothing);
    // Snake 2 rests on one point: its only segment is its first one.
    assert_eq!(g.check_tile(20, 20, 1), TileType::SnakeTile(2));
    assert_eq!(g.check_tile(20, 20, 2), TileType::Nothing);
}

#[test]
fn eating_an_apple_feeds_and_moves_the_apple() {
    let mut g = world(vec![Food::new(5, 4, FoodType::Apple)]);
    g.add_player(1, (0, 0, 0), 4, 4);
    g.players[0].moving = Move::Right;
    assert!(g.is_able_to_tick(0));
    let boosted = g.update_snake_with(0, &rolls(0));
    assert!(!boosted);
    assert_eq!(g.players[0].stomach, 9 + 4);
    assert!(!g.players[0].has_lost);
    assert!(!g.players[0].boost);
    assert_eq!(g.food, vec![Food::new(30, 31, FoodType::Apple)]);
}

#[test]
fn a_meal_may_bring_new_food() {
    let mut g = world(vec![Food::new(5, 4, FoodType::Apple)]);
    g.add_player(1, (0, 0, 0), 4, 4);
    g.players[0].moving = Move::Right;
    g.update_snake_with(0, &rolls(1));
    assert_eq!(g.food, vec![Food::new(30, 31, FoodType::Apple), Food::new(40, 41, FoodType::Mango)]);
}

#[test]
fn food_never_exceeds_its_cap() {
    let mut food = vec![Food::new(5, 4, FoodType::Apple)];
    for i in 0..19 {
        food.push(Food::new(10 + i, 50, FoodType::Mango));
    }
    let mut g = world(food);
    g.add_player(1, (0, 0, 0), 4, 4);
    g.players[0].moving = Move::Right;
    g.update_snake_with(0, &rolls(1));
    assert_eq!(g.food.len(), 20);
    assert_eq!(g.food[0], Food::new(30, 31, FoodType::Apple));
}

#[test]
fn eating_a_mango_boosts_and_removes_it() {
    let mut g = world(vec![
        Food::new(5, 4, FoodType::Mango),
        Food::new(9, 9, FoodType::Apple),
        Food::new(5, 4, FoodType::Mango),
    ]);
    g.add_player(1, (0, 0, 0), 4, 4);
    g.players[0].moving = Move::Right;
    let boosted = g.update_snake_with(0, &rolls(0));
    assert!(boosted);
    assert!(g.players[0].boost);
    assert_eq!(g.players[0].stomach, 9);
    assert_eq!(g.food, vec![Food::new(9, 9, FoodType::Apple)]);
}

#[test]
fn running_into_the_wall_is_fatal() {
    let mut g = world(vec![]);
    g.add_player(1, (0, 0, 0), 1, 4);
    g.players[0].moving = Move::Left;
    g.players[0].direction = Move::Left;
    let boosted = g.update_snake_with(0, &rolls(1));
    assert!(!boosted);
    assert!(g.players[0].has_lost);
    assert_eq!((g.players[0].head.x, g.players[0].head.y), (0, 4));
    assert!(g.food.is_empty());
    // Once lost, the snake no longer moves.
    g.update_snake_with(0, &rolls(1));
    assert_eq!((g.players[0].head.x, g.players[0].head.y), (0, 4));
}

#[test]
fn nothing_kills_in_a_world_without_death() {
    let mut g = world(vec![]);
    g.no_death = true;
    g.add_player(1, (0, 0, 0), 1, 4);
    g.players[0].moving = Move::Left;
    g.players[0].direction = Move::Left;
    g.update_snake_with(0, &rolls(0));
    assert!(!g.players[0].has_lost);
    assert_eq!((g.players[0].head.x, g.players[0].head.y), (0, 4));
}

#[test]
fn running_into_another_snake_is_fatal_for_the_runner_only() {
    let mut g = world(vec![]);
    g.add_player(1, (0, 0, 0), 4, 4);
    g.add_player(2, (0, 0, 0), 6, 2);
    // Snake 2 grows downward across row 4.
    g.players[1].moving = Move::Down;
    g.players[1].direction = Move::Down;
    for _ in 0..4 {
        g.update_snake_with(1, &rolls(0));
    }
    g.players[0].moving = Move::Right;
    g.update_snake_with(0, &rolls(0));
    assert!(!g.players[0].has_lost);
    g.update_snake_with(0, &rolls(0));
    assert_eq!((g.players[0].head.x, g.players[0].head.y), (6, 4));
    assert!(g.players[0].has_lost);
    assert!(!g.players[1].has_lost);
}

#[test]
fn turning_at_spawn_in_the_world_does_not_kill() {
    let mut g = world(vec![]);
    g.add_player(1, (0, 0, 0), 4, 4);
    g.players[0].change_intent(Move::Right);
    g.update_snake_with(0, &rolls(0));
    assert!(!g.players[0].has_lost);
    assert_eq!(g.players[0].head.len(), 3);
    g.update_snake(0);
    assert!(!g.players[0].has_lost);
}

#[test]
fn alive_ids_ascend_and_leave_out_the_lost() {
    let mut g = world(vec![]);
    g.add_player(3, (0, 0, 0), 60, 4);
    g.add_player(1, (0, 0, 0), 4, 4);
    g.add_player(4, (0, 0, 0), 60, 60);
    g.add_player(2, (0, 0, 0), 4, 60);
    assert_eq!(g.get_alive(), vec![1, 2, 3, 4]);
    g.set_lost(3);
    assert_eq!(g.get_alive(), vec![1, 2, 4]);
    let ids: Vec<u8> = g.players_alive().iter().map(|s| s.id).collect();
    assert_eq!(ids, vec![1, 2, 4]);
    g.killed(1, 2);
    assert_eq!(g.get_alive(), vec![2, 4]);
    g.no_death = true;
    g.killed(2, 4);
    assert_eq!(g.get_alive(), vec![2, 4]);
}

#[test]
fn three_player_game_ends_when_fewer_than_two_are_alive() {
    for mask in 0u8..8 {
        let mut g = world(vec![]);
        g.add_player(1, (0, 0, 0), 4, 4);
        g.add_player(2, (0, 0, 0), 4, 60);
        g.add_player(3, (0, 0, 0), 60, 4);
        let mut lost = 0;
        for i in 0..3 {
            if mask & (1 << i) != 0 {
                g.set_lost(i + 1);
                lost += 1;
            }
        }
        assert_eq!(g.is_over(), lost >= 2, "mask {}", mask);
        assert_eq!(g.get_alive().len() < 2, lost >= 2);
    }
}

#[test]
fn feeding_and_food_bookkeeping() {
    let mut g = world(vec![Food::new(1, 1, FoodType::Apple), Food::new(1, 1, FoodType::Mango)]);
    g.add_player(2, (0, 0, 0), 4, 4);
    g.feed(2, 4);
    assert_eq!(g.players[0].stomach, 14);
    g.relocate_food(1, 1, 8, 9);
    assert_eq!(g.food, vec![Food::new(8, 9, FoodType::Apple), Food::new(1, 1, FoodType::Mango)]);
    g.relocate_food(50, 50, 3, 3);
    assert_eq!(g.food.len(), 2);
    g.reset_food(1, 1);
    assert_eq!(g.food[1].food_type, FoodType::Mango);
    assert!(2 <= g.food[1].x && g.food[1].x < 62 && 2 <= g.food[1].y && g.food[1].y < 62);
    g.add_food(7, 7, FoodType::Apple);
    g.add_food(7, 7, FoodType::Mango);
    g.delete_food(7, 7);
    assert_eq!(g.food.len(), 2);
    g.clear_food();
    assert!(g.food.is_empty());
}

#[test]
fn food_kinds_and_numbers() {
    assert_eq!(food_id_to_type(1), FoodType::Apple);
    assert_eq!(food_id_to_type(2), FoodType::Mango);
    assert_eq!(Food::int_to_food_type(1), Some(FoodType::Apple));
    assert_eq!(Food::int_to_food_type(2), Some(FoodType::Mango));
    assert_eq!(Food::int_to_food_type(0), None);
    assert_eq!(Food::int_to_food_type(3), None);
    let f = Food::new(-3, 9, FoodType::Mango);
    assert_eq!(f.food_type_to_food_id(), 2);
    assert_eq!(f.get_info_for_data_trs(), (2, -3, 9));
    let mut m = f;
    m.move_to(1, 2);
    assert_eq!(m, Food::new(1, 2, FoodType::Mango));
    m.reset(5);
    assert_eq!(m, Food::new(2, 2, FoodType::Mango));
}

#[test]
fn keys_set_the_wish_without_regard_to_reversal() {
    let mut g = world(vec![]);
    g.add_player(1, (0, 0, 0), 4, 4);
    g.key_pressed(1, Key::Z);
    assert_eq!(g.players[0].moving, Move::Up);
    g.key_pressed(1, Key::Down);
    assert_eq!(g.players[0].moving, Move::Down);
    g.key_pressed(1, Key::Q);
    assert_eq!(g.players[0].moving, Move::Left);
    g.key_pressed(1, Key::D);
    assert_eq!(g.players[0].moving, Move::Right);
    g.key_pressed(1, Key::R);
    assert_eq!(g.players[0].moving, Move::Right);
    g.key_pressed(1, Key::Up);
    g.key_pressed(1, Key::S);
    g.key_pressed(1, Key::Left);
    g.key_pressed(1, Key::Right);
    g.key_pressed(1, Key::Other);
    assert_eq!(g.players[0].moving, Move::Right);
}

#[test]
fn a_snake_at_the_edge_of_the_range_cannot_tick() {
    let mut g = world(vec![]);
    g.players.push(Snake::new(1, (0, 0, 0), i16::MAX, 0, Move::Right, Move::Right));
    assert!(!g.is_able_to_tick(0));
    assert!(!g.is_able_to_tick(1));
    g.players[0].moving = Move::Down;
    g.players[0].direction = Move::Down;
    assert!(g.is_able_to_tick(0));
    g.players[0].stomach = 252;
    assert!(!g.is_able_to_tick(0));
}

#[test]
fn worlds_and_snakes_can_be_checked_for_validity() {
    let mut g = world(vec![]);
    assert!(g.is_valid());
    assert!(g.has_dense_ids());
    g.add_player(2, (0, 0, 0), 4, 60);
    assert!(g.is_valid());
    assert!(!g.has_dense_ids());
    g.add_player(1, (0, 0, 0), 4, 4);
    assert!(g.has_dense_ids());
    for _ in 0..30 {
        g.update_snake(0);
        g.update_snake(1);
        assert!(g.is_valid());
    }
    // Two snakes with one identifier.
    g.players[1].id = 2;
    assert!(!g.is_valid());
    g.players[1].id = 1;
    // A diagonal segment.
    g.players[0].head.x += 1;
    g.players[0].head.y += 1;
    assert!(!g.players[0].is_valid());
    assert!(!g.is_valid());
    g.players[0].head.x -= 1;
    g.players[0].head.y -= 1;
    assert!(g.is_valid());
    // A head that is not ahead of the node behind it.
    g.players[0].direction = Move::Left;
    assert!(!g.players[0].is_valid());
    g.players[0].direction = Move::Right;
    // Too much food, or a grid too small.
    for i in 0..21 {
        g.add_food(i, 5, FoodType::Apple);
    }
    assert!(!g.is_valid());
    g.clear_food();
    assert!(g.is_valid());
    g.dimensions = 4;
    assert!(!g.is_valid());
    assert!(!Snake::new(1, (0, 0, 0), 1, 1, Move::Up, Move::Up).head.get_next().unwrap().has_next());
    let mut lone = Snake::new(1, (0, 0, 0), 1, 1, Move::Up, Move::Up);
    lone.back_tail();
    assert!(!lone.is_valid());
}

#[test]
fn draws_are_checked_against_the_grid() {
    assert!(rolls(0).is_fit(64));
    assert!(rolls(1).is_fit(44));
    assert!(!rolls(1).is_fit(43));
    assert!(!rolls(2).is_fit(64));
    assert!(!rolls(0).is_fit(1));
    let mut r = rolls(0);
    r.spawn_kind = 3;
    assert!(!r.is_fit(64));
    r.spawn_kind = 0;
    assert!(!r.is_fit(64));
    r.spawn_kind = 1;
    r.relocate_x = 1;
    assert!(!r.is_fit(64));
    for _ in 0..20 {
        assert!(Rolls::draw(5).is_fit(5));
    }
}
