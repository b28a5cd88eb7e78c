use snake::game::Food;
use snake::game::FoodType;
use snake::game::Snake;
use snake::geometry::Move;
use snake::protocol::food_to_bytes;
use snake::protocol::snake_to_bytes;
use snake::protocol::vec_as_n_bytes;

#[test]
fn test_vec_as_n_bytes() {
    let data = 2;
    let v = vec_as_n_bytes(data, 2);
    assert_eq!(v, [2, 0]);

    let data = 9832;
    let v = vec_as_n_bytes(data, 1);
    assert_eq!(v, [0x68]);

    let data = 9832;
    let v = vec_as_n_bytes(data, 2);
    assert_eq!(v, [0x68, 0x26]);

    let data: i16 = -1;
    let v = vec_as_n_bytes(data, 2);
    assert_eq!(v, [0xff, 0xff]);
}

#[test]
fn test_snake_to_bytes() {
    let sn = &Snake::new(1, (2, 3, 4), 10, 20, Move::Right, Move::Right);
    let snake_lst = vec![sn];
    assert_eq!(snake_to_bytes(&snake_lst), [1, 1, 0, 10, 2, 10, 0, 20, 0, 10, 0, 20, 0]);
}

#[test]
fn test_snake_to_bytes2() {
    let sn = &Snake::new(1, (2, 3, 4), 10, 20, Move::Right, Move::Right);
    let sn2 = &Snake::new(2, (2, 3, 4), 30, 40, Move::Right, Move::Right);
    let snake_lst = vec![sn, sn2];
    assert_eq!(
        snake_to_bytes(&snake_lst),
        [2, 1, 0, 10, 2, 10, 0, 20, 0, 10, 0, 20, 0, 2, 0, 10, 2, 30, 0, 40, 0, 30, 0, 40, 0]
    );
}

#[test]
fn test_food_to_bytes() {
    let food_lst = vec![Food::new(10, 20, FoodType::Apple), Food::new(30, 40, FoodType::Apple)];
    assert_eq!(food_to_bytes(&food_lst), [2, 1, 10, 0, 20, 0, 1, 30, 0, 40, 0]);
}

#[test]
fn snake_without_growth_credits_has_a_zero_stomach_byte() {
    let mut sn = Snake::new(1, (2, 3, 4), 10, 20, Move::Right, Move::Right);
    sn.stomach = 0;
    let snake_lst = vec![&sn];
    assert_eq!(snake_to_bytes(&snake_lst), [1, 1, 0, 0, 2, 10, 0, 20, 0, 10, 0, 20, 0]);
    sn.has_lost = true;
    let snake_lst = vec![&sn];
    assert_eq!(snake_to_bytes(&snake_lst), [1, 1, 1, 0, 2, 10, 0, 20, 0, 10, 0, 20, 0]);
    assert_eq!(snake_to_bytes(&vec![]), [0]);
    assert_eq!(food_to_bytes(&vec![]), [0]);
    assert_eq!(food_to_bytes(&vec![Food::new(-1, 256, FoodType::Mango)]), [1, 2, 255, 255, 0, 1]);
}
