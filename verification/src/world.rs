//! The shared world: food, snakes, the tile classifier and the tick rules.

use vstd::prelude::*;

use crate::census::lemma_alive_census;
use crate::chance::sample_uniform;
use crate::game::food_id_to_type;
use crate::game::food_kind;
use crate::game::Food;
use crate::game::FoodType;
use crate::game::Snake;
use crate::game::FOOD_BY_APPLE;
use crate::game::MAX_FOOD;
use crate::game::N_FOOD_TYPES;
use crate::geometry::covers;
use crate::geometry::ticked;
use crate::geometry::Move;
use crate::geometry::Point;

verus! {

/// What a tile holds.
#[derive(Clone, Copy, Debug, PartialEq, Eq, Structural)]
pub enum TileType {
    /// Food of the given kind.
    FoodTile(FoodType),
    /// The body of the snake with the given identifier.
    SnakeTile(u8),
    /// The outer ring of the grid.
    Wall,
    /// Nothing.
    Nothing,
}

/// A snake as the classifier sees it: its identifier and its body.
pub type Body = (u8, Seq<Point>);

/// The index of the first snake, from index `from` on, whose body passes
/// through `p` as seen by the snake `id`; the number of snakes if there is
/// none. A snake does not count its own first segment.
pub open spec fn first_snake_at(bodies: Seq<Body>, p: Point, id: u8, from: int) -> int
    decreases bodies.len() - from,
{
    if from < 0 || from >= bodies.len() {
        bodies.len() as int
    } else if covers(bodies[from].1, p, if id == bodies[from].0 { 1int } else { 0int }) {
        from
    } else {
        first_snake_at(bodies, p, id, from + 1)
    }
}

/// The index of the first food, from index `from` on, that lies on `p`; the
/// number of food items if there is none.
pub open spec fn first_food_at(food: Seq<Food>, p: Point, from: int) -> int
    decreases food.len() - from,
{
    if from < 0 || from >= food.len() {
        food.len() as int
    } else if food[from].at(p) {
        from
    } else {
        first_food_at(food, p, from + 1)
    }
}

/// Whether `p` lies on the outer ring of a grid of side `dimensions`, or
/// outside the grid.
pub open spec fn is_wall(dimensions: u16, p: Point) -> bool {
    p.0 < 1 || p.1 < 1 || p.0 >= dimensions - 1 || p.1 >= dimensions - 1
}

/// What the tile `p` holds for the snake `id`: a snake's body before food,
/// food before the wall.
pub open spec fn tile_at(bodies: Seq<Body>, food: Seq<Food>, dimensions: u16, p: Point, id: u8)
    -> TileType {
    let s = first_snake_at(bodies, p, id, 0);
    let f = first_food_at(food, p, 0);
    if s < bodies.len() {
        TileType::SnakeTile(bodies[s].0)
    } else if f < food.len() {
        TileType::FoodTile(food[f].food_type)
    } else if is_wall(dimensions, p) {
        TileType::Wall
    } else {
        TileType::Nothing
    }
}

/// Whether running into the tile kills.
pub open spec fn is_fatal(tile: TileType) -> bool {
    match tile {
        TileType::SnakeTile(_) => true,
        TileType::Wall => true,
        _ => false,
    }
}

/// The index of the first snake with identifier `id`; the number of snakes if
/// there is none.
pub open spec fn index_of_id(players: Seq<Snake>, id: u8, from: int) -> int
    decreases players.len() - from,
{
    if from < 0 || from >= players.len() {
        players.len() as int
    } else if players[from].id == id {
        from
    } else {
        index_of_id(players, id, from + 1)
    }
}

/// The number of snakes that have not lost.
pub open spec fn alive_count(players: Seq<Snake>) -> nat
    decreases players.len(),
{
    if players.len() == 0 {
        0
    } else {
        alive_count(players.drop_last()) + if players.last().has_lost { 0nat } else { 1nat }
    }
}

/// The direction a snake starts in: away from the nearest corner, along the
/// border, clockwise seen with `y` growing downward from the top-left corner.
pub open spec fn initial_direction(x0: u16, y0: u16, dimensions: u16) -> Move {
    if x0 > dimensions / 2 {
        if y0 > dimensions / 2 {
            Move::Up
        } else {
            Move::Left
        }
    } else {
        if y0 > dimensions / 2 {
            Move::Right
        } else {
            Move::Down
        }
    }
}

/// The food with the first item that lies on `p` moved to `(x, y)`.
pub open spec fn relocated(food: Seq<Food>, p: Point, x: i16, y: i16) -> Seq<Food> {
    let i = first_food_at(food, p, 0);
    if i < food.len() {
        food.update(i, Food { x, y, food_type: food[i].food_type })
    } else {
        food
    }
}

/// The food without the items that lie on `p`.
pub open spec fn without(food: Seq<Food>, p: Point) -> Seq<Food> {
    food.filter(|f: Food| !f.at(p))
}

/// The random draws that one tick may use.
#[derive(Clone, Copy, Debug, PartialEq, Eq, Structural)]
pub struct Rolls {
    /// Where an eaten apple turns up again.
    pub relocate_x: u16,
    pub relocate_y: u16,
    /// A coin: on 1, new food appears after a meal.
    pub coin: u16,
    /// Where the new food appears.
    pub spawn_x: u16,
    pub spawn_y: u16,
    /// The number of the kind of the new food.
    pub spawn_kind: u64,
}

impl Rolls {
    /// Positions at least two tiles from every border of a grid of side
    /// `dimensions`, a coin of 0 or 1, and a kind that exists.
    pub open spec fn fits(&self, dimensions: u16) -> bool {
        &&& 2 <= self.relocate_x < dimensions - 2
        &&& 2 <= self.relocate_y < dimensions - 2
        &&& self.coin <= 1
        &&& 2 <= self.spawn_x < dimensions - 2
        &&& 2 <= self.spawn_y < dimensions - 2
        &&& 1 <= self.spawn_kind <= N_FOOD_TYPES
    }

    /// Whether the draws fit a grid of side `dimensions`.
    pub fn is_fit(&self, dimensions: u16) -> (r: bool)
        ensures
            r == self.fits(dimensions),
    {
        if dimensions < 2 {
            return false;
        }
        let top: u16 = dimensions - 2;
        2 <= self.relocate_x && self.relocate_x < top && 2 <= self.relocate_y && self.relocate_y
            < top && self.coin <= 1 && 2 <= self.spawn_x && self.spawn_x < top && 2
            <= self.spawn_y && self.spawn_y < top && 1 <= self.spawn_kind && self.spawn_kind
            <= N_FOOD_TYPES
    }

    /// Draws what one tick may use, for a grid of side `dimensions`.
    pub fn draw(dimensions: u16) -> (rolls: Self)
        requires
            4 < dimensions,
        ensures
            rolls.fits(dimensions),
    {
        let relocate_x: u16 = sample_uniform(2, dimensions - 2);
        let relocate_y: u16 = sample_uniform(2, dimensions - 2);
        let coin: u16 = sample_uniform(0, 2);
        let spawn_x: u16 = sample_uniform(2, dimensions - 2);
        let spawn_y: u16 = sample_uniform(2, dimensions - 2);
        let kinds: u16 = N_FOOD_TYPES as u16;
        let kind: u16 = sample_uniform(1, kinds + 1);
        Rolls { relocate_x, relocate_y, coin, spawn_x, spawn_y, spawn_kind: kind as u64 }
    }
}

/// The food after a meal: with room left and the coin on 1, one more item.
pub open spec fn spawned(food: Seq<Food>, rolls: &Rolls) -> Seq<Food> {
    if food.len() < MAX_FOOD && rolls.coin == 1 {
        food.push(
            Food {
                x: rolls.spawn_x as i16,
                y: rolls.spawn_y as i16,
                food_type: food_kind(rolls.spawn_kind as int),
            },
        )
    } else {
        food
    }
}

/// The food after a snake's head came to `p` and found `tile` there.
pub open spec fn food_after(food: Seq<Food>, tile: TileType, p: Point, rolls: &Rolls) -> Seq<Food> {
    match tile {
        TileType::FoodTile(FoodType::Apple) => spawned(
            relocated(food, p, rolls.relocate_x as i16, rolls.relocate_y as i16),
            rolls,
        ),
        TileType::FoodTile(FoodType::Mango) => spawned(without(food, p), rolls),
        _ => food,
    }
}

/// Every food item lies on the grid of side `dimensions`.
pub open spec fn food_on_grid(food: Seq<Food>, dimensions: u16) -> bool {
    forall|i: int|
        0 <= i < food.len() ==> 0 <= (#[trigger] food[i]).x < dimensions && 0 <= food[i].y
            < dimensions
}

/// The first food found on `p` is a food item, and lies on `p`.
pub proof fn lemma_first_food(food: Seq<Food>, p: Point, from: int)
    requires
        0 <= from,
    ensures
        from <= first_food_at(food, p, from) || first_food_at(food, p, from) == food.len(),
        first_food_at(food, p, from) <= food.len(),
        first_food_at(food, p, from) < food.len() ==> food[first_food_at(food, p, from)].at(p),
    decreases food.len() - from,
{
    if from < food.len() && !food[from].at(p) {
        lemma_first_food(food, p, from + 1);
    }
}

/// Food on the grid stays on the grid through a tick whose draws fit the
/// grid.
pub proof fn lemma_food_stays_on_grid(
    food: Seq<Food>,
    tile: TileType,
    p: Point,
    rolls: &Rolls,
    dimensions: u16,
)
    requires
        food_on_grid(food, dimensions),
        rolls.fits(dimensions),
        4 < dimensions <= i16::MAX,
    ensures
        food_on_grid(food_after(food, tile, p, rolls), dimensions),
{
    let after = food_after(food, tile, p, rolls);
    match tile {
        TileType::FoodTile(FoodType::Apple) => {
            lemma_first_food(food, p, 0);
            let moved = relocated(food, p, rolls.relocate_x as i16, rolls.relocate_y as i16);
            assert(food_on_grid(moved, dimensions));
        },
        TileType::FoodTile(FoodType::Mango) => {
            let kept = without(food, p);
            assert forall|i: int| 0 <= i < kept.len() implies 0 <= (#[trigger] kept[i]).x
                < dimensions && 0 <= kept[i].y < dimensions by {
                assert(kept.contains(kept[i]));
                food.lemma_filter_contains_rev(|f: Food| !f.at(p), kept[i]);
                let j = choose|j: int| 0 <= j < food.len() && food[j] == kept[i];
                assert(0 <= food[j].x < dimensions);
            }
        },
        _ => {},
    }
}

/// The body of a snake after its own update: unchanged once it has lost.
pub open spec fn body_after_update(s: Snake) -> Seq<Point> {
    if s.has_lost {
        s.head@
    } else {
        ticked(s.head@, s.direction, s.moving, s.stomach > 0)
    }
}

/// The growth credits of a snake after its own update.
pub open spec fn stomach_after_update(s: Snake) -> int {
    if s.has_lost || s.stomach == 0 {
        s.stomach as int
    } else {
        s.stomach - 1
    }
}

/// The world of one game.
pub struct Game {
    /// Side of the square grid, in tiles.
    pub dimensions: u16,
    /// Side of a tile, in pixels; used by a client only.
    pub block_size: u16,
    /// Colour of the border, as red, green, blue; used by a client only.
    pub border_color: (u8, u8, u8),
    /// The food on the grid.
    pub food: Vec<Food>,
    pub waiting: bool,
    /// Number of players announced; used by a client only.
    pub n_players: u8,
    pub can_send_move: bool,
    /// Moves per time unit; the period between two moves is its inverse.
    pub frequency: u8,
    /// When set, nothing kills.
    pub no_death: bool,
    /// The snakes, in the order they joined.
    pub players: Vec<Snake>,
}

impl Game {
    /// The snakes as the classifier sees them.
    pub open spec fn bodies(&self) -> Seq<Body> {
        Seq::new(self.players@.len(), |i: int| (self.players@[i].id, self.players@[i].head@))
    }

    /// No two snakes share an identifier.
    pub open spec fn ids_distinct(&self) -> bool {
        forall|i: int, j: int|
            0 <= i < j < self.players@.len() ==> self.players@[i].id != self.players@[j].id
    }

    /// The identifiers are 1, 2, ... up to the number of snakes, each present.
    pub open spec fn ids_dense(&self) -> bool {
        &&& self.players@.len() < 255
        &&& forall|id: u8|
            1 <= id <= self.players@.len() ==> index_of_id(self.players@, id, 0)
                < self.players@.len()
    }

    /// The grid fits the coordinate range and leaves room for food, the food
    /// is within its cap, every snake has a valid body, and no two snakes
    /// share an identifier.
    pub open spec fn wf(&self) -> bool {
        &&& 4 < self.dimensions <= i16::MAX
        &&& self.food@.len() <= MAX_FOOD
        &&& forall|i: int| 0 <= i < self.players@.len() ==> (#[trigger] self.players@[i]).wf()
        &&& self.ids_distinct()
    }

    /// Everything but the food and the snakes is as in `prev`.
    pub open spec fn same_settings(&self, prev: &Game) -> bool {
        &&& self.dimensions == prev.dimensions
        &&& self.block_size == prev.block_size
        &&& self.border_color == prev.border_color
        &&& self.waiting == prev.waiting
        &&& self.n_players == prev.n_players
        &&& self.can_send_move == prev.can_send_move
        &&& self.frequency == prev.frequency
        &&& self.no_death == prev.no_death
    }

    /// Every snake but the one at `index` is as in `prev`.
    pub open spec fn same_others(&self, prev: &Game, index: int) -> bool {
        &&& self.players@.len() == prev.players@.len()
        &&& forall|j: int|
            0 <= j < self.players@.len() && j != index ==> self.players@[j] == prev.players@[j]
    }

    /// What the snake at `index` finds under its head once it has made its
    /// own update.
    pub open spec fn tile_after_move(&self, index: int) -> TileType {
        let s = self.players@[index];
        let body = body_after_update(s);
        tile_at(self.bodies().update(index, (s.id, body)), self.food@, self.dimensions, body[0], s.id)
    }

    /// Whether `self` is what one tick of the snake at `index` makes of
    /// `prev`, given the draws `rolls`, with `boosted` telling whether the
    /// snake ate a mango.
    pub open spec fn follows_tick(&self, prev: &Game, index: int, rolls: &Rolls, boosted: bool)
        -> bool {
        let before = prev.players@[index];
        let after = self.players@[index];
        let body = body_after_update(before);
        let tile = prev.tile_after_move(index);
        &&& self.same_settings(prev)
        &&& self.same_others(prev, index)
        &&& after.id == before.id
        &&& after.color == before.color
        &&& after.moving == before.moving
        &&& after.direction == if before.has_lost { before.direction } else { before.moving }
        &&& after.head@ == body
        &&& after.stomach == stomach_after_update(before) + if tile == TileType::FoodTile(
            FoodType::Apple,
        ) { FOOD_BY_APPLE as int } else { 0 }
        &&& after.has_lost == (before.has_lost || (!prev.no_death && is_fatal(tile)))
        &&& after.boost == (before.boost || tile == TileType::FoodTile(FoodType::Mango))
        &&& boosted == (tile == TileType::FoodTile(FoodType::Mango))
        &&& self.food@ == food_after(prev.food@, tile, body[0], rolls)
    }

    /// A world with the given grid, speed and food, and no snakes.
    pub fn with_food(dimensions: u16, frequency: u8, food: Vec<Food>) -> (game: Self)
        ensures
            game.dimensions == dimensions,
            game.frequency == frequency,
            game.food == food,
            game.players@.len() == 0,
            game.block_size == 0,
            game.n_players == 0,
            game.border_color == (255u8, 255u8, 255u8),
            !game.waiting,
            game.can_send_move,
            !game.no_death,
            4 < dimensions <= i16::MAX && food@.len() <= MAX_FOOD ==> game.wf(),
    {
        Game {
            dimensions,
            block_size: 0,
            border_color: (255, 255, 255),
            food,
            waiting: false,
            n_players: 0,
            can_send_move: true,
            frequency,
            no_death: false,
            players: Vec::new(),
        }
    }

    /// A world with the given grid and speed, no snakes, and one apple on a
    /// random tile at least two tiles from every border.
    pub fn new(dimensions: u16, frequency: u8) -> (game: Self)
        requires
            4 < dimensions <= i16::MAX,
        ensures
            game.wf(),
            game.dimensions == dimensions,
            game.frequency == frequency,
            game.players@.len() == 0,
            game.food@.len() == 1,
            game.food@[0].food_type == FoodType::Apple,
            2 <= game.food@[0].x < dimensions - 2,
            2 <= game.food@[0].y < dimensions - 2,
            food_on_grid(game.food@, dimensions),
            game.block_size == 0,
            game.n_players == 0,
            !game.waiting,
            game.can_send_move,
            !game.no_death,
    {
        let food_x0: u16 = sample_uniform(2, dimensions - 2);
        let food_y0: u16 = sample_uniform(2, dimensions - 2);
        let mut food: Vec<Food> = Vec::new();
        food.push(Food::new(food_x0 as i16, food_y0 as i16, FoodType::Apple));
        Game::with_food(dimensions, frequency, food)
    }

    /// The index of the first snake with identifier `player_id`, if there is
    /// one. An index is not an identifier.
    pub fn get_player(&self, player_id: u8) -> (r: Option<usize>)
        ensures
            r.is_some() == (index_of_id(self.players@, player_id, 0) < self.players@.len()),
            r.is_some() ==> r.unwrap() == index_of_id(self.players@, player_id, 0),
            r.is_some() ==> self.players@[r.unwrap() as int].id == player_id,
            r.is_none() ==> forall|j: int|
                0 <= j < self.players@.len() ==> self.players@[j].id != player_id,
            r.is_none() ==> index_of_id(self.players@, player_id, 0) == self.players@.len(),
    {
        let mut i: usize = 0;
        while i < self.players.len()
            invariant
                0 <= i <= self.players@.len(),
                index_of_id(self.players@, player_id, 0) == index_of_id(
                    self.players@,
                    player_id,
                    i as int,
                ),
                forall|j: int| 0 <= j < i ==> self.players@[j].id != player_id,
            decreases self.players@.len() - i,
        {
            if self.players[i].id == player_id {
                return Some(i);
            }
            i += 1;
        }
        None
    }

    /// Same as [`Game::get_player`].
    pub fn get_player_index(&self, player_id: u8) -> (r: Option<usize>)
        ensures
            r.is_some() == (index_of_id(self.players@, player_id, 0) < self.players@.len()),
            r.is_some() ==> r.unwrap() == index_of_id(self.players@, player_id, 0),
            r.is_some() ==> self.players@[r.unwrap() as int].id == player_id,
            r.is_none() ==> forall|j: int|
                0 <= j < self.players@.len() ==> self.players@[j].id != player_id,
            r.is_none() ==> index_of_id(self.players@, player_id, 0) == self.players@.len(),
    {
        self.get_player(player_id)
    }
}

impl Game {
    /// What the tile `(x, y)` holds for the snake `id`.
    pub fn check_tile(&self, x: i16, y: i16, id: u8) -> (tile: TileType)
        requires
            self.wf(),
        ensures
            tile == tile_at(self.bodies(), self.food@, self.dimensions, (x, y), id),
    {
        let ghost bodies = self.bodies();
        let ghost p = (x, y);
        let mut i: usize = 0;
        while i < self.players.len()
            invariant
                0 <= i <= self.players@.len(),
                self.wf(),
                bodies == self.bodies(),
                p == (x, y),
                first_snake_at(bodies, p, id, 0) == first_snake_at(bodies, p, id, i as int),
            decreases self.players@.len() - i,
        {
            assert(self.players@[i as int].wf());
            assert(bodies[i as int] == (self.players@[i as int].id, self.players@[i as int].head@));
            if self.players[i].contains(x, y, id) {
                return TileType::SnakeTile(self.players[i].id);
            }
            i += 1;
        }
        let mut k: usize = 0;
        while k < self.food.len()
            invariant
                0 <= k <= self.food@.len(),
                p == (x, y),
                bodies == self.bodies(),
                first_snake_at(bodies, p, id, 0) == bodies.len(),
                first_food_at(self.food@, p, 0) == first_food_at(self.food@, p, k as int),
            decreases self.food@.len() - k,
        {
            if self.food[k].x == x && self.food[k].y == y {
                return TileType::FoodTile(self.food[k].food_type);
            }
            k += 1;
        }
        let side: i16 = self.dimensions as i16;
        if x < 1 || y < 1 || x >= side - 1 || y >= side - 1 {
            return TileType::Wall;
        }
        TileType::Nothing
    }

    /// Marks the first snake with identifier `player_id` as having lost.
    pub fn set_lost(&mut self, player_id: u8)
        requires
            index_of_id(old(self).players@, player_id, 0) < old(self).players@.len(),
        ensures
            final(self).same_settings(old(self)),
            final(self).food == old(self).food,
            final(self).players@ == old(self).players@.update(
                index_of_id(old(self).players@, player_id, 0),
                (Snake {
                    has_lost: true,
                    ..old(self).players@[index_of_id(old(self).players@, player_id, 0)]
                }),
            ),
    {
        let found = self.get_player(player_id);
        match found {
            Some(index) => {
                self.players[index].has_lost = true;
                proof {
                    assert(final(self).players@ =~= old(self).players@.update(
                        index as int,
                        (Snake { has_lost: true, ..old(self).players@[index as int] }),
                    ));
                }
            },
            None => {},
        }
    }

    /// The snake `murdered` ran into the snake `murderer`, or into a wall when
    /// both are the same: it has lost, unless nothing kills in this world.
    pub fn killed(&mut self, murdered: u8, murderer: u8)
        requires
            index_of_id(old(self).players@, murdered, 0) < old(self).players@.len(),
        ensures
            final(self).same_settings(old(self)),
            final(self).food == old(self).food,
            old(self).no_death ==> final(self).players == old(self).players,
            !old(self).no_death ==> final(self).players@ == old(self).players@.update(
                index_of_id(old(self).players@, murdered, 0),
                (Snake {
                    has_lost: true,
                    ..old(self).players@[index_of_id(old(self).players@, murdered, 0)]
                }),
            ),
    {
        if self.no_death {
        } else {
            self.set_lost(murdered);
        }
    }

    /// Adds `food` growth credits to the first snake with identifier
    /// `player_id`.
    pub fn feed(&mut self, player_id: u8, food: u8)
        requires
            index_of_id(old(self).players@, player_id, 0) < old(self).players@.len(),
            old(self).players@[index_of_id(old(self).players@, player_id, 0)].stomach + food
                <= u8::MAX,
        ensures
            final(self).same_settings(old(self)),
            final(self).food == old(self).food,
            final(self).players@ == old(self).players@.update(
                index_of_id(old(self).players@, player_id, 0),
                (Snake {
                    stomach: (old(self).players@[index_of_id(
                        old(self).players@,
                        player_id,
                        0,
                    )].stomach + food) as u8,
                    ..old(self).players@[index_of_id(old(self).players@, player_id, 0)]
                }),
            ),
    {
        let found = self.get_player(player_id);
        match found {
            Some(index) => {
                let stomach: u8 = self.players[index].stomach;
                self.players[index].stomach = stomach + food;
                proof {
                    assert(final(self).players@ =~= old(self).players@.update(
                        index as int,
                        (Snake {
                            stomach: (stomach + food) as u8,
                            ..old(self).players@[index as int]
                        }),
                    ));
                }
            },
            None => {},
        }
    }

    /// Adds a snake for a new player at `(x0, y0)`, heading along the border
    /// away from the nearest corner.
    pub fn add_player(&mut self, player_id: u8, color: (u8, u8, u8), x0: u16, y0: u16)
        requires
            old(self).wf(),
            index_of_id(old(self).players@, player_id, 0) == old(self).players@.len(),
        ensures
            final(self).wf(),
            final(self).same_settings(old(self)),
            final(self).food == old(self).food,
            final(self).players@.len() == old(self).players@.len() + 1,
            final(self).players@.drop_last() == old(self).players@,
            final(self).players@.last().id == player_id,
            final(self).players@.last().color == color,
            final(self).players@.last().head@ == seq![(x0 as i16, y0 as i16), (x0 as i16, y0 as i16)],
            final(self).players@.last().direction == initial_direction(x0, y0, old(self).dimensions),
            final(self).players@.last().moving == initial_direction(x0, y0, old(self).dimensions),
            !final(self).players@.last().has_lost,
            !final(self).players@.last().boost,
            final(self).players@.last().stomach == crate::game::INITIAL_STOMACH,
    {
        let half: u16 = self.dimensions / 2;
        let heading: Move = if x0 > half {
            if y0 > half {
                Move::Up
            } else {
                Move::Left
            }
        } else {
            if y0 > half {
                Move::Right
            } else {
                Move::Down
            }
        };
        proof {
            lemma_index_found(self.players@, player_id, 0);
        }
        self.players.push(Snake::new(player_id, color, x0 as i16, y0 as i16, heading, heading));
        proof {
            assert(final(self).players@.drop_last() =~= old(self).players@);
        }
    }

    /// Removes every food item that lies on `(x, y)`.
    pub fn delete_food(&mut self, x: i16, y: i16)
        ensures
            final(self).same_settings(old(self)),
            final(self).players == old(self).players,
            final(self).food@ == without(old(self).food@, (x, y)),
            final(self).food@.len() <= old(self).food@.len(),
    {
        let ghost p = (x, y);
        let ghost keep = |f: Food| !f.at(p);
        let mut kept: Vec<Food> = Vec::new();
        let mut i: usize = 0;
        proof {
            reveal(Seq::filter);
            assert(self.food@.take(0) =~= Seq::<Food>::empty());
        }
        while i < self.food.len()
            invariant
                0 <= i <= self.food@.len(),
                p == (x, y),
                keep == (|f: Food| !f.at(p)),
                kept@ == self.food@.take(i as int).filter(keep),
                kept@.len() <= i,
            decreases self.food@.len() - i,
        {
            let item: Food = self.food[i];
            proof {
                reveal(Seq::filter);
                assert(self.food@.take(i + 1).drop_last() =~= self.food@.take(i as int));
                assert(self.food@.take(i + 1).last() == item);
            }
            if !(item.x == x && item.y == y) {
                kept.push(item);
            }
            i += 1;
        }
        proof {
            assert(self.food@.take(i as int) =~= self.food@);
        }
        self.food = kept;
    }

    /// Moves the first food item that lies on `(x, y)` to `(to_x, to_y)`.
    pub fn relocate_food(&mut self, x: i16, y: i16, to_x: i16, to_y: i16)
        ensures
            final(self).same_settings(old(self)),
            final(self).players == old(self).players,
            final(self).food@ == relocated(old(self).food@, (x, y), to_x, to_y),
            final(self).food@.len() == old(self).food@.len(),
    {
        let ghost p = (x, y);
        let mut i: usize = 0;
        while i < self.food.len()
            invariant
                0 <= i <= self.food@.len(),
                p == (x, y),
                *self == *old(self),
                first_food_at(self.food@, p, 0) == first_food_at(self.food@, p, i as int),
            decreases self.food@.len() - i,
        {
            if self.food[i].x == x && self.food[i].y == y {
                let kind: FoodType = self.food[i].food_type;
                self.food[i] = Food::new(to_x, to_y, kind);
                proof {
                    assert(final(self).food@ =~= relocated(old(self).food@, p, to_x, to_y));
                }
                return ;
            }
            i += 1;
        }
    }

    /// Moves the first food item that lies on `(x, y)` to a random tile at
    /// least two tiles from every border.
    pub fn reset_food(&mut self, x: i16, y: i16)
        requires
            4 < old(self).dimensions <= i16::MAX,
        ensures
            final(self).same_settings(old(self)),
            final(self).players == old(self).players,
            exists|to_x: i16, to_y: i16|
                2 <= to_x < old(self).dimensions - 2 && 2 <= to_y < old(self).dimensions - 2
                    && final(self).food@ == #[trigger] relocated(
                    old(self).food@,
                    (x, y),
                    to_x,
                    to_y,
                ),
    {
        let to_x: u16 = sample_uniform(2, self.dimensions - 2);
        let to_y: u16 = sample_uniform(2, self.dimensions - 2);
        self.relocate_food(x, y, to_x as i16, to_y as i16);
    }
}

/// The first snake found with an identifier has that identifier, and stands
/// at or behind the place the search began.
pub proof fn lemma_index_found(players: Seq<Snake>, id: u8, from: int)
    requires
        0 <= from,
    ensures
        index_of_id(players, id, from) <= players.len(),
        index_of_id(players, id, from) < players.len() ==> from <= index_of_id(players, id, from)
            && players[index_of_id(players, id, from)].id == id,
        forall|j: int| from <= j < index_of_id(players, id, from) ==> players[j].id != id,
    decreases players.len() - from,
{
    if from < players.len() && players[from].id != id {
        lemma_index_found(players, id, from + 1);
    }
}

/// With distinct identifiers, a snake is the first with its identifier.
pub proof fn lemma_own_index(players: Seq<Snake>, index: int, from: int)
    requires
        forall|i: int, j: int| 0 <= i < j < players.len() ==> players[i].id != players[j].id,
        0 <= from <= index < players.len(),
    ensures
        index_of_id(players, players[index].id, from) == index,
    decreases index - from,
{
    if from < index {
        lemma_own_index(players, index, from + 1);
    }
}

impl Game {
    /// Whether the snake at `index` can make its next tick: its head stays on
    /// the coordinate range and its growth credits have room for an apple.
    pub open spec fn can_tick(&self, index: int) -> bool {
        &&& 0 <= index < self.players@.len()
        &&& self.players@[index].can_advance()
        &&& self.players@[index].stomach <= u8::MAX - FOOD_BY_APPLE
    }

    /// Whether the snake at `index` can make its next tick.
    pub fn is_able_to_tick(&self, index: usize) -> (r: bool)
        ensures
            r == self.can_tick(index as int),
    {
        if index >= self.players.len() {
            return false;
        }
        self.players[index].is_able_to_advance() && self.players[index].stomach <= u8::MAX
            - FOOD_BY_APPLE
    }

    /// One tick of the snake at `index`, with the draws `rolls` standing for
    /// chance. The snake makes its own update; then what lies under its head
    /// decides. Another body, or its own beyond the first segment, or a wall
    /// kills it unless nothing kills in this world. An apple gives it growth
    /// credits and turns up again at the drawn place. A mango gives it a boost
    /// and is gone. After either meal, with room left and the coin on 1, new
    /// food of the drawn kind appears at the drawn place. Returns whether a
    /// mango was eaten.
    pub fn update_snake_with(&mut self, index: usize, rolls: &Rolls) -> (boosted: bool)
        requires
            old(self).wf(),
            old(self).can_tick(index as int),
            rolls.fits(old(self).dimensions),
        ensures
            final(self).wf(),
            final(self).follows_tick(old(self), index as int, rolls, boosted),
            food_on_grid(old(self).food@, old(self).dimensions) ==> food_on_grid(
                final(self).food@,
                final(self).dimensions,
            ),
            food_on_grid(old(self).food@, old(self).dimensions) && !old(self).no_death
                ==> final(self).players@[index as int].can_advance(),
    {
        let ghost before = self.players@[index as int];
        let ghost body = body_after_update(before);
        assert(before.wf());
        self.players[index].update();
        let ghost mid = self.players@;
        let id: u8 = self.players[index].id;
        let x: i16 = self.players[index].head.x;
        let y: i16 = self.players[index].head.y;
        proof {
            self.players@[index as int].head.lemma_path();
            assert(mid[index as int].head@ == body);
            assert(mid[index as int].wf());
            assert(forall|j: int| 0 <= j < mid.len() && j != index ==> mid[j] == old(self).players@[j]);
            assert(forall|j: int| 0 <= j < mid.len() ==> mid[j].id == old(self).players@[j].id);
            assert(self.bodies() =~= old(self).bodies().update(index as int, (before.id, body)));
            assert(self.ids_distinct());
            lemma_own_index(self.players@, index as int, 0);
        }
        let tile = self.check_tile(x, y, id);
        assert(tile == old(self).tile_after_move(index as int));
        proof {
            lemma_first_food(old(self).food@, (x, y), 0);
            if food_on_grid(old(self).food@, old(self).dimensions) {
                lemma_food_stays_on_grid(old(self).food@, tile, (x, y), rolls, old(self).dimensions);
            }
        }
        match tile {
            TileType::Nothing => {},
            TileType::SnakeTile(snake_id) => {
                self.killed(id, snake_id);
            },
            TileType::Wall => {
                self.killed(id, id);
            },
            TileType::FoodTile(food_type) => {
                match food_type {
                    FoodType::Apple => {
                        self.feed(id, FOOD_BY_APPLE);
                        self.relocate_food(x, y, rolls.relocate_x as i16, rolls.relocate_y as i16);
                    },
                    FoodType::Mango => {
                        self.players[index].boost = true;
                        self.delete_food(x, y);
                    },
                }
                if self.food.len() < MAX_FOOD {
                    if rolls.coin == 1 {
                        let kind = food_id_to_type(rolls.spawn_kind);
                        self.food.push(Food::new(rolls.spawn_x as i16, rolls.spawn_y as i16, kind));
                    }
                }
                if food_type == FoodType::Mango {
                    return true;
                }
            },
        }
        false
    }

    /// One tick of the snake at `index`, with chance drawn afresh: what
    /// [`Game::update_snake_with`] does for some draws that fit the grid.
    /// Returns whether a mango was eaten.
    pub fn update_snake(&mut self, index: usize) -> (boosted: bool)
        requires
            old(self).wf(),
            old(self).can_tick(index as int),
        ensures
            final(self).wf(),
            exists|rolls: Rolls|
                rolls.fits(old(self).dimensions) && #[trigger] final(self).follows_tick(
                    old(self),
                    index as int,
                    &rolls,
                    boosted,
                ),
            food_on_grid(old(self).food@, old(self).dimensions) ==> food_on_grid(
                final(self).food@,
                final(self).dimensions,
            ),
            food_on_grid(old(self).food@, old(self).dimensions) && !old(self).no_death
                ==> final(self).players@[index as int].can_advance(),
    {
        let rolls = Rolls::draw(self.dimensions);
        self.update_snake_with(index, &rolls)
    }
}

/// The identifiers from 1 to `upto`, in ascending order, of the snakes that
/// have not lost; an identifier counts by the first snake that has it.
pub open spec fn alive_ids(players: Seq<Snake>, upto: int) -> Seq<u8>
    decreases upto,
{
    if upto <= 0 {
        Seq::<u8>::empty()
    } else {
        let rest = alive_ids(players, upto - 1);
        let i = index_of_id(players, upto as u8, 0);
        if i < players.len() && !players[i].has_lost {
            rest.push(upto as u8)
        } else {
            rest
        }
    }
}

/// The alive identifiers up to `upto` are strictly ascending, lie between 1
/// and `upto`, and are exactly those whose snake has not lost.
pub proof fn lemma_alive_ids(players: Seq<Snake>, upto: int)
    requires
        0 <= upto <= 255,
    ensures
        forall|i: int, j: int|
            0 <= i < j < alive_ids(players, upto).len() ==> alive_ids(players, upto)[i]
                < alive_ids(players, upto)[j],
        forall|k: int|
            0 <= k < alive_ids(players, upto).len() ==> 1 <= #[trigger] alive_ids(players, upto)[k]
                <= upto,
        forall|id: u8|
            alive_ids(players, upto).contains(id) <==> (1 <= id <= upto && index_of_id(
                players,
                id,
                0,
            ) < players.len() && !players[index_of_id(players, id, 0)].has_lost),
    decreases upto,
{
    if upto > 0 {
        lemma_alive_ids(players, upto - 1);
        let rest = alive_ids(players, upto - 1);
        let all = alive_ids(players, upto);
        let top = upto as u8;
        let i = index_of_id(players, top, 0);
        let taken = i < players.len() && !players[i].has_lost;
        assert forall|id: u8|
            all.contains(id) <==> (1 <= id <= upto && index_of_id(players, id, 0) < players.len()
                && !players[index_of_id(players, id, 0)].has_lost) by {
            if rest.contains(id) {
                let k = choose|k: int| 0 <= k < rest.len() && rest[k] == id;
                assert(all[k] == id);
            }
            if taken && id == top {
                assert(all[all.len() - 1] == id);
            }
            if all.contains(id) {
                let k = choose|k: int| 0 <= k < all.len() && all[k] == id;
                if k < rest.len() {
                    assert(rest[k] == id);
                }
            }
        }
    }
}

/// With three snakes, fewer than two are alive exactly when at least two of
/// them have lost, whichever they are.
pub proof fn lemma_three_player_end(players: Seq<Snake>)
    requires
        players.len() == 3,
    ensures
        (alive_count(players) < 2) <==> ((players[0].has_lost && players[1].has_lost) || (
        players[0].has_lost && players[2].has_lost) || (players[1].has_lost
            && players[2].has_lost)),
{
    let two = players.drop_last();
    let one = two.drop_last();
    let none = one.drop_last();
    assert(none.len() == 0);
    assert(alive_count(none) == 0);
    assert(one.last() == players[0]);
    assert(two.last() == players[1]);
    assert(players.last() == players[2]);
    assert(alive_count(one) == alive_count(none) + if players[0].has_lost { 0nat } else { 1nat });
    assert(alive_count(two) == alive_count(one) + if players[1].has_lost { 0nat } else { 1nat });
}

/// The keys a player's keyboard can report, as far as the game tells them
/// apart.
#[derive(Clone, Copy, Debug, PartialEq, Eq, Structural)]
pub enum Key {
    Up,
    Down,
    Left,
    Right,
    Z,
    S,
    Q,
    D,
    R,
    Escape,
    Other,
}

/// The direction a key asks for, if it asks for one.
pub open spec fn key_direction(key: Key) -> Option<Move> {
    match key {
        Key::Up | Key::Z => Some(Move::Up),
        Key::Down | Key::S => Some(Move::Down),
        Key::Left | Key::Q => Some(Move::Left),
        Key::Right | Key::D => Some(Move::Right),
        _ => None,
    }
}

/// Half the side of the grid as a client computes it: the side is read as a
/// signed 16-bit number, and the half is rounded toward zero.
pub open spec fn half_side(dimensions: u16) -> int {
    let side = if dimensions <= i16::MAX { dimensions as int } else { dimensions - 0x1_0000 };
    if side >= 0 {
        side / 2
    } else {
        -((-side) / 2)
    }
}

/// Half the side of the grid as a client computes it.
pub fn half_side_value(dimensions: u16) -> (half: i16)
    ensures
        half == half_side(dimensions),
{
    if dimensions <= 0x7fff {
        (dimensions / 2) as i16
    } else {
        let below: u16 = 0xffff - dimensions + 1;
        let half: u16 = below / 2;
        assert(half <= 0x4000);
        let wide: i32 = -(half as i32);
        wide as i16
    }
}

/// The direction in which a client draws a snake that starts at `(x, y)`.
pub open spec fn heading_at(x: i16, y: i16, dimensions: u16) -> Move {
    if x > half_side(dimensions) {
        if y > half_side(dimensions) {
            Move::Up
        } else {
            Move::Left
        }
    } else {
        if y > half_side(dimensions) {
            Move::Right
        } else {
            Move::Down
        }
    }
}

/// Whether `s` is the new snake that a client makes of the announced
/// parameters `p`: identifier, red, green, blue, `x`, `y`.
pub open spec fn announced(s: Snake, p: (u8, u8, u8, u8, i16, i16), dimensions: u16) -> bool {
    &&& s.id == p.0
    &&& s.color == (p.1, p.2, p.3)
    &&& s.head@ == seq![(p.4, p.5), (p.4, p.5)]
    &&& s.direction == heading_at(p.4, p.5, dimensions)
    &&& s.moving == heading_at(p.4, p.5, dimensions)
    &&& !s.has_lost
    &&& !s.boost
    &&& s.stomach == crate::game::INITIAL_STOMACH
}

impl Game {
    /// The identifiers of the snakes that have not lost, in ascending order.
    pub fn get_alive(&self) -> (alive: Vec<u8>)
        requires
            self.ids_dense(),
        ensures
            alive@ == alive_ids(self.players@, self.players@.len() as int),
            forall|i: int, j: int| 0 <= i < j < alive@.len() ==> alive@[i] < alive@[j],
            forall|id: u8|
                alive@.contains(id) <==> (1 <= id <= self.players@.len()
                    && !self.players@[index_of_id(self.players@, id, 0)].has_lost),
            self.ids_distinct() ==> alive@.len() == alive_count(self.players@),
    {
        let mut alive: Vec<u8> = Vec::new();
        let n: u8 = self.players.len() as u8;
        let mut player_id: u8 = 1;
        while player_id <= n
            invariant
                1 <= player_id <= n + 1,
                n == self.players@.len(),
                n < 255,
                alive@ == alive_ids(self.players@, player_id - 1),
            decreases n + 1 - player_id,
        {
            match self.get_player(player_id) {
                Some(index) => {
                    if !self.players[index].has_lost {
                        alive.push(player_id);
                    }
                },
                None => {},
            }
            player_id += 1;
        }
        proof {
            lemma_alive_ids(self.players@, n as int);
            if self.ids_distinct() {
                lemma_alive_census(self.players@);
            }
        }
        alive
    }

    /// The snakes that have not lost, in ascending order of identifier.
    pub fn players_alive(&self) -> (snakes: Vec<&Snake>)
        requires
            self.ids_dense(),
        ensures
            snakes@.len() == alive_ids(self.players@, self.players@.len() as int).len(),
            forall|k: int|
                0 <= k < snakes@.len() ==> *(#[trigger] snakes@[k]) == self.players@[index_of_id(
                    self.players@,
                    alive_ids(self.players@, self.players@.len() as int)[k],
                    0,
                )],
            forall|k: int|
                0 <= k < snakes@.len() ==> !(#[trigger] snakes@[k]).has_lost && snakes@[k].id
                    == alive_ids(self.players@, self.players@.len() as int)[k],
    {
        let alive: Vec<u8> = self.get_alive();
        let mut snakes_alive: Vec<&Snake> = Vec::new();
        let mut k: usize = 0;
        proof {
            lemma_alive_ids(self.players@, self.players@.len() as int);
        }
        while k < alive.len()
            invariant
                0 <= k <= alive@.len(),
                alive@ == alive_ids(self.players@, self.players@.len() as int),
                forall|id: u8|
                    alive@.contains(id) <==> (1 <= id <= self.players@.len() && index_of_id(
                        self.players@,
                        id,
                        0,
                    ) < self.players@.len() && !self.players@[index_of_id(
                        self.players@,
                        id,
                        0,
                    )].has_lost),
                snakes_alive@.len() == k,
                forall|m: int|
                    0 <= m < k ==> *(#[trigger] snakes_alive@[m]) == self.players@[index_of_id(
                        self.players@,
                        alive@[m],
                        0,
                    )],
                forall|m: int|
                    0 <= m < k ==> !(#[trigger] snakes_alive@[m]).has_lost && snakes_alive@[m].id
                        == alive@[m],
            decreases alive@.len() - k,
        {
            let id: u8 = alive[k];
            assert(alive@.contains(id));
            match self.get_player(id) {
                Some(index) => {
                    snakes_alive.push(&self.players[index]);
                },
                None => {},
            }
            k += 1;
        }
        snakes_alive
    }

    /// Whether the game has ended: fewer than two snakes have not lost.
    pub fn is_over(&self) -> (over: bool)
        ensures
            over == (alive_count(self.players@) < 2),
    {
        let mut count: usize = 0;
        let mut i: usize = 0;
        proof {
            assert(self.players@.take(0) =~= Seq::<Snake>::empty());
        }
        while i < self.players.len()
            invariant
                0 <= i <= self.players@.len(),
                count == alive_count(self.players@.take(i as int)),
                count <= i,
            decreases self.players@.len() - i,
        {
            proof {
                assert(self.players@.take(i + 1).drop_last() =~= self.players@.take(i as int));
                assert(self.players@.take(i + 1).last() == self.players@[i as int]);
            }
            if !self.players[i].has_lost {
                count += 1;
            }
            i += 1;
        }
        proof {
            assert(self.players@.take(i as int) =~= self.players@);
        }
        count < 2
    }

    /// Sets the colour of the border.
    pub fn set_border_color(&mut self, col: (u8, u8, u8))
        ensures
            final(self).border_color == col,
            final(self).dimensions == old(self).dimensions,
            final(self).block_size == old(self).block_size,
            final(self).waiting == old(self).waiting,
            final(self).n_players == old(self).n_players,
            final(self).can_send_move == old(self).can_send_move,
            final(self).frequency == old(self).frequency,
            final(self).no_death == old(self).no_death,
            final(self).food == old(self).food,
            final(self).players == old(self).players,
    {
        self.border_color = col;
    }

    /// Removes all food.
    pub fn clear_food(&mut self)
        ensures
            final(self).same_settings(old(self)),
            final(self).players == old(self).players,
            final(self).food@.len() == 0,
    {
        self.food = Vec::new();
    }

    /// Adds one food item.
    pub fn add_food(&mut self, x: i16, y: i16, food_type: FoodType)
        ensures
            final(self).same_settings(old(self)),
            final(self).players == old(self).players,
            final(self).food@ == old(self).food@.push(Food { x, y, food_type }),
    {
        self.food.push(Food { x, y, food_type });
    }

    /// Adds a new snake for each announced player, in order: identifier, red,
    /// green, blue, `x`, `y`.
    pub fn init_players(&mut self, player_params: Vec<(u8, u8, u8, u8, i16, i16)>)
        ensures
            final(self).same_settings(old(self)),
            final(self).food == old(self).food,
            final(self).players@.len() == old(self).players@.len() + player_params@.len(),
            forall|j: int|
                0 <= j < old(self).players@.len() ==> final(self).players@[j] == old(
                    self,
                ).players@[j],
            forall|k: int|
                0 <= k < player_params@.len() ==> announced(
                    #[trigger] final(self).players@[old(self).players@.len() + k],
                    player_params@[k],
                    old(self).dimensions,
                ),
    {
        let half: i16 = half_side_value(self.dimensions);
        let mut k: usize = 0;
        while k < player_params.len()
            invariant
                0 <= k <= player_params@.len(),
                half == half_side(old(self).dimensions),
                self.same_settings(old(self)),
                self.food == old(self).food,
                self.players@.len() == old(self).players@.len() + k,
                forall|j: int|
                    0 <= j < old(self).players@.len() ==> self.players@[j] == old(self).players@[j],
                forall|m: int|
                    0 <= m < k ==> announced(
                        #[trigger] self.players@[old(self).players@.len() + m],
                        player_params@[m],
                        old(self).dimensions,
                    ),
            decreases player_params@.len() - k,
        {
            let (id, red, green, blue, x, y) = player_params[k];
            let heading: Move = if x > half {
                if y > half {
                    Move::Up
                } else {
                    Move::Left
                }
            } else {
                if y > half {
                    Move::Right
                } else {
                    Move::Down
                }
            };
            let snake = Snake::new(id, (red, green, blue), x, y, heading, heading);
            self.players.push(snake);
            k += 1;
        }
    }

    /// Takes a key press of the player `id`: a direction key sets what the
    /// first snake with that identifier wants next; any other key does
    /// nothing.
    pub fn key_pressed(&mut self, id: u8, key: Key)
        requires
            index_of_id(old(self).players@, id, 0) < old(self).players@.len(),
        ensures
            final(self).same_settings(old(self)),
            final(self).food == old(self).food,
            final(self).players@ == old(self).players@.update(
                index_of_id(old(self).players@, id, 0),
                (Snake {
                    moving: match key_direction(key) {
                        Some(m) => m,
                        None => old(self).players@[index_of_id(old(self).players@, id, 0)].moving,
                    },
                    ..old(self).players@[index_of_id(old(self).players@, id, 0)]
                }),
            ),
    {
        let found = self.get_player_index(id);
        match found {
            Some(index) => {
                let wanted: Move = match key {
                    Key::Up | Key::Z => Move::Up,
                    Key::Down | Key::S => Move::Down,
                    Key::Left | Key::Q => Move::Left,
                    Key::Right | Key::D => Move::Right,
                    _ => self.players[index].moving,
                };
                self.players[index].moving = wanted;
                proof {
                    assert(final(self).players@ =~= old(self).players@.update(
                        index as int,
                        (Snake { moving: wanted, ..old(self).players@[index as int] }),
                    ));
                }
            },
            None => {},
        }
    }
}

impl Game {
    /// Whether the world is well formed.
    pub fn is_valid(&self) -> (r: bool)
        ensures
            r == self.wf(),
    {
        if !(4 < self.dimensions && self.dimensions <= 0x7fff) {
            return false;
        }
        if self.food.len() > MAX_FOOD {
            return false;
        }
        let mut i: usize = 0;
        while i < self.players.len()
            invariant
                0 <= i <= self.players@.len(),
                forall|k: int| 0 <= k < i ==> (#[trigger] self.players@[k]).wf(),
                forall|a: int, b: int| 0 <= a < b < i ==> self.players@[a].id != self.players@[b].id,
            decreases self.players@.len() - i,
        {
            if !self.players[i].is_valid() {
                return false;
            }
            let id: u8 = self.players[i].id;
            let mut j: usize = 0;
            while j < i
                invariant
                    0 <= j <= i < self.players@.len(),
                    id == self.players@[i as int].id,
                    forall|a: int| 0 <= a < j ==> self.players@[a].id != id,
                decreases i - j,
            {
                if self.players[j].id == id {
                    return false;
                }
                j += 1;
            }
            i += 1;
        }
        true
    }

    /// Whether the identifiers are 1, 2, ... up to the number of snakes, each
    /// present.
    pub fn has_dense_ids(&self) -> (r: bool)
        ensures
            r == self.ids_dense(),
    {
        if self.players.len() >= 255 {
            return false;
        }
        let n: u8 = self.players.len() as u8;
        let mut id: u8 = 1;
        while id <= n
            invariant
                1 <= id <= n + 1,
                n == self.players@.len(),
                n < 255,
                forall|k: u8|
                    1 <= k < id ==> index_of_id(self.players@, k, 0) < self.players@.len(),
            decreases n + 1 - id,
        {
            if self.get_player(id).is_none() {
                return false;
            }
            id += 1;
        }
        true
    }
}

} // verus!
