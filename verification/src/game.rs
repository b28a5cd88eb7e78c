//! The world model: snake bodies as linked chains of turning points, snakes,
//! food, and the shared world with its tile classifier and tick rules.

use vstd::prelude::*;

use crate::chance::sample_uniform;
use crate::geometry::advanced;
use crate::geometry::can_step;
use crate::geometry::caught_up;
use crate::geometry::covers;
use crate::geometry::lemma_covers_first;
use crate::geometry::lemma_covers_shift;
use crate::geometry::opposite;
use crate::geometry::inner_distinct;
use crate::geometry::lemma_advanced_valid;
use crate::geometry::lemma_checks_unfold;
use crate::geometry::lemma_retracted_valid;
use crate::geometry::on_segment;
use crate::geometry::path_aligned;
use crate::geometry::retracted;
use crate::geometry::ticked;
use crate::geometry::toward;
use crate::geometry::valid_body;
use crate::geometry::Move;
use crate::geometry::Point;

verus! {

/// Growth credits that one apple is worth.
pub const FOOD_BY_APPLE: u8 = 4;

/// Number of kinds of food.
pub const N_FOOD_TYPES: u64 = 2;

/// Largest number of food items the world holds.
pub const MAX_FOOD: usize = 20;

/// Growth credits a snake starts with.
pub const INITIAL_STOMACH: u8 = 10;

/// One turning point of a snake's body, linked to the next one toward the tail.
#[derive(Debug, PartialEq)]
pub struct SnakeNode {
    pub x: i16,
    pub y: i16,
    pub next_node: Option<Box<SnakeNode>>,
}

impl Clone for SnakeNode {
    /// A copy of the chain that starts here.
    fn clone(&self) -> (copy: Self)
        ensures
            copy == *self,
    {
        self.duplicate()
    }
}

impl View for SnakeNode {
    type V = Seq<Point>;

    open spec fn view(&self) -> Seq<Point> {
        self.path()
    }
}

impl SnakeNode {
    /// The coordinates of the chain, from this node to the tail.
    pub open spec fn path(&self) -> Seq<Point>
        decreases self,
    {
        match self.next_node {
            None => seq![(self.x, self.y)],
            Some(n) => seq![(self.x, self.y)] + n.path(),
        }
    }

    /// How the path of a node is made of its own point and its successor's path.
    pub proof fn lemma_path(&self)
        ensures
            self@.len() >= 1,
            self@[0] == (self.x, self.y),
            self.next_node.is_none() ==> self@ == seq![(self.x, self.y)],
            self.next_node.is_some() ==> self@.len() == 1 + self.next_node.unwrap()@.len(),
            self.next_node.is_some() ==> self@.drop_first() == self.next_node.unwrap()@,
            self.next_node.is_some() ==> self@ == seq![(self.x, self.y)]
                + self.next_node.unwrap()@,
        decreases self,
    {
        match self.next_node {
            None => {},
            Some(n) => {
                n.lemma_path();
                assert((seq![(self.x, self.y)] + n@).drop_first() =~= n@);
            },
        }
    }

    /// A node without a successor.
    pub fn new(x: i16, y: i16) -> (node: Self)
        ensures
            node@ == seq![(x, y)],
            node.x == x,
            node.y == y,
            node.next_node.is_none(),
    {
        SnakeNode { x, y, next_node: None }
    }

    /// Whether the node has a successor.
    pub fn has_next(&self) -> (r: bool)
        ensures
            r == self.next_node.is_some(),
            r == (self@.len() > 1),
    {
        proof {
            self.lemma_path();
        }
        match self.next_node {
            None => false,
            Some(_) => true,
        }
    }

    /// The number of nodes in the chain that starts here.
    pub fn len(&self) -> (n: i16)
        requires
            self@.len() <= i16::MAX,
        ensures
            n == self@.len(),
        decreases self@.len(),
    {
        proof {
            self.lemma_path();
        }
        match &self.next_node {
            None => 1,
            Some(n) => {
                let rest: i16 = n.len();
                rest + 1
            },
        }
    }

    /// The number of nodes in the chain that starts here, when a signed
    /// 16-bit number can hold it.
    pub fn checked_len(&self) -> (n: Option<i16>)
        ensures
            n.is_some() == (self@.len() <= i16::MAX),
            n.is_some() ==> n.unwrap() == self@.len(),
        decreases self@.len(),
    {
        proof {
            self.lemma_path();
        }
        match &self.next_node {
            None => Some(1),
            Some(next) => match next.checked_len() {
                None => None,
                Some(rest) => if rest < i16::MAX {
                    Some(rest + 1)
                } else {
                    None
                },
            },
        }
    }

    /// The successor, if there is one.
    pub fn get_next(&self) -> (r: Option<&Self>)
        ensures
            r.is_some() == self.next_node.is_some(),
            r.is_some() ==> *r.unwrap() == *self.next_node.unwrap(),
            r.is_some() ==> r.unwrap()@ == self@.drop_first(),
    {
        proof {
            self.lemma_path();
        }
        match &self.next_node {
            None => None,
            Some(n) => Some(&**n),
        }
    }

    /// A copy of the chain that starts here.
    pub fn duplicate(&self) -> (copy: Self)
        ensures
            copy == *self,
        decreases self,
    {
        match &self.next_node {
            None => SnakeNode { x: self.x, y: self.y, next_node: None },
            Some(n) => {
                let rest = n.duplicate();
                SnakeNode { x: self.x, y: self.y, next_node: Some(Box::new(rest)) }
            },
        }
    }

    /// The position of the last node of the chain.
    pub fn tail_position(&self) -> (p: (i16, i16))
        ensures
            p == self@.last(),
        decreases self@.len(),
    {
        proof {
            self.lemma_path();
        }
        match &self.next_node {
            None => (self.x, self.y),
            Some(n) => n.tail_position(),
        }
    }

    /// The position of the node just ahead of the last one.
    pub fn position_before_tail(&self) -> (p: (i16, i16))
        requires
            self@.len() >= 2,
        ensures
            p == self@[self@.len() - 2],
        decreases self@.len(),
    {
        proof {
            self.lemma_path();
        }
        match &self.next_node {
            None => (self.x, self.y),
            Some(n) => {
                if n.has_next() {
                    n.position_before_tail()
                } else {
                    (self.x, self.y)
                }
            },
        }
    }

    /// Removes the last node of the chain.
    pub fn drop_tail(&mut self)
        requires
            old(self)@.len() >= 2,
        ensures
            final(self)@ == old(self)@.drop_last(),
        decreases old(self)@.len(),
    {
        proof {
            self.lemma_path();
        }
        let mut last_but_one = false;
        match &mut self.next_node {
            None => {},
            Some(n) => {
                if n.has_next() {
                    n.drop_tail();
                } else {
                    last_but_one = true;
                }
            },
        }
        if last_but_one {
            self.next_node = None;
        }
        proof {
            self.lemma_path();
            assert(final(self)@ =~= old(self)@.drop_last());
        }
    }

    /// Moves the last node of the chain to `(x, y)`.
    pub fn place_tail(&mut self, x: i16, y: i16)
        ensures
            final(self)@ == old(self)@.update(old(self)@.len() - 1, (x, y)),
        decreases old(self)@.len(),
    {
        proof {
            self.lemma_path();
        }
        let mut is_tail = false;
        match &mut self.next_node {
            None => {
                is_tail = true;
            },
            Some(n) => {
                n.place_tail(x, y);
            },
        }
        if is_tail {
            self.x = x;
            self.y = y;
        }
        proof {
            self.lemma_path();
            assert(final(self)@ =~= old(self)@.update(old(self)@.len() - 1, (x, y)));
        }
    }

    /// Appends `node`, with whatever follows it, behind the last node.
    pub fn append(&mut self, node: SnakeNode)
        ensures
            final(self)@ == old(self)@ + node@,
        decreases old(self)@.len(),
    {
        proof {
            self.lemma_path();
        }
        if self.has_next() {
            match &mut self.next_node {
                None => {},
                Some(n) => {
                    n.append(node);
                },
            }
        } else {
            self.next_node = Some(Box::new(node));
        }
        proof {
            self.lemma_path();
            assert(final(self)@ =~= old(self)@ + node@);
        }
    }
}

/// `a` moved one unit toward `b`.
fn toward_value(a: i16, b: i16) -> (r: i16)
    ensures
        r == toward(a, b),
{
    if a < b {
        a + 1
    } else if a > b {
        a - 1
    } else {
        a
    }
}

/// Whether the closed axis-aligned segment from `a` to `b` passes through `p`.
fn segment_holds(a: &SnakeNode, b: &SnakeNode, x: i16, y: i16) -> (r: bool)
    ensures
        r == on_segment((a.x, a.y), (b.x, b.y), (x, y)),
{
    let vertical = a.x == b.x && x == a.x && ((a.y <= y && y <= b.y) || (b.y <= y && y <= a.y));
    let horizontal = a.y == b.y && y == a.y && ((a.x <= x && x <= b.x) || (b.x <= x && x <= a.x));
    vertical || horizontal
}

impl SnakeNode {
    /// Whether some segment of the chain that starts here passes through
    /// `(x, y)`.
    pub fn passes_through(&self, x: i16, y: i16) -> (r: bool)
        ensures
            r == covers(self@, (x, y), 0),
        decreases self@.len(),
    {
        proof {
            self.lemma_path();
            lemma_covers_first(self@, (x, y));
            lemma_covers_shift(self@, (x, y), 0);
        }
        match &self.next_node {
            None => {
                assert(!covers(self@, (x, y), 1));
                false
            },
            Some(n) => {
                proof {
                    n.lemma_path();
                }
                if segment_holds(self, n, x, y) {
                    true
                } else {
                    n.passes_through(x, y)
                }
            },
        }
    }
}

/// A snake: its body, the direction it last moved in, the direction its player
/// wants next, and its growth, boost and loss state.
#[derive(Debug, PartialEq)]
pub struct Snake {
    /// Identifier, unique within a world.
    pub id: u8,
    /// Colour as red, green, blue.
    pub color: (u8, u8, u8),
    /// First node of the body.
    pub head: SnakeNode,
    /// Direction of the last move made.
    pub direction: Move,
    /// Direction the player wants; a corner is left when it differs from
    /// `direction` at the next move.
    pub moving: Move,
    /// Set once the snake has died.
    pub has_lost: bool,
    /// Growth credits left.
    pub stomach: u8,
    /// Set while a speed boost is active.
    pub boost: bool,
}

impl Snake {
    /// The body is one a snake travelling in `direction` can have.
    pub open spec fn wf(&self) -> bool {
        valid_body(self.head@, self.direction)
    }

    /// The next tick does not take the head off the coordinate range.
    pub open spec fn can_advance(&self) -> bool {
        self.has_lost || can_step(self.head@[0], self.moving)
    }

    /// The snake is about to turn.
    pub open spec fn turns(&self) -> bool {
        self.moving != self.direction
    }

    /// The tail has not caught up with the node ahead of it, or the body is
    /// head and tail only.
    pub open spec fn tail_trails(&self) -> bool {
        self.head@.len() == 2 || self.head@[self.head@.len() - 1] != self.head@[self.head@.len()
            - 2]
    }

    /// Whether `self` is what one tick makes of the living snake `prev`.
    pub open spec fn ticked_from(&self, prev: &Snake) -> bool {
        &&& self.id == prev.id
        &&& self.color == prev.color
        &&& self.has_lost == prev.has_lost
        &&& self.boost == prev.boost
        &&& self.moving == prev.moving
        &&& self.direction == prev.moving
        &&& self.stomach == if prev.stomach > 0 { prev.stomach - 1 } else { 0 }
        &&& self.head@ == ticked(prev.head@, prev.direction, prev.moving, prev.stomach > 0)
    }

    /// A new snake: head and tail on `(x, y)`, alive, not boosted, with the
    /// initial growth credits.
    pub fn new(
        id: u8,
        color: (u8, u8, u8),
        x: i16,
        y: i16,
        initial_direction: Move,
        initial_moving: Move,
    ) -> (snake: Self)
        ensures
            snake.head@ == seq![(x, y), (x, y)],
            snake.head@.len() == 2,
            snake.id == id,
            snake.color == color,
            snake.direction == initial_direction,
            snake.moving == initial_moving,
            !snake.has_lost,
            !snake.boost,
            snake.stomach == INITIAL_STOMACH,
            snake.wf(),
    {
        let mut head: SnakeNode = SnakeNode::new(x, y);
        let tail: SnakeNode = SnakeNode::new(x, y);
        head.next_node = Some(Box::new(tail));
        proof {
            head.lemma_path();
            assert(head@ =~= seq![(x, y), (x, y)]);
        }
        Snake {
            id,
            color,
            head,
            direction: initial_direction,
            moving: initial_moving,
            has_lost: false,
            stomach: INITIAL_STOMACH,
            boost: false,
        }
    }

    /// Whether the next tick keeps the head on the coordinate range.
    pub fn is_able_to_advance(&self) -> (r: bool)
        ensures
            r == self.can_advance(),
    {
        proof {
            self.head.lemma_path();
        }
        if self.has_lost {
            return true;
        }
        match self.moving {
            Move::Up => self.head.y > i16::MIN,
            Move::Down => self.head.y < i16::MAX,
            Move::Left => self.head.x > i16::MIN,
            Move::Right => self.head.x < i16::MAX,
        }
    }

    /// Leaves a corner behind the head when the snake is about to turn.
    pub fn add_snake_node(&mut self)
        ensures
            final(self).head@ == if old(self).moving != old(self).direction {
                seq![old(self).head@[0]] + old(self).head@
            } else {
                old(self).head@
            },
            final(self).head.x == old(self).head.x,
            final(self).head.y == old(self).head.y,
            final(self).id == old(self).id,
            final(self).color == old(self).color,
            final(self).direction == old(self).direction,
            final(self).moving == old(self).moving,
            final(self).has_lost == old(self).has_lost,
            final(self).stomach == old(self).stomach,
            final(self).boost == old(self).boost,
    {
        if self.moving != self.direction {
            let new_node: SnakeNode = SnakeNode::new(self.head.x, self.head.y);
            proof {
                self.head.lemma_path();
            }
            self.insert_node(new_node);
            proof {
                assert(final(self).head@ =~= seq![old(self).head@[0]] + old(self).head@);
            }
        }
    }

    /// Links `node` in just behind the head. What followed the head then
    /// follows `node`; when nothing followed the head, `node` keeps its own
    /// successors.
    pub fn insert_node(&mut self, node: SnakeNode)
        ensures
            final(self).head@ == if old(self).head@.len() > 1 {
                seq![old(self).head@[0], (node.x, node.y)] + old(self).head@.drop_first()
            } else {
                old(self).head@ + node@
            },
            final(self).head.x == old(self).head.x,
            final(self).head.y == old(self).head.y,
            final(self).id == old(self).id,
            final(self).color == old(self).color,
            final(self).direction == old(self).direction,
            final(self).moving == old(self).moving,
            final(self).has_lost == old(self).has_lost,
            final(self).stomach == old(self).stomach,
            final(self).boost == old(self).boost,
    {
        let mut node = node;
        proof {
            self.head.lemma_path();
            node.lemma_path();
        }
        if self.head.has_next() {
            let rest = self.head.next_node.take();
            node.next_node = rest;
        }
        proof {
            node.lemma_path();
        }
        self.head.next_node = Some(Box::new(node));
        proof {
            self.head.lemma_path();
            if old(self).head@.len() > 1 {
                assert(final(self).head@ =~= seq![old(self).head@[0], (node.x, node.y)] + old(
                    self,
                ).head@.drop_first());
            } else {
                assert(final(self).head@ =~= old(self).head@ + node@);
            }
        }
    }

    /// Removes the tail node.
    pub fn back_tail(&mut self)
        requires
            old(self).head@.len() >= 2,
        ensures
            final(self).head@ == old(self).head@.drop_last(),
            final(self).head.x == old(self).head.x,
            final(self).head.y == old(self).head.y,
            final(self).id == old(self).id,
            final(self).color == old(self).color,
            final(self).direction == old(self).direction,
            final(self).moving == old(self).moving,
            final(self).has_lost == old(self).has_lost,
            final(self).stomach == old(self).stomach,
            final(self).boost == old(self).boost,
    {
        proof {
            self.head.lemma_path();
        }
        self.head.drop_tail();
        proof {
            self.head.lemma_path();
            assert(final(self).head@[0] == old(self).head@[0]);
        }
    }

    /// The position of the node just ahead of the tail.
    pub fn get_position_of_node_before_tail(&self) -> (p: (i16, i16))
        requires
            self.head@.len() >= 2,
        ensures
            p == self.head@[self.head@.len() - 2],
    {
        self.head.position_before_tail()
    }

    /// Takes a player's wish for the next direction, unless it is the reverse
    /// of the direction the snake last moved in.
    pub fn change_intent(&mut self, player_move: Move)
        ensures
            final(self).moving == if opposite(player_move, old(self).direction) {
                old(self).moving
            } else {
                player_move
            },
            final(self).head == old(self).head,
            final(self).id == old(self).id,
            final(self).color == old(self).color,
            final(self).direction == old(self).direction,
            final(self).has_lost == old(self).has_lost,
            final(self).stomach == old(self).stomach,
            final(self).boost == old(self).boost,
    {
        match player_move {
            Move::Up => {
                if self.direction != Move::Down {
                    self.moving = Move::Up;
                }
            },
            Move::Down => {
                if self.direction != Move::Up {
                    self.moving = Move::Down;
                }
            },
            Move::Left => {
                if self.direction != Move::Right {
                    self.moving = Move::Left;
                }
            },
            Move::Right => {
                if self.direction != Move::Left {
                    self.moving = Move::Right;
                }
            },
        }
    }

    /// One tick of the snake. A snake that has lost stays as it is. Otherwise
    /// the head advances one unit in the wanted direction, leaving a corner
    /// when that is a turn; then a growth credit is used up, or, when none is
    /// left, the tail retracts.
    pub fn update(&mut self)
        requires
            old(self).wf(),
            old(self).can_advance(),
        ensures
            final(self).wf(),
            path_aligned(final(self).head@),
            old(self).has_lost ==> *final(self) == *old(self),
            !old(self).has_lost ==> final(self).ticked_from(old(self)),
            !old(self).has_lost && old(self).stomach > 0 ==> final(self).head@.len()
                == old(self).head@.len() + if old(self).turns() { 1int } else { 0int },
            !old(self).has_lost && old(self).stomach == 0 && !old(self).turns()
                && old(self).tail_trails() ==> final(self).head@.len() == old(self).head@.len(),
    {
        if self.has_lost {
            return ;
        }
        let ghost before = self.head@;
        let ghost direction = self.direction;
        let ghost moving = self.moving;
        proof {
            self.head.lemma_path();
            lemma_advanced_valid(before, direction, moving);
        }
        self.add_snake_node();
        proof {
            self.head.lemma_path();
        }
        match self.moving {
            Move::Up => {
                self.head.y -= 1;
            },
            Move::Down => {
                self.head.y += 1;
            },
            Move::Right => {
                self.head.x += 1;
            },
            Move::Left => {
                self.head.x -= 1;
            },
        }
        self.direction = self.moving;
        proof {
            self.head.lemma_path();
            assert(self.head@ =~= advanced(before, direction, moving));
        }
        if self.stomach > 0 {
            self.stomach -= 1;
        } else {
            let ghost after = self.head@;
            proof {
                lemma_retracted_valid(after, moving);
            }
            let (x, y) = self.get_position_of_node_before_tail();
            let (tx, ty) = self.head.tail_position();
            if tx == x && ty == y {
                self.back_tail();
            }
            assert(self.head@ == caught_up(after));
            let (x, y) = self.get_position_of_node_before_tail();
            let (tx, ty) = self.head.tail_position();
            if tx == x {
                let ny = toward_value(ty, y);
                self.head.place_tail(tx, ny);
            } else if ty == y {
                let nx = toward_value(tx, x);
                self.head.place_tail(nx, ty);
            }
            assert(self.head@ =~= retracted(after));
        }
    }

    /// Whether `(x, y)` lies on the body, as seen by the snake `id`. A snake
    /// does not count its own first segment, from head to the node behind it.
    pub fn contains(&self, x: i16, y: i16, id: u8) -> (r: bool)
        requires
            self.head@.len() >= 2,
        ensures
            r == covers(self.head@, (x, y), if id == self.id { 1int } else { 0int }),
    {
        proof {
            self.head.lemma_path();
            lemma_covers_shift(self.head@, (x, y), 0);
        }
        if id == self.id {
            match &self.head.next_node {
                None => false,
                Some(n) => n.passes_through(x, y),
            }
        } else {
            self.head.passes_through(x, y)
        }
    }

    /// Makes `node`, with whatever follows it, the whole body.
    pub fn reset_snake_with_node(&mut self, node: SnakeNode)
        ensures
            final(self).head == node,
            final(self).id == old(self).id,
            final(self).color == old(self).color,
            final(self).direction == old(self).direction,
            final(self).moving == old(self).moving,
            final(self).has_lost == old(self).has_lost,
            final(self).stomach == old(self).stomach,
            final(self).boost == old(self).boost,
    {
        self.head = node;
    }

    /// Appends `node`, with whatever follows it, as the new tail.
    pub fn add_node_as_tail(&mut self, node: SnakeNode)
        ensures
            final(self).head@ == old(self).head@ + node@,
            final(self).id == old(self).id,
            final(self).color == old(self).color,
            final(self).direction == old(self).direction,
            final(self).moving == old(self).moving,
            final(self).has_lost == old(self).has_lost,
            final(self).stomach == old(self).stomach,
            final(self).boost == old(self).boost,
    {
        self.head.append(node);
    }
}

/// The kinds of food.
#[derive(Clone, Copy, Debug, PartialEq, Eq, Structural)]
pub enum FoodType {
    /// Makes the snake that eats it grow, and turns up again elsewhere.
    Apple,
    /// Gives the snake that eats it a speed boost, and is gone.
    Mango,
}

/// The kind of food that a number stands for.
pub open spec fn food_kind(id: int) -> FoodType {
    if id == 1 {
        FoodType::Apple
    } else {
        FoodType::Mango
    }
}

/// The number that stands for a kind of food.
pub open spec fn food_number(t: FoodType) -> u8 {
    match t {
        FoodType::Apple => 1,
        FoodType::Mango => 2,
    }
}

/// The kind of food numbered `food_type`, which is 1 or 2.
pub fn food_id_to_type(food_type: u64) -> (t: FoodType)
    requires
        food_type == 1 || food_type == 2,
    ensures
        t == food_kind(food_type as int),
        food_number(t) == food_type,
{
    if food_type == 1 {
        FoodType::Apple
    } else {
        FoodType::Mango
    }
}

/// One piece of food.
#[derive(Clone, Copy, Debug, PartialEq, Eq, Structural)]
pub struct Food {
    pub x: i16,
    pub y: i16,
    pub food_type: FoodType,
}

impl Food {
    /// Whether the food lies on `p`.
    pub open spec fn at(&self, p: Point) -> bool {
        self.x == p.0 && self.y == p.1
    }

    pub fn new(x: i16, y: i16, food_type: FoodType) -> (food: Self)
        ensures
            food == (Food { x, y, food_type }),
    {
        Food { x, y, food_type }
    }

    /// The number that stands for the food's kind on the wire.
    pub fn food_type_to_food_id(&self) -> (id: u8)
        ensures
            id == food_number(self.food_type),
    {
        match &self.food_type {
            FoodType::Apple => 1,
            FoodType::Mango => 2,
        }
    }

    /// The food as the wire carries it: kind number, `x`, `y`.
    pub fn get_info_for_data_trs(&self) -> (info: (u8, i16, i16))
        ensures
            info == (food_number(self.food_type), self.x, self.y),
    {
        (self.food_type_to_food_id(), self.x, self.y)
    }

    /// The kind of food that a wire byte stands for, if any.
    pub fn int_to_food_type(i: u8) -> (t: Option<FoodType>)
        ensures
            t == if i == 1 {
                Some(FoodType::Apple)
            } else if i == 2 {
                Some(FoodType::Mango)
            } else {
                None::<FoodType>
            },
            t.is_some() ==> food_number(t.unwrap()) == i,
    {
        match i {
            1 => Some(FoodType::Apple),
            2 => Some(FoodType::Mango),
            _ => None,
        }
    }

    /// Puts the food somewhere else.
    pub fn move_to(&mut self, x: i16, y: i16)
        ensures
            *final(self) == (Food { x, y, food_type: old(self).food_type }),
    {
        self.x = x;
        self.y = y;
    }

    /// Puts the food on a random tile at least two tiles from every border of
    /// a grid of side `dimensions`.
    pub fn reset(&mut self, dimensions: u16)
        requires
            4 < dimensions <= i16::MAX,
        ensures
            2 <= final(self).x < dimensions - 2,
            2 <= final(self).y < dimensions - 2,
            final(self).food_type == old(self).food_type,
    {
        let x: u16 = sample_uniform(2, dimensions - 2);
        let y: u16 = sample_uniform(2, dimensions - 2);
        self.move_to(x as i16, y as i16);
    }
}

impl SnakeNode {
    /// Whether every segment of the chain that starts here is horizontal or
    /// vertical, and no two nodes in a row coincide except possibly the last
    /// two.
    pub fn is_regular(&self) -> (r: bool)
        ensures
            r == (path_aligned(self@) && inner_distinct(self@)),
        decreases self@.len(),
    {
        proof {
            self.lemma_path();
            lemma_checks_unfold(self@);
        }
        match &self.next_node {
            None => true,
            Some(n) => {
                proof {
                    n.lemma_path();
                }
                let lined_up: bool = self.x == n.x || self.y == n.y;
                let apart: bool = !n.has_next() || !(self.x == n.x && self.y == n.y);
                lined_up && apart && n.is_regular()
            },
        }
    }
}

impl Snake {
    /// Whether the body is one a snake travelling in `direction` can have.
    pub fn is_valid(&self) -> (r: bool)
        ensures
            r == self.wf(),
    {
        proof {
            self.head.lemma_path();
        }
        match &self.head.next_node {
            None => false,
            Some(n) => {
                proof {
                    n.lemma_path();
                }
                let ahead: bool = match self.direction {
                    Move::Up => self.head.x == n.x && self.head.y <= n.y,
                    Move::Down => self.head.x == n.x && self.head.y >= n.y,
                    Move::Left => self.head.y == n.y && self.head.x <= n.x,
                    Move::Right => self.head.y == n.y && self.head.x >= n.x,
                };
                ahead && self.head.is_regular()
            },
        }
    }
}

} // verus!
