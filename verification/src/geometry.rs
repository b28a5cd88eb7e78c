//! The mathematics of a snake's body: a path of grid points from head to tail,
//! each consecutive pair joined by a horizontal or a vertical segment.

use vstd::prelude::*;

verus! {

/// The four directions a snake can travel in. `Up` is toward smaller `y`.
#[derive(Clone, Copy, Debug, PartialEq, Eq, Structural)]
pub enum Move {
    Up,
    Down,
    Left,
    Right,
}

/// A grid point.
pub type Point = (i16, i16);

/// The point one unit from `p` in direction `m`, as unbounded integers.
pub open spec fn step_int(p: Point, m: Move) -> (int, int) {
    match m {
        Move::Up => (p.0 as int, p.1 - 1),
        Move::Down => (p.0 as int, p.1 + 1),
        Move::Left => (p.0 - 1, p.1 as int),
        Move::Right => (p.0 + 1, p.1 as int),
    }
}

/// Whether the point one unit from `p` in direction `m` is still a grid point.
pub open spec fn can_step(p: Point, m: Move) -> bool {
    let q = step_int(p, m);
    i16::MIN <= q.0 <= i16::MAX && i16::MIN <= q.1 <= i16::MAX
}

/// The point one unit from `p` in direction `m`.
pub open spec fn step(p: Point, m: Move) -> Point {
    let q = step_int(p, m);
    (q.0 as i16, q.1 as i16)
}

/// Two points lie on a common horizontal or vertical line.
pub open spec fn aligned(a: Point, b: Point) -> bool {
    a.0 == b.0 || a.1 == b.1
}

/// Every segment of the path is horizontal or vertical.
pub open spec fn path_aligned(s: Seq<Point>) -> bool {
    forall|i: int| 0 <= i < s.len() - 1 ==> aligned(#[trigger] s[i], s[i + 1])
}

/// Only the last two points of the path may coincide.
pub open spec fn inner_distinct(s: Seq<Point>) -> bool {
    forall|i: int| 0 <= i < s.len() - 2 ==> #[trigger] s[i] != s[i + 1]
}

/// `head` lies zero or more units from `neck` in direction `d`.
pub open spec fn ahead_of(head: Point, neck: Point, d: Move) -> bool {
    match d {
        Move::Up => head.0 == neck.0 && head.1 <= neck.1,
        Move::Down => head.0 == neck.0 && head.1 >= neck.1,
        Move::Left => head.1 == neck.1 && head.0 <= neck.0,
        Move::Right => head.1 == neck.1 && head.0 >= neck.0,
    }
}

/// A body that a snake travelling in direction `d` can have: at least a head
/// and a tail, axis-aligned segments, the head straight ahead of the node
/// behind it, and no two coinciding nodes except possibly the last two.
pub open spec fn valid_body(s: Seq<Point>, d: Move) -> bool {
    &&& s.len() >= 2
    &&& path_aligned(s)
    &&& inner_distinct(s)
    &&& ahead_of(s[0], s[1], d)
}

/// The body after its head advanced one unit in direction `moving`: when that
/// differs from the committed `direction`, a corner is first left at the old
/// head position.
pub open spec fn advanced(s: Seq<Point>, direction: Move, moving: Move) -> Seq<Point> {
    if moving != direction {
        seq![step(s[0], moving)] + s
    } else {
        s.update(0, step(s[0], moving))
    }
}

/// `a` moved one unit toward `b`.
pub open spec fn toward(a: i16, b: i16) -> i16 {
    if a < b {
        (a + 1) as i16
    } else if a > b {
        (a - 1) as i16
    } else {
        a
    }
}

/// `t` moved one unit toward `p` along the axis on which they differ; left in
/// place when they are not aligned.
pub open spec fn pulled(t: Point, p: Point) -> Point {
    if t.0 == p.0 {
        (t.0, toward(t.1, p.1))
    } else if t.1 == p.1 {
        (toward(t.0, p.0), t.1)
    } else {
        t
    }
}

/// The body with a tail that coincides with the node ahead of it dropped.
pub open spec fn caught_up(s: Seq<Point>) -> Seq<Point> {
    if s[s.len() - 1] == s[s.len() - 2] {
        s.drop_last()
    } else {
        s
    }
}

/// The body after its tail retracted: a tail that has caught up with the node
/// ahead of it is dropped, then the tail moves one unit toward that node.
pub open spec fn retracted(s: Seq<Point>) -> Seq<Point> {
    let q = caught_up(s);
    q.update(q.len() - 1, pulled(q[q.len() - 1], q[q.len() - 2]))
}

/// The body after one tick: the head advances, and the tail retracts unless
/// the snake is growing.
pub open spec fn ticked(s: Seq<Point>, direction: Move, moving: Move, growing: bool) -> Seq<Point> {
    if growing {
        advanced(s, direction, moving)
    } else {
        retracted(advanced(s, direction, moving))
    }
}

/// The closed segment from `a` to `b` is axis-aligned and passes through `p`.
pub open spec fn on_segment(a: Point, b: Point, p: Point) -> bool {
    ||| (a.0 == b.0 && p.0 == a.0 && ((a.1 <= p.1 <= b.1) || (b.1 <= p.1 <= a.1)))
    ||| (a.1 == b.1 && p.1 == a.1 && ((a.0 <= p.0 <= b.0) || (b.0 <= p.0 <= a.0)))
}

/// Some segment of the path, counted from segment `from`, passes through `p`.
pub open spec fn covers(s: Seq<Point>, p: Point, from: int) -> bool {
    exists|i: int| from <= i < s.len() - 1 && on_segment(#[trigger] s[i], s[i + 1], p)
}

/// Advancing the head of a valid body keeps it valid, now for the direction
/// moved in, and leaves the head off the node behind it.
pub proof fn lemma_advanced_valid(s: Seq<Point>, direction: Move, moving: Move)
    requires
        valid_body(s, direction),
        can_step(s[0], moving),
    ensures
        valid_body(advanced(s, direction, moving), moving),
        advanced(s, direction, moving)[0] != advanced(s, direction, moving)[1],
        advanced(s, direction, moving).len() == s.len() + if moving != direction { 1int } else { 0int },
{
    let a = advanced(s, direction, moving);
    if moving != direction {
        assert forall|i: int| 0 <= i < a.len() - 1 implies aligned(#[trigger] a[i], a[i + 1]) by {
            if i > 0 {
                assert(a[i] == s[i - 1]);
                assert(a[i + 1] == s[i - 1 + 1]);
            }
        }
        assert forall|i: int| 0 <= i < a.len() - 2 implies #[trigger] a[i] != a[i + 1] by {
            if i > 0 {
                assert(a[i] == s[i - 1]);
                assert(a[i + 1] == s[i - 1 + 1]);
            }
        }
    } else {
        assert(aligned(s[0], s[1]));
        assert forall|i: int| 0 <= i < a.len() - 1 implies aligned(#[trigger] a[i], a[i + 1]) by {
            if i > 0 {
                assert(a[i] == s[i]);
                assert(aligned(s[i], s[i + 1]));
            }
        }
        assert forall|i: int| 0 <= i < a.len() - 2 implies #[trigger] a[i] != a[i + 1] by {
            if i > 0 {
                assert(a[i] == s[i]);
                assert(s[i] != s[i + 1]);
            }
        }
    }
}

/// Retracting the tail of a valid body whose head is off the node behind it
/// keeps it valid, and removes at most one node.
pub proof fn lemma_retracted_valid(s: Seq<Point>, d: Move)
    requires
        valid_body(s, d),
        s[0] != s[1],
    ensures
        valid_body(retracted(s), d),
        caught_up(s).len() >= 2,
        caught_up(s)[caught_up(s).len() - 1] != caught_up(s)[caught_up(s).len() - 2],
        retracted(s).len() == s.len() - if s[s.len() - 1] == s[s.len() - 2] { 1int } else { 0int },
{
    let q = caught_up(s);
    let n = s.len() as int;
    if s[n - 1] == s[n - 2] {
        assert(n >= 3);
        assert(s[n - 3] != s[n - 3 + 1]);
    }
    let m = q.len() as int;
    let r = retracted(s);
    assert(forall|i: int| 0 <= i < m ==> q[i] == s[i]);
    assert(aligned(q[m - 2], q[m - 2 + 1])) by {
        assert(aligned(s[m - 2], s[m - 2 + 1]));
    }
    assert forall|i: int| 0 <= i < r.len() - 1 implies aligned(#[trigger] r[i], r[i + 1]) by {
        if i < m - 2 {
            assert(aligned(s[i], s[i + 1]));
        }
    }
    assert forall|i: int| 0 <= i < r.len() - 2 implies #[trigger] r[i] != r[i + 1] by {
        assert(s[i] != s[i + 1]);
    }
}

/// A tick keeps a valid body valid: in particular no segment ever becomes
/// diagonal.
pub proof fn lemma_ticked_valid(s: Seq<Point>, direction: Move, moving: Move, growing: bool)
    requires
        valid_body(s, direction),
        can_step(s[0], moving),
    ensures
        valid_body(ticked(s, direction, moving, growing), moving),
        path_aligned(ticked(s, direction, moving, growing)),
{
    lemma_advanced_valid(s, direction, moving);
    if !growing {
        lemma_retracted_valid(advanced(s, direction, moving), moving);
    }
}

/// The directions are opposite to each other.
pub open spec fn opposite(a: Move, b: Move) -> bool {
    match a {
        Move::Up => b == Move::Down,
        Move::Down => b == Move::Up,
        Move::Left => b == Move::Right,
        Move::Right => b == Move::Left,
    }
}

/// Coverage from segment `from + 1` on is coverage of the path without its
/// first point from segment `from` on.
pub proof fn lemma_covers_shift(s: Seq<Point>, p: Point, from: int)
    requires
        from >= 0,
        s.len() >= 1,
    ensures
        covers(s, p, from + 1) == covers(s.drop_first(), p, from),
{
    let t = s.drop_first();
    if covers(s, p, from + 1) {
        let i = choose|i: int| from + 1 <= i < s.len() - 1 && on_segment(#[trigger] s[i], s[i + 1], p);
        assert(t[i - 1] == s[i]);
        assert(t[i - 1 + 1] == s[i + 1]);
        assert(on_segment(t[i - 1], t[i - 1 + 1], p));
    }
    if covers(t, p, from) {
        let i = choose|i: int| from <= i < t.len() - 1 && on_segment(#[trigger] t[i], t[i + 1], p);
        assert(s[i + 1] == t[i]);
        assert(s[i + 1 + 1] == t[i + 1]);
        assert(on_segment(s[i + 1], s[i + 1 + 1], p));
    }
}

/// Coverage from the first segment on is coverage by the first segment or
/// from the second segment on.
pub proof fn lemma_covers_first(s: Seq<Point>, p: Point)
    ensures
        covers(s, p, 0) == ((s.len() >= 2 && on_segment(s[0], s[1], p)) || covers(s, p, 1)),
{
    if covers(s, p, 0) {
        let i = choose|i: int| 0 <= i < s.len() - 1 && on_segment(#[trigger] s[i], s[i + 1], p);
        if i >= 1 {
            assert(covers(s, p, 1));
        }
    }
    if covers(s, p, 1) {
        let i = choose|i: int| 1 <= i < s.len() - 1 && on_segment(#[trigger] s[i], s[i + 1], p);
        assert(covers(s, p, 0));
    }
    if s.len() >= 2 && on_segment(s[0], s[1], p) {
        assert(covers(s, p, 0));
    }
}

/// A snake that has just spawned, with head and tail on one point, does not
/// run into its own body on its first tick, whether or not it turns: the
/// corner left behind by a turn is never taken for a collision.
pub proof fn lemma_first_tick_is_safe(x: i16, y: i16, direction: Move, moving: Move, growing: bool)
    requires
        can_step((x, y), moving),
    ensures
        !covers(
            ticked(seq![(x, y), (x, y)], direction, moving, growing),
            ticked(seq![(x, y), (x, y)], direction, moving, growing)[0],
            1,
        ),
{
    let s = seq![(x, y), (x, y)];
    let a = advanced(s, direction, moving);
    let t = ticked(s, direction, moving, growing);
    assert(a[0] == step((x, y), moving));
    assert(a[0] != (x, y));
    if moving != direction {
        assert(a.len() == 3);
        assert(a[1] == (x, y) && a[2] == (x, y));
        if !growing {
            assert(caught_up(a) =~= seq![a[0], (x, y)]);
        }
    } else {
        assert(a.len() == 2);
    }
    assert forall|i: int| 1 <= i < t.len() - 1 implies !on_segment(#[trigger] t[i], t[i + 1], t[0]) by {
        assert(i == 1);
        assert(moving != direction && growing);
        assert(t[1] == (x, y) && t[2] == (x, y));
    }
}

/// A path is aligned exactly when its first segment is and the rest of the
/// path is; its inner nodes are distinct exactly when the first two are,
/// unless they are the last two, and those of the rest are.
pub proof fn lemma_checks_unfold(s: Seq<Point>)
    requires
        s.len() >= 1,
    ensures
        path_aligned(s) == (s.len() < 2 || (aligned(s[0], s[1]) && path_aligned(s.drop_first()))),
        inner_distinct(s) == (s.len() < 3 || (s[0] != s[1] && inner_distinct(s.drop_first()))),
{
    let t = s.drop_first();
    if s.len() >= 2 {
        if path_aligned(s) {
            assert forall|i: int| 0 <= i < t.len() - 1 implies aligned(#[trigger] t[i], t[i + 1]) by {
                assert(t[i] == s[i + 1]);
                assert(aligned(s[i + 1], s[i + 1 + 1]));
            }
        }
        if aligned(s[0], s[1]) && path_aligned(t) {
            assert forall|i: int| 0 <= i < s.len() - 1 implies aligned(#[trigger] s[i], s[i + 1]) by {
                if i > 0 {
                    assert(t[i - 1] == s[i]);
                    assert(aligned(t[i - 1], t[i - 1 + 1]));
                }
            }
        }
    }
    if s.len() >= 3 {
        if inner_distinct(s) {
            assert forall|i: int| 0 <= i < t.len() - 2 implies #[trigger] t[i] != t[i + 1] by {
                assert(t[i] == s[i + 1]);
                assert(s[i + 1] != s[i + 1 + 1]);
            }
        }
        if s[0] != s[1] && inner_distinct(t) {
            assert forall|i: int| 0 <= i < s.len() - 2 implies #[trigger] s[i] != s[i + 1] by {
                if i > 0 {
                    assert(t[i - 1] == s[i]);
                    assert(t[i - 1] != t[i - 1 + 1]);
                }
            }
        }
    }
}

} // verus!
