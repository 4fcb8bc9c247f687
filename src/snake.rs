//! The snake state machine: its body, its heading, and one step of movement.

use std::collections::VecDeque;
use vstd::prelude::*;

verus! {

/// A heading of the snake. `Stop` is the heading before the first key press.
#[derive(Clone, Copy, PartialEq, Eq, Structural, Debug)]
pub enum Directions {
    Up,
    Down,
    Right,
    Left,
    Stop,
}

/// The food on the board: a cell, or `Eaten` when a new one must be placed.
#[derive(Clone, Copy, PartialEq, Eq, Structural, Debug)]
pub enum Food {
    Exists(usize, usize),
    Eaten,
}

/// The abstract state of a snake: its segments, head first, and its heading.
pub ghost struct SnakeView {
    pub body: Seq<(usize, usize)>,
    pub dir: Directions,
}

/// A snake: its segments, head at the front and tail at the back, and its heading.
#[derive(Clone, Debug)]
pub struct Snake {
    pos: VecDeque<(usize, usize)>,
    dir: Directions,
}

impl View for Snake {
    type V = SnakeView;

    closed spec fn view(&self) -> SnakeView {
        SnakeView { body: self.pos@, dir: self.dir }
    }
}

/// Whether `b` is the exact reverse of `a`.
pub open spec fn opposite(a: Directions, b: Directions) -> bool {
    ||| a == Directions::Up && b == Directions::Down
    ||| a == Directions::Down && b == Directions::Up
    ||| a == Directions::Left && b == Directions::Right
    ||| a == Directions::Right && b == Directions::Left
}

/// The heading after asking to turn from `cur` to `req`: a reversal, or a
/// request to stop, leaves the heading as it was.
pub open spec fn turned(cur: Directions, req: Directions) -> Directions {
    if req == Directions::Stop || opposite(cur, req) {
        cur
    } else {
        req
    }
}

/// A body is well formed when it has a head and no two segments share a cell.
pub open spec fn body_wf(body: Seq<(usize, usize)>) -> bool {
    body.len() >= 1 && body.no_duplicates()
}

/// The cell one step from `head` in heading `d`, as integers: it may lie off the grid.
pub open spec fn step_from(head: (usize, usize), d: Directions) -> (int, int) {
    match d {
        Directions::Up => (head.0 as int, head.1 - 1),
        Directions::Down => (head.0 as int, head.1 + 1),
        Directions::Right => (head.0 + 1, head.1 as int),
        Directions::Left => (head.0 - 1, head.1 as int),
        Directions::Stop => (head.0 as int, head.1 as int),
    }
}

/// Whether coordinate `c` lies in the playing field along an axis of size
/// `bound`: 0 and 1 are border, and so is every coordinate from `bound` on.
pub open spec fn in_field(c: int, bound: usize) -> bool {
    2 <= c < bound
}

/// Whether one step from `head` in heading `d` keeps the moving coordinate in
/// the field; a snake that stands still goes nowhere.
pub open spec fn step_in_field(head: (usize, usize), d: Directions, bounds: (usize, usize)) -> bool {
    let c = step_from(head, d);
    match d {
        Directions::Up | Directions::Down => in_field(c.1, bounds.1),
        Directions::Right | Directions::Left => in_field(c.0, bounds.0),
        Directions::Stop => false,
    }
}

/// The cell the head moves to, where the step stays in the field.
pub open spec fn next_head(head: (usize, usize), d: Directions) -> (usize, usize) {
    let c = step_from(head, d);
    (c.0 as usize, c.1 as usize)
}

/// Whether the next head cell is border or already part of the body.
pub open spec fn blocked(body: Seq<(usize, usize)>, d: Directions, bounds: (usize, usize)) -> bool {
    !step_in_field(body[0], d, bounds) || body.contains(next_head(body[0], d))
}

/// One step of the game on snake `s`, food `food`, board `bounds` and end
/// flag `over`, giving the new snake, food and flag.
///
/// Once the game is over, or while the snake stands still, nothing changes.
/// A blocked step ends the game and leaves snake and food as they were.
/// Otherwise the head moves one cell: onto the food the snake grows and the
/// food is eaten; elsewhere the tail is dropped.
pub open spec fn advance(s: SnakeView, food: Food, bounds: (usize, usize), over: bool) -> (
    SnakeView,
    Food,
    bool,
) {
    if over || s.dir == Directions::Stop {
        (s, food, over)
    } else if blocked(s.body, s.dir, bounds) {
        (s, food, true)
    } else {
        let n = next_head(s.body[0], s.dir);
        if food == Food::Exists(n.0, n.1) {
            (SnakeView { body: seq![n] + s.body, dir: s.dir }, Food::Eaten, false)
        } else {
            (SnakeView { body: seq![n] + s.body.drop_last(), dir: s.dir }, food, false)
        }
    }
}

proof fn lemma_push_head(body: Seq<(usize, usize)>, n: (usize, usize))
    requires
        body.no_duplicates(),
        !body.contains(n),
    ensures
        body_wf(seq![n] + body),
{
    let s = seq![n] + body;
    assert forall|i: int, j: int| 0 <= i < s.len() && 0 <= j < s.len() && i != j implies s[i]
        != s[j] by {
        if i == 0 {
            assert(s[j] == body[j - 1]);
        } else if j == 0 {
            assert(s[i] == body[i - 1]);
        } else {
            assert(s[i] == body[i - 1]);
            assert(s[j] == body[j - 1]);
        }
    }
}

proof fn lemma_drop_tail(body: Seq<(usize, usize)>, n: (usize, usize))
    requires
        body_wf(body),
        !body.contains(n),
    ensures
        body.drop_last().no_duplicates(),
        !body.drop_last().contains(n),
{
    let d = body.drop_last();
    assert forall|i: int, j: int| 0 <= i < d.len() && 0 <= j < d.len() && i != j implies d[i]
        != d[j] by {
        assert(d[i] == body[i] && d[j] == body[j]);
    }
    if d.contains(n) {
        let k = choose|k: int| 0 <= k < d.len() && d[k] == n;
        assert(body[k] == n);
    }
}

/// The state after `n` steps from snake `s`, food `food` and end flag `over`
/// on a board of size `bounds`.
pub open spec fn run(s: SnakeView, food: Food, bounds: (usize, usize), over: bool, n: nat) -> (
    SnakeView,
    Food,
    bool,
)
    decreases n,
{
    if n == 0 {
        (s, food, over)
    } else {
        let p = run(s, food, bounds, over, (n - 1) as nat);
        advance(p.0, p.1, bounds, p.2)
    }
}

/// The cell `n` cells from `head` along heading `d`.
pub open spec fn head_after(head: (usize, usize), d: Directions, n: nat) -> (int, int) {
    match d {
        Directions::Up => (head.0 as int, head.1 - n),
        Directions::Down => (head.0 as int, head.1 + n),
        Directions::Right => (head.0 + n, head.1 as int),
        Directions::Left => (head.0 - n, head.1 as int),
        Directions::Stop => (head.0 as int, head.1 as int),
    }
}

/// A step keeps the body well formed and never changes the heading.
pub proof fn lemma_advance_wf(s: SnakeView, food: Food, bounds: (usize, usize), over: bool)
    requires
        body_wf(s.body),
    ensures
        body_wf(advance(s, food, bounds, over).0.body),
        advance(s, food, bounds, over).0.dir == s.dir,
{
    if !over && s.dir != Directions::Stop && !blocked(s.body, s.dir, bounds) {
        let n = next_head(s.body[0], s.dir);
        lemma_push_head(s.body, n);
        lemma_drop_tail(s.body, n);
        lemma_push_head(s.body.drop_last(), n);
    }
}

/// Over any number of steps in which the food is never reached the length
/// stays as it was; and as long as the game goes on, the heading is kept and
/// the head has moved exactly one cell per step along it.
pub proof fn lemma_run_without_food(
    s: SnakeView,
    food: Food,
    bounds: (usize, usize),
    over: bool,
    n: nat,
)
    requires
        body_wf(s.body),
    ensures
        body_wf(run(s, food, bounds, over, n).0.body),
        run(s, food, bounds, over, n).0.dir == s.dir,
        run(s, food, bounds, over, n).1 == food || run(s, food, bounds, over, n).1 == Food::Eaten,
        run(s, food, bounds, over, n).1 == food ==> run(s, food, bounds, over, n).0.body.len()
            == s.body.len(),
        !run(s, food, bounds, over, n).2 ==> ({
            let h = run(s, food, bounds, over, n).0.body[0];
            (h.0 as int, h.1 as int) == head_after(s.body[0], s.dir, n)
        }),
    decreases n,
{
    if n > 0 {
        let m = (n - 1) as nat;
        lemma_run_without_food(s, food, bounds, over, m);
        let p = run(s, food, bounds, over, m);
        lemma_advance_wf(p.0, p.1, bounds, p.2);
    }
}

/// Landing on the food grows the snake by exactly one segment, the new head
/// in front of the old body, and the food is eaten on that same step.
pub proof fn lemma_eating_grows(s: SnakeView, food: Food, bounds: (usize, usize))
    requires
        body_wf(s.body),
        s.dir != Directions::Stop,
        !blocked(s.body, s.dir, bounds),
        food == Food::Exists(next_head(s.body[0], s.dir).0, next_head(s.body[0], s.dir).1),
    ensures
        advance(s, food, bounds, false).0.body.len() == s.body.len() + 1,
        advance(s, food, bounds, false).0.body == seq![next_head(s.body[0], s.dir)] + s.body,
        advance(s, food, bounds, false).1 == Food::Eaten,
        !advance(s, food, bounds, false).2,
{
}

/// A step into the border or into the body ends the game and changes neither
/// snake nor food; every later step changes nothing either.
pub proof fn lemma_blocked_step_freezes(
    s: SnakeView,
    food: Food,
    bounds: (usize, usize),
    over: bool,
    n: nat,
)
    requires
        body_wf(s.body),
        s.dir != Directions::Stop,
        blocked(s.body, s.dir, bounds),
    ensures
        advance(s, food, bounds, over) == (s, food, true),
        run(s, food, bounds, over, n + 1) == (s, food, true),
    decreases n,
{
    assert(run(s, food, bounds, over, 0) == (s, food, over));
    assert(run(s, food, bounds, over, 1) == advance(s, food, bounds, over));
    if n > 0 {
        lemma_blocked_step_freezes(s, food, bounds, over, (n - 1) as nat);
        assert(run(s, food, bounds, over, n + 1) == advance(s, food, bounds, true));
    }
}

impl Snake {
    pub open spec fn wf(&self) -> bool {
        body_wf(self@.body)
    }

    /// A snake of two segments, (2, 2) then (2, 3), standing still.
    pub fn new() -> (r: Snake)
        ensures
            r@.body == seq![(2usize, 2usize), (2usize, 3usize)],
            r@.dir == Directions::Stop,
            r.wf(),
    {
        let mut pos: VecDeque<(usize, usize)> = VecDeque::new();
        pos.push_back((2, 2));
        pos.push_back((2, 3));
        Snake { pos, dir: Directions::Stop }
    }

    /// The number of segments.
    pub fn len(&self) -> (r: usize)
        ensures
            r == self@.body.len(),
    {
        self.pos.len()
    }

    /// The current heading.
    pub fn direction(&self) -> (r: Directions)
        ensures
            r == self@.dir,
    {
        self.dir
    }

    /// The segments, head first.
    pub fn segments(&self) -> (r: Vec<(usize, usize)>)
        ensures
            r@ == self@.body,
    {
        let mut v: Vec<(usize, usize)> = Vec::new();
        let mut i: usize = 0;
        while i < self.pos.len()
            invariant
                i <= self.pos@.len(),
                v@ == self.pos@.take(i as int),
            decreases self.pos@.len() - i,
        {
            v.push(self.pos[i]);
            i += 1;
            assert(v@ =~= self.pos@.take(i as int));
        }
        assert(v@ =~= self.pos@);
        v
    }

    /// Whether cell `c` is one of the segments.
    fn occupies(&self, c: (usize, usize)) -> (r: bool)
        ensures
            r == self@.body.contains(c),
    {
        let mut i: usize = 0;
        while i < self.pos.len()
            invariant
                i <= self.pos@.len(),
                forall|j: int| 0 <= j < i ==> self.pos@[j] != c,
            decreases self.pos@.len() - i,
        {
            let p = self.pos[i];
            if p.0 == c.0 && p.1 == c.1 {
                assert(self.pos@[i as int] == c);
                return true;
            }
            i += 1;
        }
        false
    }

    /// Moves the snake one step on a board of size `range`, eating `food` if
    /// the head lands on it and setting `exit` when the step is blocked. Once
    /// `exit` is set, or while the snake stands still, nothing changes.
    pub fn move_heads(&mut self, food: &mut Food, range: (usize, usize), exit: &mut bool)
        requires
            old(self).wf(),
        ensures
            final(self).wf(),
            (final(self)@, *final(food), *final(exit)) == advance(
                old(self)@,
                *old(food),
                range,
                *old(exit),
            ),
    {
        if *exit || self.dir == Directions::Stop {
            return;
        }
        let (hx, hy) = self.pos[0];
        let next: Option<(usize, usize)> = match self.dir {
            Directions::Up => {
                if 3 <= hy && hy - 1 < range.1 {
                    Some((hx, hy - 1))
                } else {
                    None
                }
            },
            Directions::Down => {
                if 1 <= hy && hy < range.1 && hy + 1 < range.1 {
                    Some((hx, hy + 1))
                } else {
                    None
                }
            },
            Directions::Right => {
                if 1 <= hx && hx < range.0 && hx + 1 < range.0 {
                    Some((hx + 1, hy))
                } else {
                    None
                }
            },
            Directions::Left => {
                if 3 <= hx && hx - 1 < range.0 {
                    Some((hx - 1, hy))
                } else {
                    None
                }
            },
            Directions::Stop => None,
        };
        match next {
            None => {
                *exit = true;
            },
            Some(n) => {
                assert(n == next_head(self@.body[0], self.dir));
                if self.occupies(n) {
                    *exit = true;
                } else {
                    proof {
                        lemma_drop_tail(self@.body, n);
                    }
                    let eats = match *food {
                        Food::Exists(fx, fy) => fx == n.0 && fy == n.1,
                        Food::Eaten => false,
                    };
                    if eats {
                        *food = Food::Eaten;
                    } else {
                        self.pos.pop_back();
                    }
                    proof {
                        lemma_push_head(self.pos@, n);
                    }
                    self.pos.push_front(n);
                }
            },
        }
    }

    /// Turns towards `dir`, unless it reverses the current heading or is `Stop`.
    pub fn change_dir(&mut self, dir: Directions)
        ensures
            final(self)@.body == old(self)@.body,
            final(self)@.dir == turned(old(self)@.dir, dir),
    {
        match dir {
            Directions::Up => {
                if self.dir != Directions::Down {
                    self.dir = dir;
                }
            },
            Directions::Down => {
                if self.dir != Directions::Up {
                    self.dir = dir;
                }
            },
            Directions::Right => {
                if self.dir != Directions::Left {
                    self.dir = dir;
                }
            },
            Directions::Left => {
                if self.dir != Directions::Right {
                    self.dir = dir;
                }
            },
            Directions::Stop => {},
        }
    }
}

} // verus!
