//! The engine: one discrete tick of the game, collision detection and
//! direction-change validation.

use vstd::prelude::*;

use crate::direction::{is_direction_conflict, is_opposite, Direction};
use crate::food::{contains_position, Food};
use crate::grid::generate_all_position;
use crate::position::{in_grid, Position};
use crate::snake::{copy_positions, remove_position, Snake};

verus! {

/// x-coordinate of the cell one step from `p` in heading `d`.
pub open spec fn target_x(p: Position, d: Direction) -> int {
    match d {
        Direction::Left => p.x - crate::SQUARE_SIZE,
        Direction::Right => p.x + crate::SQUARE_SIZE,
        _ => p.x as int,
    }
}

/// y-coordinate of the cell one step from `p` in heading `d`.
pub open spec fn target_y(p: Position, d: Direction) -> int {
    match d {
        Direction::Up => p.y - crate::SQUARE_SIZE,
        Direction::Down => p.y + crate::SQUARE_SIZE,
        _ => p.y as int,
    }
}

/// The cell one step from `p` in heading `d`.
pub open spec fn next_head(p: Position, d: Direction) -> Position {
    Position { x: target_x(p, d) as i16, y: target_y(p, d) as i16 }
}

/// `p` lies outside the board on either axis: each coordinate is
/// tested against its own dimension.
pub open spec fn off_board(p: Position) -> bool {
    ||| p.x < 0
    ||| p.x as int > crate::WINDOW_WIDTH_SIZE - crate::SQUARE_SIZE
    ||| p.y < 0
    ||| p.y as int > crate::WINDOW_HEIGHT_SIZE - crate::SQUARE_SIZE
}

/// Prepending a cell: membership grows by exactly that cell, and a
/// fresh cell keeps the list duplicate-free.
proof fn lemma_cons(s: Seq<Position>, p: Position)
    ensures
        forall|q: Position| (seq![p] + s).contains(q) <==> (q == p || s.contains(q)),
        !s.contains(p) && s.no_duplicates() ==> (seq![p] + s).no_duplicates(),
{
    let c = seq![p] + s;
    assert forall|q: Position| c.contains(q) implies (q == p || s.contains(q)) by {
        let i = choose|i: int| 0 <= i < c.len() && c[i] == q;
        if i > 0 {
            assert(s[i - 1] == q);
        }
    }
    assert forall|q: Position| q == p || s.contains(q) implies c.contains(q) by {
        if q == p {
            assert(c[0] == q);
        } else {
            let i = choose|i: int| 0 <= i < s.len() && s[i] == q;
            assert(c[i + 1] == q);
        }
    }
    if !s.contains(p) && s.no_duplicates() {
        assert forall|i: int, j: int| 0 <= i < c.len() && 0 <= j < c.len() && i != j implies c[i]
            != c[j] by {
            if i == 0 {
                assert(s[j - 1] == c[j]);
            } else if j == 0 {
                assert(s[i - 1] == c[i]);
            } else {
                assert(s[i - 1] == c[i] && s[j - 1] == c[j]);
            }
        }
    }
}

/// Appending a cell: membership grows by exactly that cell, and a
/// fresh cell keeps the list duplicate-free.
proof fn lemma_snoc(s: Seq<Position>, p: Position)
    ensures
        forall|q: Position| s.push(p).contains(q) <==> (q == p || s.contains(q)),
        !s.contains(p) && s.no_duplicates() ==> s.push(p).no_duplicates(),
{
    let c = s.push(p);
    assert forall|q: Position| c.contains(q) implies (q == p || s.contains(q)) by {
        let i = choose|i: int| 0 <= i < c.len() && c[i] == q;
        if i < s.len() {
            assert(s[i] == q);
        }
    }
    assert forall|q: Position| q == p || s.contains(q) implies c.contains(q) by {
        if q == p {
            assert(c[s.len() as int] == q);
        } else {
            let i = choose|i: int| 0 <= i < s.len() && s[i] == q;
            assert(c[i] == q);
        }
    }
    if !s.contains(p) && s.no_duplicates() {
        assert forall|i: int, j: int| 0 <= i < c.len() && 0 <= j < c.len() && i != j implies c[i]
            != c[j] by {
            if i < s.len() && j < s.len() {
                assert(s[i] == c[i] && s[j] == c[j]);
            } else if i < s.len() {
                assert(s[i] == c[i]);
            } else {
                assert(s[j] == c[j]);
            }
        }
    }
}

/// Dropping the last cell of a duplicate-free list: membership loses
/// exactly that cell.
proof fn lemma_drop_last(s: Seq<Position>)
    requires
        s.len() >= 1,
        s.no_duplicates(),
    ensures
        s.drop_last().no_duplicates(),
        forall|q: Position| s.drop_last().contains(q) <==> (s.contains(q) && q != s.last()),
{
    let d = s.drop_last();
    assert forall|q: Position| d.contains(q) implies (s.contains(q) && q != s.last()) by {
        let i = choose|i: int| 0 <= i < d.len() && d[i] == q;
        assert(s[i] == q);
        assert(s[i] != s[s.len() - 1]);
    }
    assert forall|q: Position| s.contains(q) && q != s.last() implies d.contains(q) by {
        let i = choose|i: int| 0 <= i < s.len() && s[i] == q;
        assert(i != s.len() - 1);
        assert(d[i] == q);
    }
}

/// The whole game state between ticks.
pub struct App {
    pub snake: Snake,
    pub food: Food,
    pub game_over: bool,
    pub all_position: Vec<Position>,
}

impl App {
    /// `all_position` lists every cell of the board, each once.
    pub open spec fn grid_ok(self) -> bool {
        &&& self.all_position@.no_duplicates()
        &&& forall|p: Position| self.all_position@.contains(p) <==> in_grid(
            p,
            crate::WINDOW_WIDTH_SIZE as int,
            crate::WINDOW_HEIGHT_SIZE as int,
        )
    }

    /// Well-formedness at a tick boundary: a non-empty,
    /// self-overlap-free body on the board, the membership set in
    /// step with the body, and the food on a free cell.
    pub open spec fn wf(self) -> bool {
        &&& self.snake.body@.len() >= 1
        &&& self.snake.body@.no_duplicates()
        &&& self.snake.set_matches_body()
        &&& forall|i: int| 0 <= i < self.snake.body@.len() ==> in_grid(
            #[trigger] self.snake.body@[i],
            crate::WINDOW_WIDTH_SIZE as int,
            crate::WINDOW_HEIGHT_SIZE as int,
        )
        &&& in_grid(
            self.food.position,
            crate::WINDOW_WIDTH_SIZE as int,
            crate::WINDOW_HEIGHT_SIZE as int,
        )
        &&& !self.snake.body@.contains(self.food.position)
        &&& self.grid_ok()
    }

    /// The provisional head (the body's front cell) has left the
    /// board or sits on a cell of the membership set.
    pub open spec fn collision_spec(self) -> bool {
        ||| off_board(self.snake.body@[0])
        ||| self.snake.body_set@.contains(self.snake.body@[0])
    }

    /// What one tick does to a well-formed state `pre`: the head
    /// advances one cell in the current heading; a wall or body cell
    /// there ends the game; landing on the food grows the body by one
    /// and relocates the food to a free cell (or ends the game when
    /// the board is full); any other move translates the body.
    pub open spec fn step_rel(pre: App, post: App) -> bool {
        let h = pre.snake.body@[0];
        let nh = next_head(h, pre.snake.direction);
        let w = crate::WINDOW_WIDTH_SIZE as int;
        let hh = crate::WINDOW_HEIGHT_SIZE as int;
        &&& post.snake.direction == pre.snake.direction
        &&& post.all_position@ == pre.all_position@
        &&& if off_board(nh) || pre.snake.body_set@.contains(nh) {
            // The move collides: the game ends with the head
            // prepended but the membership set and food untouched.
            &&& post.game_over
            &&& post.snake.body@ == seq![nh] + pre.snake.body@
            &&& post.snake.body_set@ == pre.snake.body_set@
            &&& post.food.position == pre.food.position
        } else if nh == pre.food.position {
            // The head lands on the food: the body keeps its tail and
            // grows by one.
            &&& post.snake.body@ == seq![nh] + pre.snake.body@
            &&& (forall|p: Position|
                post.snake.body_set@.contains(p) <==> (pre.snake.body_set@.contains(p) || p
                    == nh))
            &&& if exists|p: Position|
                in_grid(p, w, hh) && !(#[trigger] pre.snake.body@.contains(p)) && p != nh {
                // A free cell remains somewhere: the food moves to
                // one of them.
                &&& !post.game_over
                &&& in_grid(post.food.position, w, hh)
                &&& !post.snake.body@.contains(post.food.position)
            } else {
                // The board is full: a terminal state.
                &&& post.game_over
                &&& post.food.position == pre.food.position
            }
        } else {
            // A plain move: the head advances and the tail cell is
            // vacated, so the length is unchanged.
            &&& !post.game_over
            &&& post.snake.body@ == seq![nh] + pre.snake.body@.drop_last()
            &&& (forall|p: Position|
                post.snake.body_set@.contains(p) <==> ((pre.snake.body_set@.contains(p) && p
                    != pre.snake.body@.last()) || p == nh))
            &&& post.food.position == pre.food.position
        }
    }

    /// Law: after a tick that neither collides nor eats, the body
    /// length is unchanged and the new head is exactly one cell step
    /// from the previous head in the current heading.
    pub proof fn lemma_non_eating_tick(pre: App, post: App)
        requires
            pre.wf(),
            App::step_rel(pre, post),
            !off_board(next_head(pre.snake.body@[0], pre.snake.direction)),
            !pre.snake.body_set@.contains(next_head(pre.snake.body@[0], pre.snake.direction)),
            next_head(pre.snake.body@[0], pre.snake.direction) != pre.food.position,
        ensures
            post.snake.body@.len() == pre.snake.body@.len(),
            post.snake.body@[0] == next_head(pre.snake.body@[0], pre.snake.direction),
            !post.game_over,
    {
    }

    /// Law: after an eating tick that does not fill the board, the
    /// body grows by exactly one segment and the new food cell is not
    /// on the snake.
    pub proof fn lemma_eating_tick(pre: App, post: App)
        requires
            pre.wf(),
            App::step_rel(pre, post),
            !off_board(next_head(pre.snake.body@[0], pre.snake.direction)),
            !pre.snake.body_set@.contains(next_head(pre.snake.body@[0], pre.snake.direction)),
            next_head(pre.snake.body@[0], pre.snake.direction) == pre.food.position,
            !post.game_over,
        ensures
            post.snake.body@.len() == pre.snake.body@.len() + 1,
            !post.snake.body@.contains(post.food.position),
            !post.snake.body_set@.contains(post.food.position),
    {
        let nh = next_head(pre.snake.body@[0], pre.snake.direction);
        lemma_cons(pre.snake.body@, nh);
    }

    /// Law: a head that leaves the board on either axis ends the game
    /// on that tick.
    pub proof fn lemma_wall_collision(pre: App, post: App)
        requires
            App::step_rel(pre, post),
            off_board(next_head(pre.snake.body@[0], pre.snake.direction)),
        ensures
            post.game_over,
    {
    }

    /// Law: a head that lands on a cell of the membership set (in
    /// particular on any body cell other than the vacating tail) ends
    /// the game on that tick.
    pub proof fn lemma_self_collision(pre: App, post: App)
        requires
            App::step_rel(pre, post),
            pre.snake.body_set@.contains(next_head(pre.snake.body@[0], pre.snake.direction)),
        ensures
            post.game_over,
    {
    }

    /// Law: in any well-formed state between ticks, the food is not a
    /// member of the snake's body or membership set.
    pub proof fn lemma_food_free(st: App)
        requires
            st.wf(),
        ensures
            !st.snake.body@.contains(st.food.position),
            !st.snake.body_set@.contains(st.food.position),
    {
    }

    /// A fresh game on the fixed-size board: a one-cell snake, the
    /// food on a free cell, the full grid enumerated, game not over.
    pub fn new() -> (r: App)
        ensures
            r.wf(),
            !r.game_over,
            r.snake.body@.len() == 1,
    {
        let snake = Snake::new(crate::WINDOW_WIDTH_SIZE, crate::WINDOW_HEIGHT_SIZE);
        let food = Food::new(crate::WINDOW_WIDTH_SIZE, crate::WINDOW_HEIGHT_SIZE);
        let all_position = generate_all_position(crate::WINDOW_WIDTH_SIZE, crate::WINDOW_HEIGHT_SIZE);
        let mut app = App { snake, food, game_over: false, all_position };
        // The two random cells may coincide; move the food off the
        // snake in that case so that the boundary invariant holds
        // from the first tick on.
        if contains_position(&app.snake.body, app.food.position) {
            let all = copy_positions(&app.all_position);
            let body = copy_positions(&app.snake.body_set);
            match app.food.refresh_position(all, body) {
                Some(position) => {
                    app.food.position = position;
                },
                None => {
                    // Unreachable: a one-cell snake cannot cover both
                    // of these grid cells, so a free cell exists.
                    proof {
                        let a = Position { x: 0, y: 0 };
                        let b = Position { x: 0, y: crate::SQUARE_SIZE };
                        assert(app.all_position@.contains(a));
                        assert(app.all_position@.contains(b));
                        assert(false);
                    }
                },
            }
        }
        app
    }

    /// One tick: advance the snake, detect collisions and resolve
    /// food consumption, as `step_rel` describes.  A state already
    /// terminal is left untouched.
    pub fn update(&mut self)
        requires
            old(self).game_over || old(self).wf(),
        ensures
            old(self).game_over ==> *final(self) == *old(self),
            !old(self).game_over ==> Self::step_rel(*old(self), *final(self)),
            !old(self).game_over && !final(self).game_over ==> final(self).wf(),
    {
        if self.game_over {
            return ;
        }
        let ghost pre = *old(self);
        let ghost w = crate::WINDOW_WIDTH_SIZE as int;
        let ghost hh = crate::WINDOW_HEIGHT_SIZE as int;
        let prev_body_len = self.snake.body.len();
        let head = self.snake.body[0];
        proof {
            assert(in_grid(pre.snake.body@[0], w, hh));
        }
        let new_head = if matches!(self.snake.direction, Direction::Up) {
            Position { x: head.x, y: head.y - crate::SQUARE_SIZE }
        } else if matches!(self.snake.direction, Direction::Down) {
            Position { x: head.x, y: head.y + crate::SQUARE_SIZE }
        } else if matches!(self.snake.direction, Direction::Left) {
            Position { x: head.x - crate::SQUARE_SIZE, y: head.y }
        } else {
            Position { x: head.x + crate::SQUARE_SIZE, y: head.y }
        };
        proof {
            assert(new_head == next_head(pre.snake.body@[0], pre.snake.direction));
        }
        self.snake.body.insert(0, new_head);
        proof {
            assert(self.snake.body@ =~= seq![new_head] + pre.snake.body@);
            lemma_cons(pre.snake.body@, new_head);
        }

        if self.is_collision() {
            self.game_over = true;
            return ;
        }
        proof {
            assert(!off_board(new_head) && !pre.snake.body_set@.contains(new_head));
            assert(in_grid(new_head, w, hh));
            assert(!pre.snake.body@.contains(new_head));
        }

        if self.snake.body.len() != prev_body_len {
            self.snake.body_set.push(new_head);
        }
        proof {
            assert(self.snake.body_set@ == pre.snake.body_set@.push(new_head));
            lemma_snoc(pre.snake.body_set@, new_head);
        }

        if new_head.x == self.food.position.x && new_head.y == self.food.position.y {
            let all = copy_positions(&self.all_position);
            let body = copy_positions(&self.snake.body_set);
            let ghost mid_set = self.snake.body_set@;
            match self.food.refresh_position(all, body) {
                Some(position) => {
                    self.food.position = position;
                    proof {
                        assert(pre.all_position@.contains(position));
                        assert(in_grid(position, w, hh));
                        assert(!mid_set.contains(position));
                        assert(!pre.snake.body@.contains(position) && position != new_head);
                        assert(!self.snake.body@.contains(position));
                        assert(Self::step_rel(pre, *self));
                        assert(self.wf());
                    }
                },
                None => {
                    self.game_over = true;
                    proof {
                        assert forall|p: Position|
                            in_grid(p, w, hh) && !(#[trigger] pre.snake.body@.contains(p))
                                implies p == new_head by {
                            assert(pre.all_position@.contains(p));
                            assert(mid_set.contains(p));
                        }
                        assert(Self::step_rel(pre, *self));
                    }
                    return ;
                },
            }
        } else {
            let ghost mid_set = self.snake.body_set@;
            let tail = self.snake.body[self.snake.body.len() - 1];
            proof {
                assert(tail == pre.snake.body@.last());
                assert(pre.snake.body@.contains(tail));
                assert(new_head != tail);
            }
            remove_position(&mut self.snake.body_set, tail);
            self.snake.body.pop();
            proof {
                assert(self.snake.body@ =~= seq![new_head] + pre.snake.body@.drop_last());
                lemma_drop_last(pre.snake.body@);
                lemma_cons(pre.snake.body@.drop_last(), new_head);
                assert(new_head != pre.food.position);
                assert(Self::step_rel(pre, *self));
                assert(self.wf());
            }
        }
    }

    /// Apply an input event: the heading changes to `new_direction`
    /// unless that would be a 180-degree reversal, which is silently
    /// ignored.  Nothing else of the state moves.
    pub fn change_directions(&mut self, new_direction: Direction)
        ensures
            final(self).snake.direction == (if is_opposite(
                old(self).snake.direction,
                new_direction,
            ) {
                old(self).snake.direction
            } else {
                new_direction
            }),
            final(self).snake.body@ == old(self).snake.body@,
            final(self).snake.body_set@ == old(self).snake.body_set@,
            final(self).food == old(self).food,
            final(self).game_over == old(self).game_over,
            final(self).all_position@ == old(self).all_position@,
            old(self).wf() ==> final(self).wf(),
    {
        if !is_direction_conflict(&self.snake.direction, new_direction) {
            self.snake.direction = new_direction;
        }
    }

    /// Collision test against the provisional front cell of the body
    /// and the (pre-advance) membership set: outside the board on
    /// either axis, or on an occupied cell.
    pub fn is_collision(&self) -> (r: bool)
        requires
            self.snake.body@.len() >= 1,
        ensures
            r == self.collision_spec(),
    {
        let width_limit = crate::WINDOW_WIDTH_SIZE - crate::SQUARE_SIZE;
        let height_limit = crate::WINDOW_HEIGHT_SIZE - crate::SQUARE_SIZE;
        let head = self.snake.body[0];
        if head.x > width_limit || head.x < 0 {
            return true;
        }
        if head.y > height_limit || head.y < 0 {
            return true;
        }
        if contains_position(&self.snake.body_set, head) {
            return true;
        }
        false
    }
}

} // verus!
