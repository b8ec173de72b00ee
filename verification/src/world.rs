//! The game engine: a `World` owns the grid size, the snake, the reward
//! cell, the score and the game status, and advances the simulation one
//! discrete step per call.

use crate::grid;
use crate::grid::Direction;
use crate::grid::next_index_spec;
use crate::rng::XorShiftRng;
use crate::snake::SnakeCell;
use crate::snake::Snake;
use crate::snake::cell_indices;
use crate::snake::clone_cells;
use crate::snake::contains_cell_from;
use crate::snake::occupied_from;
use vstd::prelude::*;
use vstd::seq_lib::seq_to_set_is_finite;
use vstd::set_lib::lemma_int_range;
use vstd::set_lib::lemma_len_subset;
use vstd::set_lib::set_int_range;
use vstd::string::StringExecFns;

verus! {

/// The status of a game in progress or finished.
#[derive(Clone, Copy, PartialEq, Eq, Structural, Debug)]
pub enum GameStatus {
    Won,
    Lost,
    Played,
}

/// The mathematical model of a `World`: every observable piece of its state.
#[verifier::ext_equal]
pub ghost struct WorldView {
    /// Side length of the square grid.
    pub width: int,
    /// Total number of cells, `width * width`.
    pub size: int,
    /// Cell indices of the snake body, head first.
    pub body: Seq<int>,
    /// Current movement direction.
    pub direction: Direction,
    /// Pending head cell buffered by an accepted direction change.
    pub next_cell: Option<int>,
    /// Current reward cell, `None` only once the game has been won.
    pub reward_cell: Option<int>,
    /// Game status; `None` before the game is started.
    pub status: Option<GameStatus>,
    /// Number of rewards eaten.
    pub points: int,
}

/// The head cell the next step will move to: the buffered pending cell if a
/// direction change was accepted, otherwise one straight step ahead.
pub open spec fn step_new_head(v: WorldView) -> int {
    match v.next_cell {
        Some(c) => c,
        None => next_index_spec(v.width, v.body[0], v.direction),
    }
}

/// The body after the follow-the-leader shift: the head moves to the new
/// cell and every other segment takes the previous position of the segment
/// ahead of it.
pub open spec fn step_shifted(v: WorldView) -> Seq<int> {
    Seq::new(v.body.len(), |i: int| if i == 0 { step_new_head(v) } else { v.body[i - 1] })
}

/// True when the new head lands on one of the other segments of the shifted
/// body.
pub open spec fn step_collided(v: WorldView) -> bool {
    exists|k: int| 1 <= k < v.body.len() && step_shifted(v)[k] == step_new_head(v)
}

/// True when the new head lands on the reward cell.
pub open spec fn step_ate(v: WorldView) -> bool {
    v.reward_cell == Some(step_new_head(v))
}

/// Well-formedness of a world model, maintained by every operation.
pub open spec fn inv_view(v: WorldView) -> bool {
    &&& 2 <= v.width
    &&& v.size == v.width * v.width
    &&& 4 <= v.size
    &&& v.size <= usize::MAX
    &&& 3 <= v.body.len() <= v.size
    &&& 0 <= v.points
    &&& v.points + 3 <= v.body.len()
    &&& forall|k: int| 0 <= k < v.body.len() ==> 0 <= #[trigger] v.body[k] < v.size
    &&& (v.next_cell matches Some(c) ==> 0 <= c < v.size && c == next_index_spec(
        v.width,
        v.body[0],
        v.direction,
    ))
    &&& (v.reward_cell matches Some(c) ==> 0 <= c < v.size && !v.body.contains(c))
    &&& (v.status == Some(GameStatus::Won) <==> v.reward_cell is None)
    &&& (v.status is None ==> v.body.len() == 3 && v.points == 0)
}

/// The game world.
pub struct World {
    width: usize,
    size: usize,
    snake: Snake,
    next_cell: Option<SnakeCell>,
    reward_cell: Option<usize>,
    status: Option<GameStatus>,
    points: usize,
    rng: XorShiftRng,
}

impl View for World {
    type V = WorldView;

    closed spec fn view(&self) -> WorldView {
        WorldView {
            width: self.width as int,
            size: self.size as int,
            body: cell_indices(self.snake.body@),
            direction: self.snake.direction,
            next_cell: match self.next_cell {
                Some(c) => Some(c.0 as int),
                None => None,
            },
            reward_cell: match self.reward_cell {
                Some(c) => Some(c as int),
                None => None,
            },
            status: self.status,
            points: self.points as int,
        }
    }
}

/// A sequence shorter than `max` cannot contain every value in `[0, max)`.
proof fn lemma_missing_cell(s: Seq<int>, max: int)
    requires
        s.len() < max,
    ensures
        exists|v: int| 0 <= v < max && !s.contains(v),
{
    if forall|v: int| 0 <= v < max ==> #[trigger] s.contains(v) {
        let range = set_int_range(0, max);
        lemma_int_range(0, max);
        assert(forall|v: int| range.contains(v) ==> #[trigger] s.to_set().contains(v));
        assert(range.subset_of(s.to_set()));
        seq_to_set_is_finite(s);
        lemma_len_subset(range, s.to_set());
        s.lemma_cardinality_of_set();
        assert(false);
    }
    assert(!(forall|v: int| 0 <= v < max ==> #[trigger] s.contains(v)));
}

/// Reversal rejection.  In any well-formed world the next step moves the
/// head to `step_shifted(v)[0]` and leaves the old head behind as the neck
/// `step_shifted(v)[1]`, and the candidate cell for a turn into the
/// direction opposite to the one travelled is exactly that neck.  By the
/// contract of `change_snake_dir`, requesting such a reversal after the
/// step leaves the world unchanged.
pub proof fn lemma_reversal_rejected_after_step(v: WorldView)
    requires
        inv_view(v),
    ensures
        next_index_spec(v.width, step_shifted(v)[0], grid::opposite(v.direction)) == step_shifted(
            v,
        )[1],
{
    assert(step_shifted(v)[0] == step_new_head(v));
    assert(step_shifted(v)[1] == v.body[0]);
    assert(step_new_head(v) == next_index_spec(v.width, v.body[0], v.direction));
    grid::lemma_opposite_inverse(v.width, v.body[0], v.direction);
}

/// `occupied_from` at position 0 agrees with membership in the index view.
proof fn lemma_occupied_iff_contains(body: Seq<SnakeCell>, v: int)
    ensures
        occupied_from(body, 0, v) == cell_indices(body).contains(v),
{
    if occupied_from(body, 0, v) {
        let k = choose|k: int| 0 <= k < body.len() && (#[trigger] body[k]).0 == v;
        assert(cell_indices(body)[k] == v);
    }
    if cell_indices(body).contains(v) {
        let k = choose|k: int| 0 <= k < cell_indices(body).len() && cell_indices(body)[k] == v;
        assert((body[k]).0 == v);
        assert(occupied_from(body, 0, v));
    }
}

impl World {
    /// Well-formedness of this world, established by `new` and preserved by
    /// every mutator.
    pub open spec fn inv(&self) -> bool {
        inv_view(self@)
    }

    /// A fresh world on a `width` x `width` grid, with a three-cell snake
    /// laid out backward from `snake_index` moving `Right`, a reward placed
    /// off the body, no status, and no points.  The random source is seeded
    /// from the constructor arguments; a host with its own entropy should
    /// use `new_seeded`.
    pub fn new(width: usize, snake_index: usize) -> (r: World)
        requires
            2 <= width,
            width * width <= usize::MAX,
            2 <= snake_index,
            snake_index < width * width,
        ensures
            r.inv(),
            r@.width == width,
            r@.size == width * width,
            r@.body == seq![snake_index as int, snake_index - 1, snake_index - 2],
            r@.direction == Direction::Right,
            r@.next_cell is None,
            r@.status is None,
            r@.points == 0,
            r@.reward_cell matches Some(c) && 0 <= c < width * width && !r@.body.contains(c),
    {
        World::new_seeded(width, snake_index, ((width as u64) << 32) ^ (snake_index as u64))
    }

    /// Like `new`, but with the random source seeded from `seed`, so the
    /// host decides the entropy behind reward placement and a game can be
    /// replayed exactly.
    pub fn new_seeded(width: usize, snake_index: usize, seed: u64) -> (r: World)
        requires
            2 <= width,
            width * width <= usize::MAX,
            2 <= snake_index,
            snake_index < width * width,
        ensures
            r.inv(),
            r@.width == width,
            r@.size == width * width,
            r@.body == seq![snake_index as int, snake_index - 1, snake_index - 2],
            r@.direction == Direction::Right,
            r@.next_cell is None,
            r@.status is None,
            r@.points == 0,
            r@.reward_cell matches Some(c) && 0 <= c < width * width && !r@.body.contains(c),
    {
        proof {
            assert(4 <= width * width) by (nonlinear_arith)
                requires
                    2 <= width,
            ;
        }
        let size = width * width;
        let snake = Snake::new(snake_index, 3);
        let mut rng = XorShiftRng::new(seed);
        let reward_cell = World::gen_reward_cell(&mut rng, size, &snake.body);
        let r = World {
            width,
            size,
            snake,
            next_cell: None,
            reward_cell,
            status: None,
            points: 0,
            rng,
        };
        proof {
            assert(r@.body =~= seq![snake_index as int, snake_index - 1, snake_index - 2]);
            if let Some(c) = r@.reward_cell {
                lemma_occupied_iff_contains(r.snake.body@, c);
            }
        }
        r
    }

    /// A reward cell drawn from the random source until it misses the snake
    /// body; after a bounded number of draws the first free cell is taken
    /// instead, so placement terminates even against an adversarial source.
    fn gen_reward_cell(rng: &mut XorShiftRng, max: usize, snake_body: &Vec<SnakeCell>) -> (r:
        Option<usize>)
        requires
            0 < max,
            snake_body@.len() < max,
        ensures
            r matches Some(c) && c < max && !cell_indices(snake_body@).contains(c as int),
    {
        let mut attempts: usize = 0;
        while attempts < 64
            invariant
                0 < max,
            decreases 64 - attempts,
        {
            let candidate = rng.below(max);
            let occ = contains_cell_from(snake_body, 0, candidate);
            proof {
                lemma_occupied_iff_contains(snake_body@, candidate as int);
            }
            if !occ {
                return Some(candidate);
            }
            attempts = attempts + 1;
        }
        let mut cand: usize = 0;
        while cand < max
            invariant
                cand <= max,
                0 < max,
                snake_body@.len() < max,
                forall|j: int| 0 <= j < cand ==> cell_indices(snake_body@).contains(j),
            decreases max - cand,
        {
            let occ = contains_cell_from(snake_body, 0, cand);
            proof {
                lemma_occupied_iff_contains(snake_body@, cand as int);
            }
            if !occ {
                return Some(cand);
            }
            cand = cand + 1;
        }
        proof {
            lemma_missing_cell(cell_indices(snake_body@), max as int);
            assert(false);
        }
        None
    }

    /// Side length of the grid.
    pub fn width(&self) -> (r: usize)
        ensures
            r == self@.width,
    {
        self.width
    }

    /// Number of rewards eaten so far.
    pub fn points(&self) -> (r: usize)
        ensures
            r == self@.points,
    {
        self.points
    }

    /// The current reward cell, `None` once the game has been won.
    pub fn reward_cell(&self) -> (r: Option<usize>)
        ensures
            match r {
                Some(c) => self@.reward_cell == Some(c as int),
                None => self@.reward_cell is None,
            },
    {
        self.reward_cell
    }

    /// Cell index of the snake's head.
    pub fn snake_head_index(&self) -> (r: usize)
        requires
            1 <= self@.body.len(),
        ensures
            r == self@.body[0],
    {
        self.snake.body[0].0
    }

    /// Starts the game: the status moves from `None` to `Played`; nothing
    /// else changes.
    pub fn start_game(&mut self)
        requires
            old(self).inv(),
            old(self)@.status is None,
        ensures
            final(self).inv(),
            final(self)@ == (WorldView { status: Some(GameStatus::Played), ..old(self)@ }),
    {
        self.status = Some(GameStatus::Played);
    }

    /// The current game status, `None` before `start_game`.
    pub fn game_status(&self) -> (r: Option<GameStatus>)
        ensures
            r == self@.status,
    {
        self.status
    }

    /// A human-readable rendering of the game status.
    pub fn game_status_text(&self) -> (r: String)
        ensures
            self@.status is None ==> r@ == "Zzz"@,
            self@.status == Some(GameStatus::Played) ==> r@ == "Playing"@,
            self@.status == Some(GameStatus::Won) ==> r@ == "You have won"@,
            self@.status == Some(GameStatus::Lost) ==> r@ == "You have Lost"@,
    {
        match self.status {
            Some(GameStatus::Won) => String::from_str("You have won"),
            Some(GameStatus::Lost) => String::from_str("You have Lost"),
            Some(GameStatus::Played) => String::from_str("Playing"),
            None => String::from_str("Zzz"),
        }
    }

    /// Requests a direction change.  The candidate next head cell for the
    /// requested direction is computed; if it is the cell occupied by the
    /// snake's second segment (a reversal into its own neck) the request is
    /// silently ignored, otherwise the candidate is buffered in `next_cell`
    /// and the direction is updated.
    pub fn change_snake_dir(&mut self, direction: Direction)
        requires
            old(self).inv(),
        ensures
            final(self).inv(),
            ({
                let cand = next_index_spec(old(self)@.width, old(self)@.body[0], direction);
                if cand == old(self)@.body[1] {
                    final(self)@ == old(self)@
                } else {
                    final(self)@ == (WorldView {
                        direction: direction,
                        next_cell: Some(cand),
                        ..old(self)@
                    })
                }
            }),
    {
        let next_cell = self.gen_next_snake_cell(&direction);
        if self.snake.body[1].0 == next_cell.0 {
            return ;
        }
        self.next_cell = Some(next_cell);
        self.snake.direction = direction;
    }

    /// Number of cells in the snake body.
    pub fn snake_length(&self) -> (r: usize)
        ensures
            r == self@.body.len(),
    {
        self.snake.body.len()
    }

    /// A read-only view of the snake body, head first.
    pub fn snake_cells(&self) -> (r: &Vec<SnakeCell>)
        ensures
            cell_indices(r@) == self@.body,
    {
        &self.snake.body
    }

    /// Advances the simulation by one tick, as described by `step_new_head`,
    /// `step_shifted`, `step_collided` and `step_ate` over the old state:
    /// outside `Played` the call is a no-op; otherwise the body shifts
    /// forward behind the new head, a collision of the head with the rest of
    /// the body loses the game, and landing on the reward scores a point,
    /// grows the tail by one segment and re-places the reward — or, when the
    /// body has already filled the grid, ends the game with a win, with no
    /// growth and no point.
    ///
    /// The reward branch runs after the collision check, so on the rare tick
    /// where the head both collides with the body and consumes the final
    /// reward, the win takes precedence over the loss.
    pub fn step(&mut self)
        requires
            old(self).inv(),
        ensures
            final(self).inv(),
            old(self)@.status != Some(GameStatus::Played) ==> final(self)@ == old(self)@,
            old(self)@.status == Some(GameStatus::Played) ==> ({
                let v = old(self)@;
                let f = final(self)@;
                let grown = step_shifted(v).push(step_shifted(v)[1]);
                &&& f.width == v.width
                &&& f.size == v.size
                &&& f.direction == v.direction
                &&& f.next_cell is None
                &&& (!step_ate(v) ==> {
                    &&& f.body == step_shifted(v)
                    &&& f.points == v.points
                    &&& f.reward_cell == v.reward_cell
                    &&& f.status == (if step_collided(v) {
                        Some(GameStatus::Lost)
                    } else {
                        Some(GameStatus::Played)
                    })
                })
                &&& (step_ate(v) && v.body.len() < v.size ==> {
                    &&& f.body == grown
                    &&& f.points == v.points + 1
                    &&& (f.reward_cell matches Some(c) && 0 <= c < v.size && !grown.contains(c))
                    &&& f.status == (if step_collided(v) {
                        Some(GameStatus::Lost)
                    } else {
                        Some(GameStatus::Played)
                    })
                })
                &&& (step_ate(v) && v.body.len() >= v.size ==> {
                    &&& f.body == step_shifted(v)
                    &&& f.points == v.points
                    &&& f.reward_cell is None
                    &&& f.status == Some(GameStatus::Won)
                })
            }),
    {
        let ghost v = old(self)@;
        let is_played = match self.status {
            Some(GameStatus::Played) => true,
            _ => false,
        };
        if !is_played {
            return ;
        }
        let temp = clone_cells(&self.snake.body);
        let new_head: SnakeCell = match self.next_cell {
            Some(cell) => {
                self.next_cell = None;
                cell
            },
            None => self.gen_next_snake_cell(&self.snake.direction),
        };
        let mut new_body: Vec<SnakeCell> = Vec::new();
        new_body.push(new_head);
        let mut i: usize = 1;
        while i < temp.len()
            invariant
                1 <= i <= temp@.len(),
                new_body@.len() == i,
                new_body@[0] == new_head,
                forall|j: int| 1 <= j < i ==> new_body@[j] == temp@[j - 1],
            decreases temp@.len() - i,
        {
            let cell = temp[i - 1];
            new_body.push(cell);
            i = i + 1;
        }
        self.snake.body = new_body;
        proof {
            assert(self@.body =~= step_shifted(v));
        }
        let head_idx = new_head.0;
        let collided = contains_cell_from(&self.snake.body, 1, head_idx);
        proof {
            assert(collided == step_collided(v)) by {
                if occupied_from(self.snake.body@, 1, head_idx as int) {
                    let k = choose|k: int|
                        1 <= k < self.snake.body@.len() && (#[trigger] self.snake.body@[k]).0
                            == head_idx;
                    assert(step_shifted(v)[k] == step_new_head(v));
                }
                if step_collided(v) {
                    let k = choose|k: int|
                        1 <= k < v.body.len() && step_shifted(v)[k] == step_new_head(v);
                    assert((self.snake.body@[k]).0 == head_idx);
                }
            }
        }
        if collided {
            self.status = Some(GameStatus::Lost);
        }
        let ate = match self.reward_cell {
            Some(rc) => rc == head_idx,
            None => false,
        };
        if ate {
            if self.snake.body.len() < self.size {
                self.points = self.points + 1;
                let r = World::gen_reward_cell(&mut self.rng, self.size, &self.snake.body);
                proof {
                    if let Some(c) = r {
                        lemma_occupied_iff_contains(self.snake.body@, c as int);
                    }
                }
                self.reward_cell = r;
                let neck = self.snake.body[1];
                self.snake.body.push(neck);
                proof {
                    assert(self@.body =~= step_shifted(v).push(step_shifted(v)[1]));
                }
            } else {
                self.reward_cell = None;
                self.status = Some(GameStatus::Won);
            }
        }
    }

    /// The cell one step ahead of the snake's head in direction `direction`.
    fn gen_next_snake_cell(&self, direction: &Direction) -> (r: SnakeCell)
        requires
            self.inv(),
        ensures
            r.0 == next_index_spec(self@.width, self@.body[0], *direction),
            r.0 < self@.size,
    {
        let snake_index = self.snake.body[0].0;
        proof {
            assert(self@.body[0] == self.snake.body@[0].0);
            assert(0 <= self@.body[0] < self@.size);
        }
        SnakeCell(grid::next_index(self.width, self.size, snake_index, *direction))
    }
}

} // verus!
