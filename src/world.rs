use crate::grid::{col_of, lemma_cell_parts, lemma_next_cell_on_board, next_cell, row_of, Direction};
use crate::laws::lemma_step_keeps_valid;
use vstd::prelude::*;

verus! {

/// One segment of the snake: a flat index `row * width + col` on the board.
#[derive(Clone, Copy, Debug, PartialEq, Eq, Structural)]
pub struct SnakeCell(pub usize);

/// Where a game stands.
#[derive(Clone, Copy, Debug, PartialEq, Eq, Structural)]
pub enum GameStatus {
    Paused,
    Played,
    Win,
    Lost,
}

/// Why a world could not be built.
#[derive(Clone, Copy, Debug, PartialEq, Eq, Structural)]
pub enum WorldError {
    /// The width is zero, the board is too large for the machine, or the
    /// three segments of the snake do not fit on the spawn's row left of
    /// the spawn index.
    InvalidArgument,
}

struct Snake {
    body: Vec<SnakeCell>,
    direction: Direction,
}

/// The body of a snake of `length` segments whose head is at `spawn`, laid
/// out towards lower indices.
pub open spec fn spawned_body(spawn: int, length: int) -> Seq<int> {
    Seq::new(length as nat, |i: int| spawn - i)
}

impl Snake {
    fn new(spawn_index: usize, size: usize) -> (r: Snake)
        requires
            size <= spawn_index + 1,
        ensures
            r.body@.map_values(|c: SnakeCell| c.0 as int) == spawned_body(
                spawn_index as int,
                size as int,
            ),
            r.direction == Direction::Right,
    {
        let mut body: Vec<SnakeCell> = Vec::new();
        let mut i: usize = 0;
        while i < size
            invariant
                i <= size,
                size <= spawn_index + 1,
                body@.len() == i,
                forall|j: int| 0 <= j < i ==> #[trigger] body@[j].0 == spawn_index - j,
            decreases size - i,
        {
            body.push(SnakeCell(spawn_index - i));
            i = i + 1;
        }
        assert(body@.map_values(|c: SnakeCell| c.0 as int) =~= spawned_body(
            spawn_index as int,
            size as int,
        ));
        Snake { body, direction: Direction::Right }
    }
}

/// What a world holds, in mathematical terms.
pub struct WorldView {
    pub width: int,
    /// The cells of the snake, head first.
    pub body: Seq<int>,
    pub direction: Direction,
    /// The reward cell; `size()` when the board is full. While a reward is
    /// awaited it is the cell last eaten, or the spawn of a new world.
    pub reward: int,
    /// The reward was eaten and a new one waits to be placed.
    pub reward_pending: bool,
    pub status: GameStatus,
}

impl WorldView {
    pub open spec fn size(self) -> int {
        self.width * self.width
    }

    pub open spec fn head(self) -> int {
        self.body[0]
    }

    /// The rules that hold of every world at all times.
    pub open spec fn valid(self) -> bool {
        &&& self.width > 0
        &&& self.size() <= usize::MAX
        &&& 3 <= self.body.len() <= self.size()
        &&& forall|i: int| 0 <= i < self.body.len() ==> 0 <= #[trigger] self.body[i] < self.size()
        &&& self.reward_pending ==> self.body.len() < self.size() && 0 <= self.reward < self.size()
        &&& !self.reward_pending ==> {
            ||| (self.reward == self.size() && self.body.len() == self.size())
            ||| (0 <= self.reward < self.size() && self.body.len() < self.size()
                && !self.body.contains(self.reward))
        }
    }

    /// The same world with the snake heading in direction `d`.
    pub open spec fn with_direction(self, d: Direction) -> WorldView {
        WorldView { direction: d, ..self }
    }

    /// Where the head goes on the next tick.
    pub open spec fn next_head(self) -> int {
        next_cell(self.width, self.head(), self.direction)
    }

    /// A turn towards `d` is refused when it would send the head straight
    /// into the segment behind it.
    pub open spec fn turned(self, d: Direction) -> WorldView {
        if next_cell(self.width, self.head(), d) == self.body[1] {
            self
        } else {
            self.with_direction(d)
        }
    }

    /// Every segment moves into the cell its predecessor held, the head
    /// into the next cell; the old tail cell is left.
    pub open spec fn moved_body(self) -> Seq<int> {
        seq![self.next_head()] + self.body.subrange(0, self.body.len() - 1)
    }

    /// The head lands on one of the other segments.
    pub open spec fn collides(self) -> bool {
        let m = self.moved_body();
        exists|i: int| 1 <= i < m.len() && #[trigger] m[i] == m[0]
    }

    /// The head lands on a placed reward.
    pub open spec fn eats(self) -> bool {
        !self.reward_pending && self.reward == self.next_head()
    }

    /// The body after a tick: on a reward the snake grows by a copy of the
    /// segment before its last one.
    pub open spec fn stepped_body(self) -> Seq<int> {
        let m = self.moved_body();
        if self.eats() {
            m.push(m[m.len() - 2])
        } else {
            m
        }
    }

    /// The world after one tick.
    pub open spec fn stepped(self) -> WorldView {
        let b = self.stepped_body();
        WorldView {
            body: b,
            status: if self.collides() {
                GameStatus::Lost
            } else {
                self.status
            },
            reward: if self.eats() && b.len() == self.size() {
                self.size()
            } else {
                self.reward
            },
            reward_pending: self.reward_pending || (self.eats() && b.len() < self.size()),
            ..self
        }
    }

    /// The world after a call of `step`: a game in play advances by one
    /// tick; any other game stays as it is.
    pub open spec fn ticked(self) -> WorldView {
        if self.status == GameStatus::Played {
            self.stepped()
        } else {
            self
        }
    }

    /// A candidate for the next reward is taken when one is awaited and
    /// the cell is on the board and free of the snake.
    pub open spec fn accepts_reward(self, candidate: int) -> bool {
        self.reward_pending && 0 <= candidate < self.size() && !self.body.contains(candidate)
    }

    /// The world after the candidate cell was offered as the next reward.
    pub open spec fn with_reward(self, candidate: int) -> WorldView {
        if self.accepts_reward(candidate) {
            WorldView { reward: candidate, reward_pending: false, ..self }
        } else {
            self
        }
    }

    /// The world as it is built: a snake of three segments heading right,
    /// paused, with its first reward still to be placed.
    pub open spec fn initial(width: int, spawn: int) -> WorldView {
        WorldView {
            width,
            body: spawned_body(spawn, 3),
            direction: Direction::Right,
            reward: spawn,
            reward_pending: true,
            status: GameStatus::Paused,
        }
    }
}

/// The arguments with which a world can be built.
pub open spec fn valid_arguments(width: int, spawn: int) -> bool {
    &&& width > 0
    &&& width * width <= usize::MAX
    &&& 2 <= spawn < width * width
    &&& spawn % width >= 2
}

/// The board, the snake on it, the reward cell and the state of the game.
pub struct World {
    width: usize,
    size: usize,
    snake: Snake,
    reward_cell: usize,
    reward_pending: bool,
    game_status: GameStatus,
}

impl View for World {
    type V = WorldView;

    closed spec fn view(&self) -> WorldView {
        WorldView {
            width: self.width as int,
            body: self.snake.body@.map_values(|c: SnakeCell| c.0 as int),
            direction: self.snake.direction,
            reward: self.reward_cell as int,
            reward_pending: self.reward_pending,
            status: self.game_status,
        }
    }
}

impl World {
    /// The world is well formed.
    pub closed spec fn wf(&self) -> bool {
        &&& self@.valid()
        &&& self.size == self.width * self.width
    }

    /// A well-formed world follows the rules of `WorldView::valid`.
    pub proof fn lemma_wf_valid(&self)
        requires
            self.wf(),
        ensures
            self@.valid(),
    {
    }

    /// Builds a world on a `width` by `width` board with a snake of three
    /// segments whose head is at `snake_idx`. The first reward is placed
    /// afterwards, through `place_reward`.
    pub fn new(width: usize, snake_idx: usize) -> (r: Result<World, WorldError>)
        ensures
            match r {
                Ok(w) => valid_arguments(width as int, snake_idx as int) && w.wf() && w@
                    == WorldView::initial(width as int, snake_idx as int),
                Err(e) => !valid_arguments(width as int, snake_idx as int) && e
                    == WorldError::InvalidArgument,
            },
    {
        if width == 0 {
            return Err(WorldError::InvalidArgument);
        }
        let size = match width.checked_mul(width) {
            Some(s) => s,
            None => {
                assert(width * width > usize::MAX);
                return Err(WorldError::InvalidArgument);
            },
        };
        if snake_idx < 2 || snake_idx >= size || snake_idx % width < 2 {
            return Err(WorldError::InvalidArgument);
        }
        let snake = Snake::new(snake_idx, 3);
        let world = World {
            width,
            size,
            snake,
            reward_cell: snake_idx,
            reward_pending: true,
            game_status: GameStatus::Paused,
        };
        proof {
            assert(world@.body =~= spawned_body(snake_idx as int, 3));
            assert(forall|i: int| 0 <= i < 3 ==> 0 <= #[trigger] world@.body[i] < size);
            assert(width * width >= 4) by (nonlinear_arith)
                requires
                    width >= 1,
                    width * width >= 3,
            ;
        }
        Ok(world)
    }

    pub fn width(&self) -> (r: usize)
        ensures
            r == self@.width,
    {
        self.width
    }

    /// The number of cells on the board.
    pub fn size(&self) -> (r: usize)
        requires
            self.wf(),
        ensures
            r == self@.size(),
    {
        self.size
    }

    pub fn game_status(&self) -> (r: GameStatus)
        ensures
            r == self@.status,
    {
        self.game_status
    }

    /// Sets the status, whatever it was before.
    pub fn set_game_status(&mut self, new_status: GameStatus)
        requires
            old(self).wf(),
        ensures
            final(self).wf(),
            final(self)@ == (WorldView { status: new_status, ..old(self)@ }),
    {
        self.game_status = new_status;
    }

    pub fn snake_direction(&self) -> (r: Direction)
        ensures
            r == self@.direction,
    {
        self.snake.direction
    }

    pub fn snake_head_idx(&self) -> (r: usize)
        requires
            self.wf(),
        ensures
            r == self@.head(),
    {
        self.snake.body[0].0
    }

    /// The cells of the snake, head first.
    pub fn get_snake_cells(&self) -> (r: &[SnakeCell])
        ensures
            r@.map_values(|c: SnakeCell| c.0 as int) == self@.body,
    {
        self.snake.body.as_slice()
    }

    /// The reward cell; `size()` once the board is full. Meaningful while
    /// no reward is awaited.
    pub fn get_reward_cell(&self) -> (r: usize)
        ensures
            r == self@.reward,
    {
        self.reward_cell
    }

    pub fn snake_length(&self) -> (r: usize)
        ensures
            r == self@.body.len(),
    {
        self.snake.body.len()
    }

    /// A new reward must be placed before the game goes on.
    pub fn needs_reward(&self) -> (r: bool)
        ensures
            r == self@.reward_pending,
    {
        self.reward_pending
    }

    fn index_to_cell(&self, idx: usize) -> (r: (usize, usize))
        requires
            self.wf(),
            idx < self.size,
        ensures
            r.0 == row_of(self.width as int, idx as int),
            r.1 == col_of(self.width as int, idx as int),
            r.0 < self.width,
            r.1 < self.width,
    {
        proof {
            lemma_cell_parts(self.width as int, idx as int);
        }
        (idx / self.width, idx % self.width)
    }

    fn cell_to_index(&self, row: usize, col: usize) -> (r: usize)
        requires
            self.wf(),
            row < self.width,
            col < self.width,
        ensures
            r == row * self.width + col,
            r < self.size,
    {
        proof {
            let w = self.width as int;
            assert(row * w + col < w * w) by (nonlinear_arith)
                requires
                    0 <= row < w,
                    0 <= col < w,
            ;
        }
        (row * self.width) + col
    }

    /// The cell that the head reaches when it moves in direction `d`.
    fn next_cell_towards(&self, d: Direction) -> (r: SnakeCell)
        requires
            self.wf(),
        ensures
            r.0 == next_cell(self@.width, self@.head(), d),
            r.0 < self@.size(),
    {
        let snake_idx = self.snake.body[0].0;
        let w = self.width;
        proof {
            assert(self@.body[0] == snake_idx as int);
        }
        let (row, col) = self.index_to_cell(snake_idx);
        proof {
            lemma_next_cell_on_board(w as int, snake_idx as int, d);
            assert(w + w - 1 <= w * w) by (nonlinear_arith)
                requires
                    w >= 1,
            ;
        }
        let (new_row, new_col) = match d {
            Direction::Right => (row, (col + 1) % w),
            Direction::Left => (row, (col + w - 1) % w),
            Direction::Up => ((row + w - 1) % w, col),
            Direction::Down => ((row + 1) % w, col),
        };
        SnakeCell(self.cell_to_index(new_row, new_col))
    }

    fn generate_next_snake_cell(&self) -> (r: SnakeCell)
        requires
            self.wf(),
        ensures
            r.0 == self@.next_head(),
            r.0 < self@.size(),
    {
        self.next_cell_towards(self.snake.direction)
    }

    /// Turns the snake towards `new_direction`, unless that would send the
    /// head straight into the segment behind it; then nothing changes.
    pub fn change_snake_direction(&mut self, new_direction: Direction)
        requires
            old(self).wf(),
        ensures
            final(self).wf(),
            final(self)@ == old(self)@.turned(new_direction),
    {
        let next = self.next_cell_towards(new_direction);
        if next != self.snake.body[1] {
            self.snake.direction = new_direction;
        }
        proof {
            assert(self@ =~= old(self)@.turned(new_direction));
        }
    }

    fn set_snake_head(&mut self, idx: SnakeCell)
        requires
            old(self).snake.body.len() > 0,
        ensures
            final(self).snake.body@ == old(self).snake.body@.update(0, idx),
            final(self).snake.direction == old(self).snake.direction,
            final(self).width == old(self).width,
            final(self).size == old(self).size,
            final(self).reward_cell == old(self).reward_cell,
            final(self).reward_pending == old(self).reward_pending,
            final(self).game_status == old(self).game_status,
    {
        self.snake.body.set(0, idx);
    }
}


impl World {
    /// Offers `candidate` as the next reward cell. It is taken, and `true`
    /// returned, when a reward is awaited and the cell is on the board and
    /// free of the snake; otherwise nothing changes.
    pub fn place_reward(&mut self, candidate: usize) -> (r: bool)
        requires
            old(self).wf(),
        ensures
            final(self).wf(),
            r == old(self)@.accepts_reward(candidate as int),
            final(self)@ == old(self)@.with_reward(candidate as int),
    {
        if !self.reward_pending || candidate >= self.size {
            return false;
        }
        if self.occupies(candidate) {
            return false;
        }
        self.reward_cell = candidate;
        self.reward_pending = false;
        true
    }

    /// Some segment of the snake lies on `idx`.
    fn occupies(&self, idx: usize) -> (r: bool)
        ensures
            r == self@.body.contains(idx as int),
    {
        let mut i: usize = 0;
        while i < self.snake.body.len()
            invariant
                i <= self.snake.body.len(),
                forall|j: int| 0 <= j < i ==> self@.body[j] != idx as int,
            decreases self.snake.body.len() - i,
        {
            if self.snake.body[i].0 == idx {
                assert(self@.body[i as int] == idx as int);
                return true;
            }
            i = i + 1;
        }
        false
    }

    /// Advances a game in play by one tick: the head moves one cell in the
    /// current direction and the rest of the body follows it. A head that
    /// lands on another segment loses the game. A head that lands on the
    /// reward grows the snake; the next reward is then awaited, unless the
    /// snake now covers the whole board, where the reward cell becomes
    /// `size()`. A game that is not in play is left as it is.
    pub fn step(&mut self)
        requires
            old(self).wf(),
        ensures
            final(self).wf(),
            final(self)@ == old(self)@.ticked(),
            old(self)@.status != GameStatus::Played ==> final(self)@ == old(self)@,
            final(self)@.body.len() >= old(self)@.body.len(),
    {
        if self.game_status != GameStatus::Played {
            return;
        }
        let ghost ob = self.snake.body@;
        let next = self.generate_next_snake_cell();
        let len = self.snake.body.len();
        let mut i: usize = len - 1;
        while i > 0
            invariant
                ob == old(self).snake.body@,
                len == ob.len(),
                len >= 3,
                i < len,
                self.snake.body@.len() == len,
                self.snake.direction == old(self).snake.direction,
                self.width == old(self).width,
                self.size == old(self).size,
                self.reward_cell == old(self).reward_cell,
                self.reward_pending == old(self).reward_pending,
                self.game_status == old(self).game_status,
                forall|j: int| 0 <= j <= i ==> self.snake.body@[j] == ob[j],
                forall|j: int| i < j < len ==> self.snake.body@[j] == ob[j - 1],
            decreases i,
        {
            let prev = self.snake.body[i - 1];
            self.snake.body.set(i, prev);
            i = i - 1;
        }
        self.set_snake_head(next);
        proof {
            let ov = old(self)@;
            assert(self@.body =~= ov.moved_body());
        }
        let mut k: usize = 1;
        let mut hit = false;
        while k < len
            invariant
                1 <= k <= len,
                len == self.snake.body@.len(),
                self.snake.body@[0] == next,
                hit <==> exists|j: int| 1 <= j < k && #[trigger] self.snake.body@[j] == next,
            decreases len - k,
        {
            if self.snake.body[k] == next {
                hit = true;
            }
            k = k + 1;
        }
        proof {
            let m = old(self)@.moved_body();
            assert(m == self@.body);
            if hit {
                let j = choose|j: int| 1 <= j < len && #[trigger] self.snake.body@[j] == next;
                assert(m[j] == m[0]);
            }
            if old(self)@.collides() {
                let j = choose|j: int| 1 <= j < m.len() && #[trigger] m[j] == m[0];
                assert(self.snake.body@[j] == next);
            }
        }
        if hit {
            self.game_status = GameStatus::Lost;
        }
        if !self.reward_pending && self.reward_cell == next.0 {
            let extra = self.snake.body[len - 2];
            self.snake.body.push(extra);
            if self.snake.body.len() == self.size {
                self.reward_cell = self.size;
            } else {
                self.reward_pending = true;
            }
        }
        proof {
            let ov = old(self)@;
            assert(self@.body =~= ov.stepped_body());
            assert(self@ =~= ov.stepped());
            lemma_step_keeps_valid(ov);
        }
    }
}

} // verus!
