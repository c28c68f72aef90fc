use crate::grid::{
    lemma_cell_parts, lemma_move_and_back, lemma_next_cell_on_board, next_cell,
    Direction,
};
use vstd::arithmetic::div_mod::lemma_fundamental_div_mod_converse;
use crate::world::{valid_arguments, GameStatus, WorldView};
use vstd::prelude::*;

verus! {

/// After a tick every cell stays on the board, the reward stays off the
/// snake, and a full board carries the sentinel reward: a valid world
/// steps to a valid world.
pub proof fn lemma_step_keeps_valid(v: WorldView)
    requires
        v.valid(),
    ensures
        v.stepped().valid(),
        v.ticked().valid(),
{
    let s = v.stepped();
    let len = v.body.len();
    lemma_next_cell_on_board(v.width, v.head(), v.direction);
    assert forall|j: int| 0 <= j < s.body.len() implies 0 <= #[trigger] s.body[j] < s.size() by {
        if j == 0 {
        } else if j < len {
            assert(s.body[j] == v.body[j - 1]);
        } else {
            assert(s.body[j] == v.body[len - 3]);
        }
    }
    if !s.reward_pending && s.reward < s.size() {
        if s.body.contains(s.reward) {
            let j = choose|j: int| 0 <= j < s.body.len() && s.body[j] == s.reward;
            assert(s.body[j] == v.body[j - 1]);
        }
    }
}

/// While a reward is placed on a board that is not full, no segment of
/// the snake lies on it; and a tick keeps it so.
pub proof fn lemma_reward_off_body(v: WorldView)
    requires
        v.valid(),
    ensures
        !v.reward_pending && v.reward != v.size() ==> !v.body.contains(v.reward),
        ({
            let s = v.ticked();
            !s.reward_pending && s.reward != s.size() ==> !s.body.contains(s.reward)
        }),
{
    lemma_step_keeps_valid(v);
}

/// A reward that was taken lies off the snake.
pub proof fn lemma_placed_reward_off_body(v: WorldView, candidate: int)
    requires
        v.valid(),
        v.accepts_reward(candidate),
    ensures
        !v.with_reward(candidate).reward_pending,
        !v.with_reward(candidate).body.contains(v.with_reward(candidate).reward),
{
}

/// A world as it is built follows the rules of `valid`; the first reward
/// that it takes lies on the board and off the snake.
pub proof fn lemma_initial_reward_off_body(width: int, spawn: int, candidate: int)
    requires
        valid_arguments(width, spawn),
        WorldView::initial(width, spawn).accepts_reward(candidate),
    ensures
        WorldView::initial(width, spawn).valid(),
        ({
            let w = WorldView::initial(width, spawn).with_reward(candidate);
            &&& w.valid()
            &&& !w.reward_pending
            &&& 0 <= w.reward < w.size()
            &&& !w.body.contains(w.reward)
        }),
{
    let v = WorldView::initial(width, spawn);
    assert(width * width >= 4) by (nonlinear_arith)
        requires
            width >= 1,
            width * width >= 3,
    ;
    assert(forall|i: int| 0 <= i < 3 ==> 0 <= #[trigger] v.body[i] < v.size());
}

/// When the snake covers the whole board, the reward cell is the sentinel
/// `size()` and no reward is awaited.
pub proof fn lemma_full_board_sentinel(v: WorldView)
    requires
        v.valid(),
        v.body.len() == v.size(),
    ensures
        v.reward == v.size(),
        !v.reward_pending,
{
}

/// A tick never shortens the snake: it keeps its length or grows by one.
pub proof fn lemma_step_never_shrinks(v: WorldView)
    requires
        v.valid(),
    ensures
        v.ticked().body.len() == v.body.len() || v.ticked().body.len() == v.body.len() + 1,
{
}

/// Where the segment behind the head is the cell one move back from the
/// head, a turn to the opposite heading is refused.
pub proof fn lemma_reversal_refused(v: WorldView)
    requires
        v.valid(),
        v.body[1] == next_cell(v.width, v.head(), v.direction.reversed()),
    ensures
        v.turned(v.direction.reversed()) == v,
{
}

/// After a tick of a game in play the segment behind the head is the cell
/// the head just left, so a turn straight back is refused.
pub proof fn lemma_no_reverse_after_step(v: WorldView)
    requires
        v.valid(),
        v.status == GameStatus::Played,
    ensures
        v.ticked().body[1] == next_cell(
            v.width,
            v.ticked().head(),
            v.direction.reversed(),
        ),
        v.ticked().turned(v.direction.reversed()) == v.ticked(),
{
    lemma_move_and_back(v.width, v.head(), v.direction);
    lemma_step_keeps_valid(v);
    lemma_reversal_refused(v.stepped());
}

/// A world as it is built has its three segments side by side on one row,
/// so the snake, heading right, cannot turn straight back to the left.
pub proof fn lemma_no_reverse_at_start(width: int, spawn: int)
    requires
        valid_arguments(width, spawn),
    ensures
        WorldView::initial(width, spawn).body[1] == next_cell(width, spawn, Direction::Left),
        WorldView::initial(width, spawn).turned(Direction::Left) == WorldView::initial(
            width,
            spawn,
        ),
{
    lemma_cell_parts(width, spawn);
    let row = spawn / width;
    let col = spawn % width;
    lemma_fundamental_div_mod_converse(col + width - 1, width, 1, col - 1);
    assert(spawn - 1 == row * width + (col - 1));
}

/// A tick of a game in play whose head lands on another segment ends in a
/// lost game, and a tick that loses was one whose head landed on another
/// segment.
pub proof fn lemma_collision_loses(v: WorldView)
    requires
        v.valid(),
        v.status == GameStatus::Played,
    ensures
        v.ticked().status == GameStatus::Lost <==> v.collides(),
{
}

} // verus!
