use snake_game::grid::Direction;
use snake_game::world::{GameStatus, SnakeCell, World, WorldError};

fn cells(w: &World) -> Vec<usize> {
    w.get_snake_cells().iter().map(|c| c.0).collect()
}

fn world(width: usize, spawn: usize) -> World {
    match World::new(width, spawn) {
        Ok(w) => w,
        Err(e) => panic!("world not built: {:?}", e),
    }
}

fn playing(width: usize, spawn: usize) -> World {
    let mut w = world(width, spawn);
    w.set_game_status(GameStatus::Played);
    w
}

#[test]
fn new_world_on_eight_by_eight() {
    let w = world(8, 27);
    assert_eq!(w.width(), 8);
    assert_eq!(w.size(), 64);
    assert_eq!(cells(&w), vec![27, 26, 25]);
    assert_eq!(w.snake_length(), 3);
    assert_eq!(w.snake_head_idx(), 27);
    assert_eq!(w.snake_direction(), Direction::Right);
    assert_eq!(w.game_status(), GameStatus::Paused);
    assert!(w.needs_reward());
}

#[test]
fn one_step_to_the_right() {
    let mut w = playing(8, 27);
    assert!(w.place_reward(0));
    w.step();
    assert_eq!(w.snake_head_idx(), 28);
    assert_eq!(cells(&w), vec![28, 27, 26]);
    assert_eq!(w.snake_length(), 3);
    assert_eq!(w.game_status(), GameStatus::Played);
}

#[test]
fn step_outside_play_changes_nothing() {
    let mut w = world(8, 27);
    assert!(w.place_reward(0));
    for status in [GameStatus::Paused, GameStatus::Win, GameStatus::Lost] {
        w.set_game_status(status);
        w.step();
        assert_eq!(cells(&w), vec![27, 26, 25]);
        assert_eq!(w.get_reward_cell(), 0);
        assert_eq!(w.game_status(), status);
    }
}

#[test]
fn reversal_into_neck_is_refused() {
    let mut w = playing(8, 27);
    w.change_snake_direction(Direction::Left);
    assert_eq!(w.snake_direction(), Direction::Right);
    assert!(w.place_reward(0));
    w.step();
    w.change_snake_direction(Direction::Right.opposite());
    assert_eq!(w.snake_direction(), Direction::Right);
}

#[test]
fn reversal_refused_after_each_step() {
    let mut w = playing(8, 27);
    assert!(w.place_reward(0));
    let turns = [Direction::Down, Direction::Left, Direction::Up, Direction::Right];
    for d in turns {
        w.change_snake_direction(d);
        assert_eq!(w.snake_direction(), d);
        w.step();
        w.change_snake_direction(d.opposite());
        assert_eq!(w.snake_direction(), d);
    }
}

#[test]
fn turn_then_reverse_without_step_is_taken() {
    let mut w = world(8, 27);
    w.change_snake_direction(Direction::Up);
    assert_eq!(w.snake_direction(), Direction::Up);
    w.change_snake_direction(Direction::Down);
    assert_eq!(w.snake_direction(), Direction::Down);
}

#[test]
fn perpendicular_turn_is_taken() {
    let mut w = playing(8, 27);
    w.change_snake_direction(Direction::Down);
    assert_eq!(w.snake_direction(), Direction::Down);
    assert!(w.place_reward(0));
    w.step();
    assert_eq!(cells(&w), vec![35, 27, 26]);
}

#[test]
fn wraps_at_right_edge() {
    let mut w = playing(4, 7);
    assert!(w.place_reward(0));
    w.step();
    assert_eq!(w.snake_head_idx(), 4);
}

#[test]
fn wraps_at_top_and_bottom_edges() {
    let mut w = playing(4, 2);
    assert!(w.place_reward(15));
    w.change_snake_direction(Direction::Up);
    w.step();
    assert_eq!(w.snake_head_idx(), 14);
    w.step();
    assert_eq!(w.snake_head_idx(), 10);
    let mut v = playing(4, 14);
    assert!(v.place_reward(0));
    v.change_snake_direction(Direction::Down);
    v.step();
    assert_eq!(v.snake_head_idx(), 2);
}

#[test]
fn wraps_at_left_edge() {
    let mut w = playing(4, 6);
    assert!(w.place_reward(15));
    w.change_snake_direction(Direction::Down);
    w.step();
    assert_eq!(w.snake_head_idx(), 10);
    w.change_snake_direction(Direction::Left);
    w.step();
    w.step();
    w.step();
    assert_eq!(w.snake_head_idx(), 11);
}

fn head_after_one_move(width: usize, spawn: usize, d: Direction) -> usize {
    let mut w = playing(width, spawn);
    assert!(w.place_reward(width * width - 1) || w.place_reward(0));
    w.change_snake_direction(d);
    assert_eq!(w.snake_direction(), d);
    w.step();
    w.snake_head_idx()
}

#[test]
fn move_and_back_returns_to_start() {
    assert_eq!(head_after_one_move(4, 6, Direction::Down), 10);
    assert_eq!(head_after_one_move(4, 10, Direction::Up), 6);
    assert_eq!(head_after_one_move(4, 7, Direction::Right), 4);
    assert_eq!(head_after_one_move(4, 2, Direction::Up), 14);
    assert_eq!(head_after_one_move(4, 14, Direction::Down), 2);
}

#[test]
fn eating_grows_by_copy_of_segment_before_last() {
    let mut w = playing(8, 27);
    assert!(w.place_reward(28));
    w.step();
    assert_eq!(cells(&w), vec![28, 27, 26, 27]);
    assert_eq!(w.snake_length(), 4);
    assert!(w.needs_reward());
    assert!(w.place_reward(29));
    w.step();
    assert_eq!(cells(&w), vec![29, 28, 27, 26, 27]);
    assert!(w.needs_reward());
}

#[test]
fn length_never_shrinks() {
    let mut w = playing(8, 27);
    assert!(w.place_reward(30));
    let mut last = w.snake_length();
    for _ in 0..20 {
        w.step();
        assert!(w.snake_length() >= last);
        last = w.snake_length();
        if w.needs_reward() {
            let mut c: usize = 0;
            while !w.place_reward(c) {
                c += 1;
            }
        }
    }
    assert_eq!(w.snake_length(), 4);
}

#[test]
fn head_into_body_loses() {
    let mut w = world(8, 27);
    w.set_game_status(GameStatus::Played);
    assert!(w.place_reward(28));
    w.step();
    assert!(w.place_reward(29));
    w.step();
    assert!(w.place_reward(0));
    assert_eq!(cells(&w), vec![29, 28, 27, 26, 27]);
    w.change_snake_direction(Direction::Down);
    w.step();
    assert_eq!(w.game_status(), GameStatus::Played);
    w.change_snake_direction(Direction::Left);
    w.step();
    assert_eq!(w.game_status(), GameStatus::Played);
    w.change_snake_direction(Direction::Up);
    assert_eq!(w.snake_direction(), Direction::Up);
    w.step();
    assert_eq!(cells(&w), vec![28, 36, 37, 29, 28]);
    assert_eq!(w.game_status(), GameStatus::Lost);
}

#[test]
fn reward_candidates_on_snake_or_off_board_are_refused() {
    let mut w = world(8, 27);
    assert!(!w.place_reward(27));
    assert!(!w.place_reward(26));
    assert!(!w.place_reward(25));
    assert!(!w.place_reward(64));
    assert!(w.needs_reward());
    assert!(w.place_reward(10));
    assert!(!w.needs_reward());
    assert_eq!(w.get_reward_cell(), 10);
    assert!(!w.place_reward(11));
    assert_eq!(w.get_reward_cell(), 10);
}

#[test]
fn placed_reward_is_off_the_body() {
    let mut w = playing(4, 6);
    for c in 0..16usize {
        if w.place_reward(c) {
            break;
        }
    }
    let r = w.get_reward_cell();
    assert_eq!(r, 0);
    assert!(!cells(&w).contains(&r));
    for _ in 0..5 {
        w.step();
        if w.needs_reward() {
            let mut c: usize = 0;
            while !w.place_reward(c) {
                c += 1;
            }
        }
        if w.get_reward_cell() != w.size() {
            assert!(!cells(&w).contains(&w.get_reward_cell()));
        }
    }
}

#[test]
fn full_board_gets_sentinel_reward() {
    let mut w = playing(3, 2);
    assert_eq!(cells(&w), vec![2, 1, 0]);
    assert!(!w.place_reward(1));
    let route: [(Direction, usize, Vec<usize>); 6] = [
        (Direction::Up, 8, vec![8, 2, 1, 2]),
        (Direction::Up, 5, vec![5, 8, 2, 1, 2]),
        (Direction::Right, 3, vec![3, 5, 8, 2, 1, 2]),
        (Direction::Up, 0, vec![0, 3, 5, 8, 2, 1, 2]),
        (Direction::Up, 6, vec![6, 0, 3, 5, 8, 2, 1, 2]),
        (Direction::Right, 7, vec![7, 6, 0, 3, 5, 8, 2, 1, 2]),
    ];
    for (d, reward, body) in route {
        w.change_snake_direction(d);
        assert_eq!(w.snake_direction(), d);
        assert!(w.needs_reward());
        assert!(w.place_reward(reward));
        w.step();
        assert_eq!(cells(&w), body);
        assert_eq!(w.game_status(), GameStatus::Played);
    }
    assert_eq!(w.snake_length(), w.size());
    assert_eq!(w.get_reward_cell(), 9);
    assert!(!w.needs_reward());
    assert!(!w.place_reward(4));
}

#[test]
fn invalid_arguments_are_refused() {
    assert_eq!(World::new(0, 0).err(), Some(WorldError::InvalidArgument));
    assert_eq!(World::new(8, 1).err(), Some(WorldError::InvalidArgument));
    assert_eq!(World::new(8, 64).err(), Some(WorldError::InvalidArgument));
    assert_eq!(World::new(1, 0).err(), Some(WorldError::InvalidArgument));
    assert_eq!(World::new(usize::MAX, 5).err(), Some(WorldError::InvalidArgument));
    assert_eq!(World::new(8, 8).err(), Some(WorldError::InvalidArgument));
    assert_eq!(World::new(8, 25).err(), Some(WorldError::InvalidArgument));
    assert_eq!(World::new(2, 2).err(), Some(WorldError::InvalidArgument));
    assert_eq!(World::new(2, 3).err(), Some(WorldError::InvalidArgument));
    assert!(World::new(3, 2).is_ok());
    assert!(World::new(8, 26).is_ok());
    assert!(World::new(8, 63).is_ok());
}

#[test]
fn status_setter_is_unchecked() {
    let mut w = world(8, 27);
    w.set_game_status(GameStatus::Lost);
    assert_eq!(w.game_status(), GameStatus::Lost);
    w.set_game_status(GameStatus::Played);
    assert_eq!(w.game_status(), GameStatus::Played);
    w.set_game_status(GameStatus::Win);
    assert_eq!(w.game_status(), GameStatus::Win);
}

#[test]
fn opposite_directions() {
    assert_eq!(Direction::Up.opposite(), Direction::Down);
    assert_eq!(Direction::Down.opposite(), Direction::Up);
    assert_eq!(Direction::Left.opposite(), Direction::Right);
    assert_eq!(Direction::Right.opposite(), Direction::Left);
}

#[test]
fn snake_cells_are_head_first() {
    let w = world(8, 10);
    assert_eq!(w.get_snake_cells(), &[SnakeCell(10), SnakeCell(9), SnakeCell(8)][..]);
}
