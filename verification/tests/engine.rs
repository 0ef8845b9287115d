use fbsnake::config::Config;
use fbsnake::engine::{pellet_colour, GameState, SEED};
use fbsnake::grid::{Cell, Direction};
use fbsnake::input::Poll;
use fbsnake::outcome::{Action, Ending};
use fbsnake::surface::Renderer;
use std::collections::VecDeque;

const CYAN: u32 = 0x00_FF_FF;
const TINT: u32 = 0xFFFF_3F3F;
const IDLE: Poll = Poll::Record([0, 0, 0]);
const UP: Poll = Poll::Record([0x1B, b'[', b'A']);
const DOWN: Poll = Poll::Record([0x1B, b'[', b'B']);
const RIGHT: Poll = Poll::Record([0x1B, b'[', b'C']);
const LEFT: Poll = Poll::Record([0x1B, b'[', b'D']);
const ESCAPE: Poll = Poll::Record([0x1B, 0, 0]);
const PAUSE: Poll = Poll::Record([b'p', 0, 0]);
const REDRAW: Poll = Poll::Record([b'r', 0, 0]);

fn config(width: usize, height: usize, length: usize) -> Config {
    Config { colour: CYAN, width, height, scale: 1, speed: 75, length }
}

fn cells(list: &[(usize, usize)]) -> VecDeque<Cell> {
    list.iter().map(|&(x, y)| Cell { x, y }).collect()
}

fn state(
    width: usize,
    height: usize,
    dir: Direction,
    snake: &[(usize, usize)],
    snake_length: usize,
    pellet: (usize, usize),
) -> GameState {
    GameState {
        colour: CYAN,
        width,
        height,
        dir,
        pos: Cell { x: snake[0].0, y: snake[0].1 },
        snake: cells(snake),
        snake_length,
        pellet: Cell { x: pellet.0, y: pellet.1 },
        score: 0,
        seed: 0x1234_5678,
        paused: false,
    }
}

/// Feeds one poll to the game on a surface of one pixel per cell.
fn feed(game: &mut GameState, pixels: &mut Vec<u32>, event: Poll) -> Action {
    let mut screen =
        Renderer { pixels: &mut pixels[..], xres: game.width, yres: game.height, scale: 1 };
    game.advance(&mut screen, event)
}

fn blank(game: &GameState) -> Vec<u32> {
    vec![0u32; game.width * game.height]
}

fn holds_invariants(game: &GameState) -> bool {
    let mut distinct = true;
    for i in 0..game.snake.len() {
        for j in 0..i {
            distinct = distinct && game.snake[i] != game.snake[j];
        }
    }
    distinct
        && game.snake.len() <= game.snake_length
        && !game.snake.contains(&game.pellet)
        && game.pellet.x < game.width
        && game.pellet.y < game.height
        && game.snake.iter().all(|c| c.x < game.width && c.y < game.height)
        && (game.snake.is_empty() || game.snake[0] == game.pos)
}

#[test]
fn new_starts_in_the_middle_heading_right() {
    let game = GameState::new(&config(4, 4, 2));
    assert_eq!(game.pos, Cell { x: 2, y: 2 });
    assert_eq!(game.dir, Direction::Right);
    assert!(game.snake.is_empty());
    assert_eq!(game.snake_length, 2);
    assert_eq!(game.score, 0);
    assert!(!game.paused);
    assert_eq!(game.colour, CYAN);
    assert_eq!(game.width, 4);
    assert_eq!(game.height, 4);
}

#[test]
fn new_places_the_pellet_with_the_first_two_random_numbers() {
    assert_eq!(SEED, 0xDEAD_BEEF);
    let game = GameState::new(&config(4, 4, 2));
    assert_eq!(game.pellet, Cell { x: 1, y: 1 });
    assert_eq!(game.seed, 0x0b54_f465);
    let game = GameState::new(&config(30, 30, 10));
    assert_eq!(game.pellet, Cell { x: 13, y: 5 });
    assert_eq!(game.pos, Cell { x: 15, y: 15 });
    let game = GameState::new(&config(8, 8, 1));
    assert_eq!(game.pellet, Cell { x: 5, y: 5 });
    let game = GameState::new(&config(5, 1, 1));
    assert_eq!(game.pellet, Cell { x: 4, y: 0 });
    assert_eq!(game.pos, Cell { x: 2, y: 0 });
}

#[test]
fn new_may_put_the_pellet_under_the_head_to_be() {
    let game = GameState::new(&config(2, 2, 1));
    assert_eq!(game.pos, Cell { x: 1, y: 1 });
    assert_eq!(game.pellet, Cell { x: 1, y: 1 });
    assert!(holds_invariants(&game));
}

#[test]
fn pellet_colour_is_the_complement_kept_bright() {
    assert_eq!(pellet_colour(0x00_FF_FF), 0xFFFF_3F3F);
    assert_eq!(pellet_colour(0x12_34_56), 0xFFFF_FFBF);
    assert_eq!(pellet_colour(0), 0xFFFF_FFFF);
    assert_eq!(pellet_colour(0xFFFF_FFFF), 0x003F_3F3F);
}

#[test]
fn first_idle_tick_moves_the_head_right() {
    let mut game = GameState::new(&config(4, 4, 2));
    let mut pixels = blank(&game);
    assert_eq!(feed(&mut game, &mut pixels, IDLE), Action::Sleep);
    assert_eq!(game.pos, Cell { x: 3, y: 2 });
    assert_eq!(game.snake, cells(&[(3, 2)]));
    assert_eq!(game.score, 0);
    assert_eq!(game.snake_length, 2);
    assert_eq!(game.pellet, Cell { x: 1, y: 1 });
    assert_eq!(game.seed, 0xd506_e6e8);
}

#[test]
fn tail_trims_once_the_snake_has_its_length() {
    let mut game = GameState::new(&config(4, 4, 2));
    let mut pixels = blank(&game);
    assert_eq!(feed(&mut game, &mut pixels, IDLE), Action::Sleep);
    assert_eq!(feed(&mut game, &mut pixels, IDLE), Action::Sleep);
    assert_eq!(game.snake, cells(&[(0, 2), (3, 2)]));
    assert_eq!(feed(&mut game, &mut pixels, IDLE), Action::Sleep);
    assert_eq!(game.snake, cells(&[(1, 2), (0, 2)]));
    assert_eq!(game.pos, Cell { x: 1, y: 2 });
    assert_eq!(game.score, 0);
    assert_eq!(game.seed, 0x503a_5cc6);
    let mut expected = vec![0u32; 16];
    expected[2 * 4 + 1] = CYAN;
    expected[2 * 4] = CYAN;
    assert_eq!(pixels, expected);
}

#[test]
fn an_empty_poll_counts_as_an_idle_record() {
    let mut a = GameState::new(&config(4, 4, 2));
    let mut b = GameState::new(&config(4, 4, 2));
    let mut pa = blank(&a);
    let mut pb = blank(&b);
    for _ in 0..5 {
        assert_eq!(feed(&mut a, &mut pa, Poll::Empty), feed(&mut b, &mut pb, IDLE));
        assert_eq!(a, b);
        assert_eq!(pa, pb);
    }
}

#[test]
fn escape_quits_while_running() {
    let mut game = GameState::new(&config(4, 4, 2));
    let mut pixels = blank(&game);
    assert_eq!(feed(&mut game, &mut pixels, ESCAPE), Action::Finish(Ending::Quit));
    assert_eq!(game.pos, Cell { x: 2, y: 2 });
    assert!(game.snake.is_empty());
    assert_eq!(pixels, vec![0u32; 16]);
    assert_eq!(Ending::Quit.exit_code(), 0);
}

#[test]
fn escape_quits_at_a_later_tick() {
    let mut game = GameState::new(&config(4, 4, 2));
    let mut pixels = blank(&game);
    for event in [IDLE, UP, LEFT, IDLE] {
        assert_eq!(feed(&mut game, &mut pixels, event), Action::Sleep);
    }
    let before = game.clone();
    assert_eq!(
        feed(&mut game, &mut pixels, Poll::Record([0x1B, 0, 0x55])),
        Action::Finish(Ending::Quit)
    );
    assert_eq!(game.snake, before.snake);
    assert_eq!(game.pos, before.pos);
    assert_eq!(game.pellet, before.pellet);
    assert_eq!(game.score, before.score);
}

#[test]
fn escape_quits_while_paused() {
    let mut game = GameState::new(&config(4, 4, 2));
    let mut pixels = blank(&game);
    assert_eq!(feed(&mut game, &mut pixels, PAUSE), Action::Poll);
    let before = game.clone();
    assert_eq!(feed(&mut game, &mut pixels, ESCAPE), Action::Finish(Ending::Quit));
    assert_eq!(game, before);
}

#[test]
fn stepping_off_the_right_edge_wraps_to_column_zero() {
    let mut game = state(4, 4, Direction::Right, &[(3, 1), (2, 1), (1, 1)], 3, (0, 3));
    let mut pixels = blank(&game);
    assert_eq!(feed(&mut game, &mut pixels, IDLE), Action::Sleep);
    assert_eq!(game.pos, Cell { x: 0, y: 1 });
    assert_eq!(game.snake, cells(&[(0, 1), (3, 1), (2, 1)]));
    assert_eq!(game.score, 0);
    assert!(holds_invariants(&game));
}

#[test]
fn stepping_off_each_edge_wraps() {
    let mut game = state(4, 3, Direction::Left, &[(0, 1)], 1, (3, 2));
    let mut pixels = blank(&game);
    assert_eq!(feed(&mut game, &mut pixels, IDLE), Action::Sleep);
    assert_eq!(game.pos, Cell { x: 3, y: 1 });
    let mut game = state(4, 3, Direction::Up, &[(1, 0)], 1, (3, 1));
    assert_eq!(feed(&mut game, &mut pixels, IDLE), Action::Sleep);
    assert_eq!(game.pos, Cell { x: 1, y: 2 });
    let mut game = state(4, 3, Direction::Down, &[(1, 2)], 1, (3, 1));
    assert_eq!(feed(&mut game, &mut pixels, IDLE), Action::Sleep);
    assert_eq!(game.pos, Cell { x: 1, y: 0 });
}

#[test]
fn an_arrow_turns_the_snake_before_it_moves() {
    let mut game = GameState::new(&config(4, 4, 2));
    let mut pixels = blank(&game);
    assert_eq!(feed(&mut game, &mut pixels, UP), Action::Sleep);
    assert_eq!(game.dir, Direction::Up);
    assert_eq!(game.pos, Cell { x: 2, y: 1 });
    assert_eq!(game.seed, 0xd2a0_e15d);
    assert_eq!(feed(&mut game, &mut pixels, IDLE), Action::Sleep);
    assert_eq!(game.dir, Direction::Up);
    assert_eq!(game.pos, Cell { x: 2, y: 0 });
}

#[test]
fn a_reversal_is_ignored() {
    let mut game = GameState::new(&config(4, 4, 2));
    let mut pixels = blank(&game);
    assert_eq!(feed(&mut game, &mut pixels, LEFT), Action::Sleep);
    assert_eq!(game.dir, Direction::Right);
    assert_eq!(game.pos, Cell { x: 3, y: 2 });
    assert_eq!(feed(&mut game, &mut pixels, DOWN), Action::Sleep);
    assert_eq!(game.dir, Direction::Down);
    assert_eq!(feed(&mut game, &mut pixels, UP), Action::Sleep);
    assert_eq!(game.dir, Direction::Down);
    assert_eq!(game.pos, Cell { x: 3, y: 0 });
}

#[test]
fn the_same_arrow_twice_is_the_same_as_once() {
    let mut game = GameState::new(&config(6, 6, 2));
    let mut pixels = blank(&game);
    assert_eq!(feed(&mut game, &mut pixels, DOWN), Action::Sleep);
    assert_eq!(game.dir, Direction::Down);
    assert_eq!(feed(&mut game, &mut pixels, DOWN), Action::Sleep);
    assert_eq!(game.dir, Direction::Down);
    assert_eq!(game.pos, Cell { x: 3, y: 5 });
}

#[test]
fn a_key_that_is_no_arrow_does_not_turn() {
    let mut game = GameState::new(&config(4, 4, 2));
    let mut pixels = blank(&game);
    for record in [[b'x', 0, 0], [0, 0, 1], [0x1B, b'[', b'E'], [b'r', 0, 0], [b'A', 0, 0]] {
        assert_eq!(feed(&mut game, &mut pixels, Poll::Record(record)), Action::Sleep);
        assert_eq!(game.dir, Direction::Right);
    }
}

#[test]
fn capturing_the_pellet_grows_the_snake_and_scores() {
    let mut game = GameState::new(&config(4, 4, 2));
    let mut pixels = blank(&game);
    assert_eq!(feed(&mut game, &mut pixels, UP), Action::Sleep);
    assert_eq!(feed(&mut game, &mut pixels, LEFT), Action::Sleep);
    assert_eq!(game.pos, Cell { x: 1, y: 1 });
    assert_eq!(game.score, 1);
    assert_eq!(game.snake_length, 3);
    assert_eq!(game.snake, cells(&[(1, 1), (2, 1)]));
    assert_eq!(game.pellet, Cell { x: 1, y: 3 });
    assert_eq!(game.seed, 0x96bc_be6f);
    assert_eq!(pixels[4 + 1], CYAN);
    assert_eq!(pixels[3 * 4 + 1], TINT);
    assert_eq!(feed(&mut game, &mut pixels, IDLE), Action::Sleep);
    assert_eq!(game.snake, cells(&[(0, 1), (1, 1), (2, 1)]));
    assert_eq!(feed(&mut game, &mut pixels, IDLE), Action::Sleep);
    assert_eq!(game.snake, cells(&[(3, 1), (0, 1), (1, 1)]));
    assert_eq!(game.seed, 0xeb5a_128a);
    assert_eq!(game.score, 1);
}

#[test]
fn a_new_pellet_avoids_the_snake() {
    // The search starts at a cell of the snake and probes forward.
    let mut game = state(3, 1, Direction::Right, &[(0, 0)], 1, (1, 0));
    game.seed = 0;
    let mut pixels = blank(&game);
    assert_eq!(feed(&mut game, &mut pixels, IDLE), Action::Sleep);
    assert_eq!(game.score, 1);
    assert_eq!(game.snake_length, 2);
    assert_eq!(game.snake, cells(&[(1, 0), (0, 0)]));
    assert_eq!(game.pellet, Cell { x: 2, y: 0 });
    assert_eq!(game.seed, 0x5c53_a450);
    assert_eq!(pixels, vec![0, CYAN, TINT]);
}

#[test]
fn running_into_the_snake_loses() {
    let mut game = state(4, 4, Direction::Up, &[(1, 1), (1, 0), (2, 0), (2, 1), (2, 2)], 6, (0, 3));
    game.score = 3;
    let mut pixels = blank(&game);
    let before = game.clone();
    assert_eq!(feed(&mut game, &mut pixels, IDLE), Action::Finish(Ending::Lost));
    assert_eq!(game.score, 3);
    assert_eq!(game.snake, before.snake);
    assert_eq!(game.snake_length, before.snake_length);
    assert_eq!(game.pellet, before.pellet);
    assert_eq!(game.pos, Cell { x: 1, y: 0 });
    assert_eq!(pixels[1], CYAN);
}

#[test]
fn moving_onto_the_cell_the_tail_is_about_to_leave_loses() {
    let mut game = state(2, 2, Direction::Up, &[(0, 1), (1, 1), (1, 0), (0, 0)], 4, (0, 0));
    game.width = 2;
    game.height = 3;
    game.pellet = Cell { x: 0, y: 2 };
    let mut pixels = blank(&game);
    assert_eq!(feed(&mut game, &mut pixels, IDLE), Action::Finish(Ending::Lost));
}

#[test]
fn filling_the_board_wins() {
    let mut game = GameState::new(&config(2, 2, 1));
    let mut pixels = blank(&game);
    for event in [IDLE, UP, LEFT, DOWN, RIGHT] {
        assert_eq!(feed(&mut game, &mut pixels, event), Action::Sleep);
        assert!(holds_invariants(&game));
    }
    assert_eq!(game.score, 2);
    assert_eq!(game.snake_length, 3);
    assert_eq!(game.snake, cells(&[(0, 1), (1, 1), (1, 0)]));
    assert_eq!(game.pellet, Cell { x: 0, y: 0 });
    let seed = game.seed;
    assert_eq!(feed(&mut game, &mut pixels, UP), Action::Finish(Ending::Won));
    assert_eq!(game.score, 3);
    assert_eq!(game.snake_length, 4);
    assert_eq!(game.snake, cells(&[(0, 1), (1, 1), (1, 0)]));
    assert_eq!(game.pellet, Cell { x: 0, y: 0 });
    assert_eq!(game.seed, 0xe823_908f);
    assert_ne!(game.seed, seed);
    assert_eq!(Ending::Won.exit_code(), 0);
}

#[test]
fn winning_does_not_look_for_a_free_cell() {
    let mut game = state(2, 1, Direction::Right, &[(0, 0)], 1, (1, 0));
    let mut pixels = blank(&game);
    assert_eq!(feed(&mut game, &mut pixels, IDLE), Action::Finish(Ending::Won));
    assert_eq!(game.snake_length, 2);
    assert_eq!(game.score, 1);
    assert_eq!(game.pellet, Cell { x: 1, y: 0 });
    assert_eq!(game.snake, cells(&[(0, 0)]));
    // Only the keypress was mixed into the seed; no random number was drawn.
    assert_eq!(game.seed, 0x9982_4211);
}

#[test]
fn pause_holds_the_snake() {
    let mut game = GameState::new(&config(4, 4, 2));
    let mut pixels = blank(&game);
    assert_eq!(feed(&mut game, &mut pixels, IDLE), Action::Sleep);
    let before = game.clone();
    assert_eq!(feed(&mut game, &mut pixels, PAUSE), Action::Poll);
    assert!(game.paused);
    assert_eq!(game.pos, before.pos);
    assert_eq!(game.snake, before.snake);
    assert_eq!(game.dir, before.dir);
    let paused = game.clone();
    for event in [Poll::Empty, IDLE, Poll::Empty] {
        assert_eq!(feed(&mut game, &mut pixels, event), Action::Poll);
        assert_eq!(game, paused);
    }
}

#[test]
fn pause_mixes_its_keypress_into_the_seed_and_idling_does_not() {
    let mut game = GameState::new(&config(4, 4, 2));
    let mut pixels = blank(&game);
    assert_eq!(feed(&mut game, &mut pixels, PAUSE), Action::Poll);
    assert_eq!(game.seed, 0xd506_e6e8);
    assert_eq!(feed(&mut game, &mut pixels, IDLE), Action::Poll);
    assert_eq!(feed(&mut game, &mut pixels, REDRAW), Action::Poll);
    assert_eq!(game.seed, 0xd506_e6e8);
}

#[test]
fn any_other_key_resumes_and_is_not_taken_as_a_turn() {
    let mut game = GameState::new(&config(4, 4, 2));
    let mut pixels = blank(&game);
    assert_eq!(feed(&mut game, &mut pixels, PAUSE), Action::Poll);
    let seed = game.seed;
    assert_eq!(feed(&mut game, &mut pixels, UP), Action::Sleep);
    assert!(!game.paused);
    assert_eq!(game.dir, Direction::Right);
    assert_eq!(game.pos, Cell { x: 3, y: 2 });
    assert_eq!(game.snake, cells(&[(3, 2)]));
    assert_eq!(game.seed, seed);
}

#[test]
fn each_key_but_idle_escape_and_r_resumes() {
    for record in [[b'p', 0, 0], [b'x', 0, 0], [0, 0, 1], [0, 1, 0], [b'r', 1, 0], [0x1B, b'[', b'D']] {
        let mut game = GameState::new(&config(4, 4, 2));
        let mut pixels = blank(&game);
        assert_eq!(feed(&mut game, &mut pixels, PAUSE), Action::Poll);
        assert_eq!(feed(&mut game, &mut pixels, Poll::Record(record)), Action::Sleep);
        assert!(!game.paused);
        assert_eq!(game.pos, Cell { x: 3, y: 2 });
    }
}

#[test]
fn redraw_while_paused_repaints_the_board() {
    let mut game = GameState::new(&config(4, 4, 2));
    let mut pixels = blank(&game);
    for event in [UP, LEFT, IDLE] {
        assert_eq!(feed(&mut game, &mut pixels, event), Action::Sleep);
    }
    assert_eq!(feed(&mut game, &mut pixels, PAUSE), Action::Poll);
    let mut garbled = vec![0xDEADu32; 16];
    assert_eq!(feed(&mut game, &mut garbled, REDRAW), Action::Poll);
    assert!(game.paused);
    let mut expected = vec![0u32; 16];
    expected[4] = CYAN;
    expected[4 + 1] = CYAN;
    expected[4 + 2] = CYAN;
    expected[3 * 4 + 1] = TINT;
    assert_eq!(garbled, expected);
}

#[test]
fn redraw_key_while_running_is_just_a_tick() {
    let mut game = GameState::new(&config(4, 4, 2));
    let mut pixels = vec![7u32; 16];
    assert_eq!(feed(&mut game, &mut pixels, REDRAW), Action::Sleep);
    assert_eq!(game.pos, Cell { x: 3, y: 2 });
    let mut expected = vec![7u32; 16];
    expected[2 * 4 + 3] = CYAN;
    assert_eq!(pixels, expected);
}

#[test]
fn redraw_paints_the_pellet_over_a_cleared_board() {
    let game = GameState::new(&config(3, 2, 1));
    let mut pixels = vec![5u32; 4 * 3];
    let mut screen = Renderer { pixels: &mut pixels[..], xres: 4, yres: 3, scale: 1 };
    game.redraw(&mut screen);
    assert_eq!(game.pellet, Cell { x: 0, y: 1 });
    let expected: Vec<u32> = vec![
        0, 0, 0, 5, //
        TINT, 0, 0, 5, //
        5, 5, 5, 5, //
    ];
    assert_eq!(pixels, expected);
}

#[test]
fn a_lost_reader_ends_the_match() {
    let mut game = GameState::new(&config(4, 4, 2));
    let mut pixels = blank(&game);
    let before = game.clone();
    assert_eq!(feed(&mut game, &mut pixels, Poll::Disconnected), Action::Finish(Ending::InputLost));
    assert_eq!(game, before);
    assert_eq!(feed(&mut game, &mut pixels, PAUSE), Action::Poll);
    let before = game.clone();
    assert_eq!(feed(&mut game, &mut pixels, Poll::Disconnected), Action::Finish(Ending::InputLost));
    assert_eq!(game, before);
    assert_eq!(pixels, vec![0u32; 16]);
}

#[test]
fn step_paints_head_then_erases_tail() {
    let mut game = state(3, 1, Direction::Right, &[(1, 0), (0, 0)], 2, (1, 0));
    game.width = 4;
    game.pellet = Cell { x: 3, y: 0 };
    let mut pixels = vec![CYAN, CYAN, 0, TINT];
    let mut screen = Renderer { pixels: &mut pixels[..], xres: 4, yres: 1, scale: 1 };
    assert_eq!(game.step(&mut screen), Action::Sleep);
    assert_eq!(pixels, vec![0, CYAN, CYAN, TINT]);
    assert_eq!(game.snake, cells(&[(2, 0), (1, 0)]));
    // A bare step draws no random number and mixes nothing into the seed.
    assert_eq!(game.seed, 0x1234_5678);
}

#[test]
fn a_snake_of_length_zero_is_erased_as_soon_as_it_is_painted() {
    let mut game = GameState::new(&config(4, 4, 0));
    let mut pixels = vec![9u32; 16];
    assert_eq!(feed(&mut game, &mut pixels, IDLE), Action::Sleep);
    assert!(game.snake.is_empty());
    assert_eq!(game.pos, Cell { x: 3, y: 2 });
    let mut expected = vec![9u32; 16];
    expected[2 * 4 + 3] = 0;
    assert_eq!(pixels, expected);
}

#[test]
fn blocks_are_painted_at_the_surface_scale() {
    let mut game = GameState::new(&config(2, 2, 1));
    game.pellet = Cell { x: 0, y: 0 };
    let mut pixels = vec![0u32; 5 * 4];
    let mut screen = Renderer { pixels: &mut pixels[..], xres: 5, yres: 4, scale: 2 };
    assert_eq!(game.advance(&mut screen, IDLE), Action::Sleep);
    assert_eq!(game.pos, Cell { x: 0, y: 1 });
    let expected: Vec<u32> = vec![
        0, 0, 0, 0, 0, //
        0, 0, 0, 0, 0, //
        CYAN, CYAN, 0, 0, 0, //
        CYAN, CYAN, 0, 0, 0, //
    ];
    assert_eq!(pixels, expected);
}

#[test]
fn two_runs_on_the_same_records_agree_tick_by_tick() {
    let records = [IDLE, UP, UP, LEFT, IDLE, DOWN, PAUSE, IDLE, RIGHT, RIGHT, IDLE, UP, LEFT, LEFT];
    let mut a = GameState::new(&config(5, 4, 3));
    let mut b = GameState::new(&config(5, 4, 3));
    let mut pa = blank(&a);
    let mut pb = blank(&b);
    for event in records {
        let ra = feed(&mut a, &mut pa, event);
        let rb = feed(&mut b, &mut pb, event);
        assert_eq!(ra, rb);
        assert_eq!(a, b);
        assert_eq!(pa, pb);
    }
}

#[test]
fn the_colour_does_not_change_where_the_snake_goes() {
    let records = [IDLE, UP, LEFT, LEFT, DOWN, IDLE, RIGHT, IDLE, IDLE, UP];
    let mut a = GameState::new(&config(4, 4, 2));
    let mut b = GameState::new(&Config { colour: 0xFF_00_00, ..config(4, 4, 2) });
    let mut pa = blank(&a);
    let mut pb = blank(&b);
    for event in records {
        assert_eq!(feed(&mut a, &mut pa, event), feed(&mut b, &mut pb, event));
        assert_eq!(a.snake, b.snake);
        assert_eq!(a.pellet, b.pellet);
        assert_eq!(a.seed, b.seed);
        assert_eq!(a.score, b.score);
    }
}

/// Plays pseudo-random keys until the match ends, checking after every tick
/// that the snake is within its length and off the pellet.
fn play(width: usize, height: usize, length: usize, mut lcg: u32) -> (usize, Action, GameState) {
    let keys = [IDLE, UP, DOWN, LEFT, RIGHT, Poll::Record([b'x', 0, 0]), Poll::Record([0, 0, 1])];
    let mut game = GameState::new(&config(width, height, length));
    let mut pixels = vec![0xBAD_u32; width * height];
    game.redraw(&mut Renderer { pixels: &mut pixels[..], xres: width, yres: height, scale: 1 });
    let mut ticks = 0;
    loop {
        lcg = lcg.wrapping_mul(1103515245).wrapping_add(12345) & 0x7fff_ffff;
        let key = keys[((lcg >> 16) as usize) % keys.len()];
        let action = feed(&mut game, &mut pixels, key);
        ticks += 1;
        assert!(game.snake.len() <= game.snake_length);
        assert!(!game.snake.contains(&game.pellet));
        if action != Action::Sleep || ticks == 400 {
            return (ticks, action, game);
        }
        assert!(holds_invariants(&game));
        for (i, pixel) in pixels.iter().enumerate() {
            let cell = Cell { x: i % width, y: i / width };
            if game.snake.contains(&cell) {
                assert_eq!(*pixel, CYAN);
            } else if cell == game.pellet {
                assert_eq!(*pixel, TINT);
            } else {
                assert_eq!(*pixel, 0);
            }
        }
    }
}

#[test]
fn long_run_on_five_by_four() {
    let (ticks, action, game) = play(5, 4, 3, 1);
    assert_eq!(ticks, 38);
    assert_eq!(action, Action::Finish(Ending::Lost));
    assert_eq!(game.pos, Cell { x: 4, y: 0 });
    assert_eq!(game.snake, cells(&[(4, 1), (4, 2), (4, 3), (4, 0), (0, 0)]));
    assert_eq!(game.snake_length, 5);
    assert_eq!(game.pellet, Cell { x: 0, y: 3 });
    assert_eq!(game.score, 2);
    assert_eq!(game.seed, 0x5905_b5eb);
    assert_eq!(game.dir, Direction::Up);
}

#[test]
fn long_run_on_five_by_four_with_other_keys() {
    let (ticks, action, game) = play(5, 4, 3, 2);
    assert_eq!(ticks, 58);
    assert_eq!(action, Action::Finish(Ending::Lost));
    assert_eq!(game.snake, cells(&[(4, 0), (4, 3), (4, 2), (4, 1)]));
    assert_eq!(game.pellet, Cell { x: 1, y: 3 });
    assert_eq!(game.score, 1);
    assert_eq!(game.seed, 0x7432_0a68);
}

#[test]
fn long_run_on_six_by_six() {
    let (ticks, action, game) = play(6, 6, 1, 7);
    assert_eq!(ticks, 138);
    assert_eq!(action, Action::Finish(Ending::Lost));
    assert_eq!(game.snake, cells(&[(4, 5), (3, 5), (2, 5), (1, 5), (0, 5), (5, 5)]));
    assert_eq!(game.snake_length, 6);
    assert_eq!(game.pellet, Cell { x: 0, y: 2 });
    assert_eq!(game.score, 5);
    assert_eq!(game.seed, 0x13c0_273a);
}

#[test]
fn long_run_from_length_zero() {
    let (ticks, action, game) = play(3, 3, 0, 5);
    assert_eq!(ticks, 26);
    assert_eq!(action, Action::Finish(Ending::Lost));
    assert_eq!(game.snake, cells(&[(1, 2), (0, 2), (2, 2), (2, 0)]));
    assert_eq!(game.pellet, Cell { x: 1, y: 1 });
    assert_eq!(game.score, 4);
    assert_eq!(game.seed, 0xfcdf_98d4);
}

#[test]
fn long_run_on_eight_by_two() {
    let (ticks, action, game) = play(8, 2, 4, 3);
    assert_eq!(ticks, 3);
    assert_eq!(action, Action::Finish(Ending::Lost));
    assert_eq!(game.snake, cells(&[(4, 1), (4, 0)]));
    assert_eq!(game.pellet, Cell { x: 5, y: 1 });
    assert_eq!(game.score, 0);
    assert_eq!(game.seed, 0x4f44_e941);
}

#[test]
fn no_key_runs_the_head_into_the_neck() {
    let dirs = [
        (Direction::Left, (3, 2)),
        (Direction::Right, (1, 2)),
        (Direction::Up, (2, 3)),
        (Direction::Down, (2, 1)),
    ];
    for (dir, neck) in dirs {
        for key in [UP, DOWN, LEFT, RIGHT, IDLE] {
            let mut game = state(5, 5, dir, &[(2, 2), neck], 5, (0, 0));
            let mut pixels = blank(&game);
            assert_eq!(feed(&mut game, &mut pixels, key), Action::Sleep);
            assert_eq!(game.snake.len(), 3);
            assert_eq!(game.snake[1], Cell { x: 2, y: 2 });
            assert_ne!(game.pos, Cell { x: neck.0, y: neck.1 });
        }
    }
}
