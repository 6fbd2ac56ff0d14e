use snake::direction::{is_inside, step_from, Direction, HEIGHT, WIDTH};
use snake::food::random_apple;
use snake::game::Game;
use snake::input::{Key, KeyEvent};
use snake::snake::{count_eaten, Snake};

const ALL: [Direction; 4] = [Direction::Up, Direction::Down, Direction::Left, Direction::Right];

fn opposite_of(d: Direction) -> Direction {
    match d {
        Direction::Up => Direction::Down,
        Direction::Down => Direction::Up,
        Direction::Left => Direction::Right,
        Direction::Right => Direction::Left,
    }
}

fn snake_at(blocks: Vec<(u16, u16)>, direction: Direction) -> Snake {
    Snake { blocks, direction, dead: false }
}

fn press(code: Key) -> KeyEvent {
    KeyEvent { code, is_press: true }
}

#[test]
fn new_snake_shape() {
    let s = Snake::new();
    assert_eq!(s.blocks, vec![(10, 10), (10, 9), (10, 8)]);
    assert_eq!(s.direction, Direction::Up);
    assert!(!s.dead);
}

#[test]
fn advance_from_start_moves_up() {
    let mut s = Snake::new();
    s.move_forward();
    assert_eq!(s.blocks[0], (10, 9));
    assert_eq!(s.blocks, vec![(10, 9), (10, 10), (10, 9)]);
    assert_eq!(s.blocks.len(), 3);
    assert!(!s.dead);
}

#[test]
fn advance_into_left_wall_kills() {
    let mut s = snake_at(vec![(1, 10), (2, 10), (3, 10)], Direction::Left);
    s.move_forward();
    assert_eq!(s.blocks[0].0, 0);
    assert!(s.dead);
    assert_eq!(s.blocks, vec![(0, 10), (1, 10), (2, 10)]);
}

#[test]
fn turn_up_while_heading_down_is_rejected() {
    let mut s = snake_at(vec![(10, 10)], Direction::Down);
    s.change_direction(Direction::Up);
    assert_eq!(s.direction, Direction::Down);
}

#[test]
fn food_under_head_is_eaten_and_replaced() {
    let mut s = Snake::new();
    s.move_forward();
    let apples = s.detect_apple(vec![(10, 9)]);
    assert_eq!(apples.len(), 1);
    assert_eq!(s.blocks, vec![(10, 9), (10, 10), (10, 9), (10, 10)]);
    let a = apples[0];
    assert!(1 <= a.0 && a.0 < WIDTH - 2);
    assert!(1 <= a.1 && a.1 < HEIGHT - 2);
}

#[test]
fn every_reversal_is_rejected() {
    for d in ALL {
        let mut s = snake_at(vec![(5, 5)], d);
        s.change_direction(opposite_of(d));
        assert_eq!(s.direction, d);
    }
}

#[test]
fn every_other_turn_is_taken() {
    for d in ALL {
        for r in ALL {
            if r != opposite_of(d) {
                let mut s = snake_at(vec![(5, 5)], d);
                s.change_direction(r);
                assert_eq!(s.direction, r);
            }
        }
    }
}

#[test]
fn advance_keeps_length_in_every_direction() {
    for d in ALL {
        let mut s = snake_at(vec![(5, 5), (5, 6), (5, 7), (5, 8)], d);
        s.move_forward();
        assert_eq!(s.blocks.len(), 4);
        assert_eq!(s.blocks[1..], [(5, 5), (5, 6), (5, 7)]);
    }
}

#[test]
fn advance_onto_each_wall_kills() {
    let cases = [
        ((WIDTH - 1, 5), Direction::Right, (WIDTH, 5)),
        ((5, HEIGHT - 1), Direction::Down, (5, HEIGHT)),
        ((5, 1), Direction::Up, (5, 0)),
        ((1, 5), Direction::Left, (0, 5)),
    ];
    for (head, d, expected) in cases {
        let mut s = snake_at(vec![head], d);
        s.move_forward();
        assert_eq!(s.blocks, vec![expected]);
        assert!(s.dead);
    }
}

#[test]
fn advance_inside_stays_alive() {
    let cases = [
        ((WIDTH - 2, 5), Direction::Right),
        ((5, HEIGHT - 2), Direction::Down),
        ((5, 2), Direction::Up),
        ((2, 5), Direction::Left),
    ];
    for (head, d) in cases {
        let mut s = snake_at(vec![head], d);
        s.move_forward();
        assert!(!s.dead);
    }
}

#[test]
fn death_is_final() {
    let mut s = snake_at(vec![(1, 5)], Direction::Left);
    s.move_forward();
    assert!(s.dead);
    s.change_direction(Direction::Up);
    s.move_forward();
    assert_eq!(s.blocks, vec![(0, 4)]);
    assert!(s.dead);
    s.change_direction(Direction::Right);
    s.move_forward();
    assert_eq!(s.blocks, vec![(1, 4)]);
    assert!(s.dead);
}

#[test]
fn advance_past_coordinate_zero_does_not_wrap() {
    let mut s = snake_at(vec![(0, 5)], Direction::Left);
    s.move_forward();
    assert_eq!(s.blocks, vec![(0, 5)]);
    assert!(s.dead);
    let mut t = snake_at(vec![(u16::MAX, 5)], Direction::Right);
    t.move_forward();
    assert_eq!(t.blocks, vec![(u16::MAX, 5)]);
    assert!(t.dead);
}

#[test]
fn grow_adds_segment_behind_tail() {
    let cases = [
        (Direction::Up, (5, 9)),
        (Direction::Down, (5, 7)),
        (Direction::Left, (6, 8)),
        (Direction::Right, (4, 8)),
    ];
    for (d, expected) in cases {
        let mut s = snake_at(vec![(5, 6), (5, 7), (5, 8)], d);
        s.grow();
        assert_eq!(s.blocks, vec![(5, 6), (5, 7), (5, 8), expected]);
        assert_eq!(s.direction, d);
    }
}

#[test]
fn resolve_food_with_given_replacements() {
    let mut s = snake_at(vec![(4, 4), (4, 5)], Direction::Up);
    let r = s.resolve_food(vec![(1, 1), (4, 4), (2, 2)], vec![(7, 7)]);
    assert_eq!(r, vec![(1, 1), (2, 2), (7, 7)]);
    assert_eq!(s.blocks, vec![(4, 4), (4, 5), (4, 6)]);
}

#[test]
fn resolve_food_eats_every_item_under_head() {
    let mut s = snake_at(vec![(4, 4), (3, 4)], Direction::Right);
    let r = s.resolve_food(vec![(4, 4), (9, 9), (4, 4)], vec![(1, 2), (3, 4)]);
    assert_eq!(r, vec![(9, 9), (1, 2), (3, 4)]);
    assert_eq!(s.blocks, vec![(4, 4), (3, 4), (2, 4), (1, 4)]);
}

#[test]
fn missed_food_stays() {
    let mut s = Snake::new();
    let r = s.detect_apple(vec![(3, 3), (20, 5)]);
    assert_eq!(r, vec![(3, 3), (20, 5)]);
    assert_eq!(s.blocks, vec![(10, 10), (10, 9), (10, 8)]);
}

#[test]
fn count_eaten_counts_items_at_position() {
    assert_eq!(count_eaten(&vec![], (1, 1)), 0);
    assert_eq!(count_eaten(&vec![(1, 1), (2, 1), (1, 1)], (1, 1)), 2);
    assert_eq!(count_eaten(&vec![(1, 2)], (2, 1)), 0);
}

#[test]
fn random_apples_are_inside_and_vary() {
    let mut seen = Vec::new();
    for _ in 0..200 {
        let a = random_apple();
        assert!(1 <= a.0 && a.0 < WIDTH - 2);
        assert!(1 <= a.1 && a.1 < HEIGHT - 2);
        assert!(is_inside(a));
        if !seen.contains(&a) {
            seen.push(a);
        }
    }
    assert!(seen.len() > 1);
}

#[test]
fn direction_helpers() {
    assert!(Direction::Up.is_opposite(&Direction::Down));
    assert!(Direction::Right.is_opposite(&Direction::Left));
    assert!(!Direction::Up.is_opposite(&Direction::Left));
    assert!(!Direction::Up.is_opposite(&Direction::Up));
    assert_eq!(Direction::Left.reversed(), Direction::Right);
    assert_eq!(step_from((3, 3), Direction::Down), (3, 4));
    assert_eq!(step_from((3, 0), Direction::Up), (3, 0));
    assert!(is_inside((1, 1)));
    assert!(!is_inside((0, 1)));
    assert!(!is_inside((WIDTH, 1)));
    assert!(!is_inside((1, HEIGHT)));
}

#[test]
fn key_events_turn_only_on_press() {
    let mut s = Snake::new();
    s.handle_keydown(KeyEvent { code: Key::Left, is_press: false });
    assert_eq!(s.direction, Direction::Up);
    s.handle_keydown(press(Key::Other));
    assert_eq!(s.direction, Direction::Up);
    s.handle_keydown(press(Key::Down));
    assert_eq!(s.direction, Direction::Up);
    s.handle_keydown(press(Key::Left));
    assert_eq!(s.direction, Direction::Left);
    s.handle_keydown(press(Key::Esc));
    assert_eq!(s.direction, Direction::Left);
}

#[test]
fn new_game_has_one_food_item() {
    let g = Game::new();
    assert_eq!(g.apples.len(), 1);
    assert!(is_inside(g.apples[0]));
    assert!(!g.over);
    assert_eq!(g.snake.blocks, vec![(10, 10), (10, 9), (10, 8)]);
}

#[test]
fn escape_quits_and_arrows_turn() {
    let mut g = Game::new();
    assert!(!g.on_key(press(Key::Right)));
    assert_eq!(g.snake.direction, Direction::Right);
    assert!(!g.over);
    assert!(g.on_key(KeyEvent { code: Key::Esc, is_press: false }));
    assert!(g.over);
}

#[test]
fn game_ends_at_the_wall_and_keeps_food_count() {
    let mut g = Game::new();
    g.apples = vec![(30, 15)];
    let mut frames = 0;
    while !g.over {
        let ended = g.tick();
        assert_eq!(g.apples, vec![(30, 15)]);
        assert_eq!(ended, g.snake.dead);
        frames += 1;
    }
    assert_eq!(frames, 10);
    assert_eq!(g.snake.blocks, vec![(10, 0), (10, 1), (10, 2)]);
}

#[test]
fn game_tick_eats_food() {
    let mut g = Game::new();
    g.apples = vec![(10, 9)];
    assert!(!g.tick());
    assert_eq!(g.apples.len(), 1);
    assert!(is_inside(g.apples[0]));
    assert_eq!(g.snake.blocks, vec![(10, 9), (10, 10), (10, 9), (10, 10)]);
}
