use snake::food::generate_food;
use snake::game::{decode_key, tick, Command};
use snake::render::{render, render_frame, Screen, BLANK, BODY, BORDER, FOOD};
use snake::snake::{Directions, Food, Snake};

const ALL: [Directions; 5] = [
    Directions::Up,
    Directions::Down,
    Directions::Right,
    Directions::Left,
    Directions::Stop,
];

fn is_reversal(a: Directions, b: Directions) -> bool {
    matches!(
        (a, b),
        (Directions::Up, Directions::Down)
            | (Directions::Down, Directions::Up)
            | (Directions::Left, Directions::Right)
            | (Directions::Right, Directions::Left)
    )
}

fn heading(d: Directions) -> Snake {
    let mut s = Snake::new();
    s.change_dir(d);
    s
}

#[test]
fn new_snake_has_two_segments_and_stands_still() {
    let s = Snake::new();
    assert_eq!(s.len(), 2);
    assert_eq!(s.segments(), vec![(2, 2), (2, 3)]);
    assert_eq!(s.direction(), Directions::Stop);
}

#[test]
fn change_dir_accepts_all_but_reversals() {
    for cur in ALL {
        for req in ALL {
            let mut s = heading(cur);
            assert_eq!(s.direction(), cur);
            s.change_dir(req);
            let expected = if req == Directions::Stop || is_reversal(cur, req) { cur } else { req };
            assert_eq!(s.direction(), expected, "from {:?} to {:?}", cur, req);
            assert_eq!(s.segments(), vec![(2, 2), (2, 3)]);
        }
    }
}

#[test]
fn change_dir_rejects_each_reversal() {
    let pairs = [
        (Directions::Up, Directions::Down),
        (Directions::Down, Directions::Up),
        (Directions::Left, Directions::Right),
        (Directions::Right, Directions::Left),
    ];
    for (a, b) in pairs {
        let mut s = heading(a);
        s.change_dir(b);
        assert_eq!(s.direction(), a);
    }
}

#[test]
fn standing_snake_does_not_move() {
    let mut s = Snake::new();
    let mut food = Food::Exists(5, 5);
    let mut exit = false;
    s.move_heads(&mut food, (10, 10), &mut exit);
    assert_eq!(s.segments(), vec![(2, 2), (2, 3)]);
    assert_eq!(food, Food::Exists(5, 5));
    assert!(!exit);
}

#[test]
fn ticks_without_food_keep_length_and_move_head_straight() {
    let mut s = heading(Directions::Right);
    let mut food = Food::Exists(15, 15);
    let mut exit = false;
    for n in 1..=6usize {
        s.move_heads(&mut food, (20, 20), &mut exit);
        assert!(!exit);
        assert_eq!(s.len(), 2);
        assert_eq!(s.segments()[0], (2 + n, 2));
    }
    assert_eq!(s.segments(), vec![(8, 2), (7, 2)]);
    assert_eq!(food, Food::Exists(15, 15));
}

#[test]
fn eating_grows_by_one_and_eats_the_food() {
    let mut s = heading(Directions::Right);
    let mut food = Food::Exists(3, 2);
    let mut exit = false;
    s.move_heads(&mut food, (10, 10), &mut exit);
    assert!(!exit);
    assert_eq!(s.len(), 3);
    assert_eq!(s.segments(), vec![(3, 2), (2, 2), (2, 3)]);
    assert_eq!(food, Food::Eaten);
}

#[test]
fn step_without_food_on_board_shifts() {
    let mut s = heading(Directions::Right);
    let mut food = Food::Eaten;
    let mut exit = false;
    s.move_heads(&mut food, (10, 10), &mut exit);
    assert_eq!(s.segments(), vec![(3, 2), (2, 2)]);
    assert_eq!(food, Food::Eaten);
}

#[test]
fn moving_up_into_row_one_ends_the_game() {
    let mut s = heading(Directions::Up);
    let mut food = Food::Exists(5, 5);
    let mut exit = false;
    s.move_heads(&mut food, (10, 10), &mut exit);
    assert!(exit);
    assert_eq!(s.segments(), vec![(2, 2), (2, 3)]);
    assert_eq!(food, Food::Exists(5, 5));
}

#[test]
fn moving_into_the_far_border_ends_the_game() {
    let mut s = heading(Directions::Right);
    let mut food = Food::Exists(2, 5);
    let mut exit = false;
    s.move_heads(&mut food, (4, 10), &mut exit);
    assert!(!exit);
    assert_eq!(s.segments(), vec![(3, 2), (2, 2)]);
    s.move_heads(&mut food, (4, 10), &mut exit);
    assert!(exit);
    assert_eq!(s.segments(), vec![(3, 2), (2, 2)]);
}

#[test]
fn moving_into_own_body_ends_the_game() {
    let mut s = heading(Directions::Down);
    let mut food = Food::Exists(5, 5);
    let mut exit = false;
    s.move_heads(&mut food, (10, 10), &mut exit);
    assert!(exit);
    assert_eq!(s.segments(), vec![(2, 2), (2, 3)]);
}

#[test]
fn steps_after_the_end_change_nothing() {
    let mut s = heading(Directions::Up);
    let mut food = Food::Exists(5, 5);
    let mut exit = false;
    s.move_heads(&mut food, (10, 10), &mut exit);
    assert!(exit);
    s.change_dir(Directions::Right);
    s.move_heads(&mut food, (10, 10), &mut exit);
    s.move_heads(&mut food, (10, 10), &mut exit);
    assert!(exit);
    assert_eq!(s.segments(), vec![(2, 2), (2, 3)]);
    assert_eq!(food, Food::Exists(5, 5));
}

#[test]
fn tick_from_start_moving_right() {
    let mut s = heading(Directions::Right);
    let mut food = Food::Eaten;
    let mut exit = false;
    tick(&mut s, &mut food, (10, 10), &mut exit);
    assert!(!exit);
    match food {
        Food::Exists(x, y) => {
            assert!((2..10).contains(&x) && (2..10).contains(&y));
            assert_ne!((x, y), (3, 2));
            assert_eq!(s.segments(), vec![(3, 2), (2, 2)]);
            assert_eq!(s.len(), 2);
        }
        Food::Eaten => {
            assert_eq!(s.segments(), vec![(3, 2), (2, 2), (2, 3)]);
        }
    }
}

#[test]
fn tick_keeps_existing_food() {
    let mut s = heading(Directions::Right);
    let mut food = Food::Exists(7, 7);
    let mut exit = false;
    tick(&mut s, &mut food, (10, 10), &mut exit);
    assert_eq!(food, Food::Exists(7, 7));
    assert_eq!(s.segments(), vec![(3, 2), (2, 2)]);
}

#[test]
fn moving_left_from_start_hits_the_border() {
    let mut s = heading(Directions::Left);
    let mut food = Food::Exists(5, 5);
    let mut exit = false;
    s.move_heads(&mut food, (10, 10), &mut exit);
    assert!(exit);
    assert_eq!(s.len(), 2);
    assert_eq!(s.segments(), vec![(2, 2), (2, 3)]);
}

#[test]
fn generated_food_lies_in_the_playing_field() {
    let mut seen_x = Vec::new();
    let mut seen_y = Vec::new();
    for _ in 0..200 {
        match generate_food((7, 5)) {
            Food::Exists(x, y) => {
                assert!((2..7).contains(&x) && (2..5).contains(&y));
                seen_x.push(x);
                seen_y.push(y);
            }
            Food::Eaten => panic!("no food placed"),
        }
    }
    assert!(seen_x.iter().any(|&x| x != 2));
    assert!(seen_y.iter().any(|&y| y != 2));
}

#[test]
fn generated_food_on_the_smallest_board() {
    assert_eq!(generate_food((3, 3)), Food::Exists(2, 2));
}

#[test]
fn empty_board_frame_is_border_and_blank() {
    let (w, h) = (6usize, 4usize);
    let g = render_frame((w, h), Food::Eaten, &vec![]);
    assert_eq!(g.len(), h);
    for (r, line) in g.iter().enumerate() {
        assert_eq!(line.len(), w);
        for (c, &ch) in line.iter().enumerate() {
            let edge = r == 0 || c == 0 || r == h - 1 || c == w - 1;
            assert_eq!(ch, if edge { BORDER } else { BLANK });
        }
    }
}

#[test]
fn frame_draws_snake_over_food_and_food_over_border() {
    let g = render_frame((5, 4), Food::Exists(1, 2), &vec![(3, 2), (2, 2)]);
    let text: Vec<String> = g.iter().map(|l| String::from_utf8(l.clone()).unwrap()).collect();
    assert_eq!(text, vec!["#####", "%OO #", "#   #", "#####"]);
    let g = render_frame((5, 4), Food::Exists(3, 2), &vec![(3, 2), (2, 2)]);
    assert_eq!(g[1][2], BODY);
    let g = render_frame((5, 4), Food::Exists(4, 3), &vec![(3, 2)]);
    assert_eq!(g[2][3], FOOD);
}

#[test]
fn render_gives_summary_once_over() {
    let s = Snake::new();
    match render((10, 10), Food::Eaten, &s, true) {
        Screen::Summary(n) => assert_eq!(n, 2),
        Screen::Board(_) => panic!("expected the summary"),
    }
    match render((10, 10), Food::Exists(5, 5), &s, false) {
        Screen::Board(g) => {
            assert_eq!(g.len(), 10);
            assert_eq!(g[1][1], BODY);
            assert_eq!(g[2][1], BODY);
            assert_eq!(g[4][4], FOOD);
            assert_eq!(g[0][3], BORDER);
        }
        Screen::Summary(_) => panic!("expected the board"),
    }
}

#[test]
fn keys_steer_quit_or_are_ignored() {
    let up = Command::Turn(Directions::Up);
    let down = Command::Turn(Directions::Down);
    let right = Command::Turn(Directions::Right);
    let left = Command::Turn(Directions::Left);
    assert_eq!(decode_key([b'w', 0, 0]), up);
    assert_eq!(decode_key([b'W', 0, 0]), up);
    assert_eq!(decode_key([27, 91, 65]), up);
    assert_eq!(decode_key([b's', 0, 0]), down);
    assert_eq!(decode_key([b'S', 0, 0]), down);
    assert_eq!(decode_key([27, 91, 66]), down);
    assert_eq!(decode_key([b'd', 0, 0]), right);
    assert_eq!(decode_key([b'D', 0, 0]), right);
    assert_eq!(decode_key([27, 91, 67]), right);
    assert_eq!(decode_key([b'a', 0, 0]), left);
    assert_eq!(decode_key([b'A', 0, 0]), left);
    assert_eq!(decode_key([27, 91, 68]), left);
    assert_eq!(decode_key([b'q', 0, 0]), Command::Quit);
    assert_eq!(decode_key([b'Q', 0, 0]), Command::Quit);
    assert_eq!(decode_key([27, 0, 0]), Command::Quit);
    assert_eq!(decode_key([b'x', 0, 0]), Command::Ignore);
    assert_eq!(decode_key([b'w', b'w', 0]), Command::Ignore);
    assert_eq!(decode_key([27, 91, 69]), Command::Ignore);
    assert_eq!(decode_key([0, 0, 0]), Command::Ignore);
}
