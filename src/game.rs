//! One tick of the game loop, and the keys that steer it.

use crate::food::{generate_food, in_playing_field};
use crate::snake::{advance, Directions, Food, Snake};
use vstd::prelude::*;

verus! {

/// One tick of the game on a board of size `t_size`: food is placed first if
/// there is none, then the snake takes one step.
///
/// With food on the board the result is exactly one step; without, it is one
/// step with some newly placed food on a cell of the playing field.
pub fn tick(snake: &mut Snake, food: &mut Food, t_size: (usize, usize), exit: &mut bool)
    requires
        old(snake).wf(),
        *old(food) == Food::Eaten ==> t_size.0 > 2 && t_size.1 > 2,
    ensures
        final(snake).wf(),
        *old(food) != Food::Eaten ==> (final(snake)@, *final(food), *final(exit)) == advance(
            old(snake)@,
            *old(food),
            t_size,
            *old(exit),
        ),
        *old(food) == Food::Eaten ==> exists|placed: Food|
            in_playing_field(placed, t_size) && (final(snake)@, *final(food), *final(exit))
                == advance(old(snake)@, placed, t_size, *old(exit)),
{
    if *food == Food::Eaten {
        *food = generate_food(t_size);
    }
    let ghost placed = *food;
    snake.move_heads(food, t_size, exit);
    assert(in_playing_field(placed, t_size) ==> (snake@, *food, *exit) == advance(
        old(snake)@,
        placed,
        t_size,
        *old(exit),
    ));
}

/// What one key press asks of the game.
#[derive(Clone, Copy, PartialEq, Eq, Structural, Debug)]
pub enum Command {
    Turn(Directions),
    Quit,
    Ignore,
}

/// Whether the three bytes of a key press are `a`, `b`, `c`.
pub open spec fn key_is(k: Seq<u8>, a: u8, b: u8, c: u8) -> bool {
    k.len() == 3 && k[0] == a && k[1] == b && k[2] == c
}

/// Whether a key press is the single letter `lower` or its capital, alone in
/// the buffer.
pub open spec fn letter_key(k: Seq<u8>, lower: u8, upper: u8) -> bool {
    key_is(k, lower, 0, 0) || key_is(k, upper, 0, 0)
}

/// Whether a key press is the escape sequence of an arrow key, ending in `last`.
pub open spec fn arrow_key(k: Seq<u8>, last: u8) -> bool {
    key_is(k, 27, 91, last)
}

/// The command of a key press: w, s, d, a (either case) or the arrow keys
/// steer, q (either case) or a lone escape quits, anything else is ignored.
/// Bytes are ASCII: 119/87 is w/W, 115/83 s/S, 100/68 d/D, 97/65 a/A,
/// 113/81 q/Q, 27 escape; an arrow key is escape, `[` (91), then A to D (65 to 68).
pub open spec fn command_of(k: Seq<u8>) -> Command {
    if letter_key(k, 119, 87) || arrow_key(k, 65) {
        Command::Turn(Directions::Up)
    } else if letter_key(k, 115, 83) || arrow_key(k, 66) {
        Command::Turn(Directions::Down)
    } else if letter_key(k, 100, 68) || arrow_key(k, 67) {
        Command::Turn(Directions::Right)
    } else if letter_key(k, 97, 65) || arrow_key(k, 68) {
        Command::Turn(Directions::Left)
    } else if letter_key(k, 113, 81) || key_is(k, 27, 0, 0) {
        Command::Quit
    } else {
        Command::Ignore
    }
}

fn is_key(key: &[u8; 3], a: u8, b: u8, c: u8) -> (r: bool)
    ensures
        r == key_is(key@, a, b, c),
{
    key[0] == a && key[1] == b && key[2] == c
}

/// Decodes the bytes of one key press, as read from the terminal with unused
/// bytes left zero.
pub fn decode_key(key: [u8; 3]) -> (r: Command)
    ensures
        r == command_of(key@),
{
    if is_key(&key, 119, 0, 0) || is_key(&key, 87, 0, 0) || is_key(&key, 27, 91, 65) {
        Command::Turn(Directions::Up)
    } else if is_key(&key, 115, 0, 0) || is_key(&key, 83, 0, 0) || is_key(&key, 27, 91, 66) {
        Command::Turn(Directions::Down)
    } else if is_key(&key, 100, 0, 0) || is_key(&key, 68, 0, 0) || is_key(&key, 27, 91, 67) {
        Command::Turn(Directions::Right)
    } else if is_key(&key, 97, 0, 0) || is_key(&key, 65, 0, 0) || is_key(&key, 27, 91, 68) {
        Command::Turn(Directions::Left)
    } else if is_key(&key, 113, 0, 0) || is_key(&key, 81, 0, 0) || is_key(&key, 27, 0, 0) {
        Command::Quit
    } else {
        Command::Ignore
    }
}

} // verus!
