//! Laying out a frame of the board as a grid of characters.

use crate::snake::{Food, Snake};
use vstd::prelude::*;

verus! {

/// `#`, drawn on the outermost ring of the grid.
pub const BORDER: u8 = 35;

/// `O`, drawn on each cell of the snake.
pub const BODY: u8 = 79;

/// `%`, drawn on the food.
pub const FOOD: u8 = 37;

/// A space, drawn on every other cell.
pub const BLANK: u8 = 32;

/// What the screen shows after a tick: the board, or once the game is over
/// the final length of the snake.
#[derive(Clone, Debug)]
pub enum Screen {
    Board(Vec<Vec<u8>>),
    Summary(usize),
}

/// Whether a segment of `body` lies on cell (x, y).
pub open spec fn occupied(body: Seq<(usize, usize)>, x: int, y: int) -> bool {
    exists|i: int| 0 <= i < body.len() && body[i].0 == x && body[i].1 == y
}

/// Whether `food` lies on cell (x, y).
pub open spec fn food_at(food: Food, x: int, y: int) -> bool {
    match food {
        Food::Exists(fx, fy) => fx == x && fy == y,
        Food::Eaten => false,
    }
}

/// Whether grid column `col` and row `row` lie on the outermost ring of a
/// grid of `size.0` columns and `size.1` rows.
pub open spec fn on_edge(size: (usize, usize), col: int, row: int) -> bool {
    col == 0 || row == 0 || col == size.0 - 1 || row == size.1 - 1
}

/// The character at grid column `col` and row `row`, which show board cell
/// (col + 1, row + 1). The snake is drawn over the food, and the food over
/// the border.
pub open spec fn frame_cell(
    size: (usize, usize),
    food: Food,
    body: Seq<(usize, usize)>,
    col: int,
    row: int,
) -> u8 {
    if occupied(body, col + 1, row + 1) {
        BODY
    } else if food_at(food, col + 1, row + 1) {
        FOOD
    } else if on_edge(size, col, row) {
        BORDER
    } else {
        BLANK
    }
}

/// Whether `g` is the frame of a board of size `size` with `food` and the
/// snake segments `body`: `size.1` rows of `size.0` characters each.
pub open spec fn is_frame(
    g: Seq<Vec<u8>>,
    size: (usize, usize),
    food: Food,
    body: Seq<(usize, usize)>,
) -> bool {
    &&& g.len() == size.1
    &&& forall|r: int| 0 <= r < size.1 ==> (#[trigger] g[r])@.len() == size.0
    &&& forall|r: int, c: int|
        0 <= r < size.1 && 0 <= c < size.0 ==> #[trigger] g[r]@[c] == frame_cell(
            size,
            food,
            body,
            c,
            r,
        )
}

/// Drawn on an empty board, the frame holds border characters all round its
/// edge and blanks everywhere inside.
pub proof fn lemma_empty_board(size: (usize, usize), col: int, row: int)
    requires
        0 <= col < size.0,
        0 <= row < size.1,
    ensures
        on_edge(size, col, row) ==> frame_cell(size, Food::Eaten, Seq::empty(), col, row)
            == BORDER,
        !on_edge(size, col, row) ==> frame_cell(size, Food::Eaten, Seq::empty(), col, row)
            == BLANK,
{
}

fn segment_on(body: &Vec<(usize, usize)>, col: usize, row: usize) -> (r: bool)
    ensures
        r == occupied(body@, col + 1, row + 1),
{
    let mut i: usize = 0;
    while i < body.len()
        invariant
            i <= body@.len(),
            forall|j: int| 0 <= j < i ==> !(body@[j].0 == col + 1 && body@[j].1 == row + 1),
        decreases body@.len() - i,
    {
        let (x, y) = body[i];
        if x >= 1 && y >= 1 && x - 1 == col && y - 1 == row {
            return true;
        }
        i += 1;
    }
    false
}

fn cell(t_size: (usize, usize), food: Food, body: &Vec<(usize, usize)>, col: usize, row: usize) -> (r:
    u8)
    requires
        col < t_size.0,
        row < t_size.1,
    ensures
        r == frame_cell(t_size, food, body@, col as int, row as int),
{
    if segment_on(body, col, row) {
        return BODY;
    }
    let food_here = match food {
        Food::Exists(fx, fy) => fx >= 1 && fy >= 1 && fx - 1 == col && fy - 1 == row,
        Food::Eaten => false,
    };
    if food_here {
        FOOD
    } else if col == 0 || row == 0 || col == t_size.0 - 1 || row == t_size.1 - 1 {
        BORDER
    } else {
        BLANK
    }
}

/// The frame of a board of `t_size.0` columns and `t_size.1` rows with
/// `food` and the snake segments `body`.
pub fn render_frame(t_size: (usize, usize), food: Food, body: &Vec<(usize, usize)>) -> (r: Vec<
    Vec<u8>,
>)
    ensures
        is_frame(r@, t_size, food, body@),
{
    let mut g: Vec<Vec<u8>> = Vec::new();
    let mut row: usize = 0;
    while row < t_size.1
        invariant
            row <= t_size.1,
            g@.len() == row,
            forall|r: int| 0 <= r < row ==> (#[trigger] g@[r])@.len() == t_size.0,
            forall|r: int, c: int|
                0 <= r < row && 0 <= c < t_size.0 ==> #[trigger] g@[r]@[c] == frame_cell(
                    t_size,
                    food,
                    body@,
                    c,
                    r,
                ),
        decreases t_size.1 - row,
    {
        let mut line: Vec<u8> = Vec::new();
        let mut col: usize = 0;
        while col < t_size.0
            invariant
                col <= t_size.0,
                row < t_size.1,
                line@.len() == col,
                forall|c: int|
                    0 <= c < col ==> line@[c] == frame_cell(t_size, food, body@, c, row as int),
            decreases t_size.0 - col,
        {
            let ch = cell(t_size, food, body, col, row);
            line.push(ch);
            col += 1;
        }
        g.push(line);
        row += 1;
    }
    g
}

/// The screen after a tick: the summary with the snake's length once `exit`
/// is set, else the frame of the board.
pub fn render(t_size: (usize, usize), food: Food, snake: &Snake, exit: bool) -> (r: Screen)
    ensures
        match r {
            Screen::Summary(n) => exit && n == snake@.body.len(),
            Screen::Board(g) => !exit && is_frame(g@, t_size, food, snake@.body),
        },
{
    if exit {
        Screen::Summary(snake.len())
    } else {
        let body = snake.segments();
        Screen::Board(render_frame(t_size, food, &body))
    }
}

} // verus!
