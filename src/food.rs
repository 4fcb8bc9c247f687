//! Placing food on the board.

use crate::snake::Food;
use rand::Rng;
use vstd::prelude::*;

verus! {

/// Whether `food` lies on a cell of the playing field of a board of size `bounds`.
pub open spec fn in_playing_field(food: Food, bounds: (usize, usize)) -> bool {
    match food {
        Food::Exists(x, y) => 2 <= x < bounds.0 && 2 <= y < bounds.1,
        Food::Eaten => false,
    }
}

/// Relies on rand::thread_rng and rand::Rng::gen_range: a number drawn from
/// `lo..hi`, which gen_range asks to be non-empty (it panics otherwise).
#[verifier::external_body]
fn draw_in(lo: usize, hi: usize) -> (r: usize)
    requires
        lo < hi,
    ensures
        lo <= r < hi,
{
    rand::thread_rng().gen_range(lo..hi)
}

/// New food on a random cell of the playing field, drawn without regard to
/// where the snake lies.
pub fn generate_food(t_size: (usize, usize)) -> (r: Food)
    requires
        t_size.0 > 2,
        t_size.1 > 2,
    ensures
        in_playing_field(r, t_size),
{
    let x = draw_in(2, t_size.0);
    let y = draw_in(2, t_size.1);
    Food::Exists(x, y)
}

} // verus!
