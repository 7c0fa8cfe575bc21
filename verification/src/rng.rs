use vstd::prelude::*;

verus! {

/// Fixed word mixed into every draw so that a zero seed still produces
/// a nonzero generator state.
pub const DRAW_SALT: u64 = 0x9E3779B97F4A7C15;

/// One xorshift round over a 64-bit word.
pub open spec fn spec_mix(x: u64) -> u64 {
    let a = x ^ (x << 13);
    let b = a ^ (a >> 7);
    b ^ (b << 17)
}

/// The pseudo-random word that `seed` yields for the cell at `row`,
/// `column`: two xorshift rounds over the seed combined with the cell's
/// coordinates. The draw is a pure function of its arguments, so a fixed
/// seed always yields the same word for the same cell.
pub open spec fn spec_cell_draw(seed: u64, row: u64, column: u64) -> u64 {
    spec_mix(spec_mix(seed ^ (row << 32) ^ column ^ DRAW_SALT))
}

/// One xorshift round over a 64-bit word.
pub fn mix(x: u64) -> (r: u64)
    ensures
        r == spec_mix(x),
{
    let a = x ^ (x << 13u64);
    let b = a ^ (a >> 7u64);
    b ^ (b << 17u64)
}

/// The deterministic per-cell draw used to randomize a board.
pub fn cell_draw(seed: u64, row: u64, column: u64) -> (r: u64)
    ensures
        r == spec_cell_draw(seed, row, column),
{
    mix(mix(seed ^ (row << 32u64) ^ column ^ DRAW_SALT))
}

/// Whether the cell at `row`, `column` is marked when a board is
/// randomized with the given seed and a one-in-`one_in` probability.
pub open spec fn spec_cell_marked(seed: u64, one_in: u64, row: u64, column: u64) -> bool {
    spec_cell_draw(seed, row, column) % one_in == 0
}

/// The deterministic per-cell coin: marked on a one-in-`one_in` draw.
pub fn cell_marked(seed: u64, one_in: u64, row: u64, column: u64) -> (r: bool)
    requires
        one_in >= 1,
    ensures
        r == spec_cell_marked(seed, one_in, row, column),
{
    cell_draw(seed, row, column) % one_in == 0
}

} // verus!
