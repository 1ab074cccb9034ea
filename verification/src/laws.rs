use vstd::prelude::*;

use vstd::arithmetic::div_mod::lemma_div_is_ordered;

use crate::cell::Cell;
use crate::direction::Direction;
use crate::game::delay_spec;
use crate::game::move_step;

verus! {

/// The snake's body after a run of ticks in which it never eats, each tick
/// applying the next direction of `ds`.
pub open spec fn move_steps(body: Seq<Cell>, ds: Seq<Direction>) -> Seq<Cell>
    decreases ds.len(),
{
    if ds.len() == 0 {
        body
    } else {
        move_steps(move_step(body, ds[0]), ds.drop_first())
    }
}

/// Any number of consecutive ticks without eating leaves the snake's
/// length unchanged: each step, as `tick` establishes through `move_step`,
/// adds one cell at the head and drops one at the tail, shifting the body
/// along the applied directions.
pub proof fn lemma_move_steps_preserve_len(body: Seq<Cell>, ds: Seq<Direction>)
    requires
        body.len() >= 1,
    ensures
        move_steps(body, ds).len() == body.len(),
    decreases ds.len(),
{
    if ds.len() > 0 {
        lemma_move_steps_preserve_len(move_step(body, ds[0]), ds.drop_first());
    }
}

/// After a run of non-eating ticks the snake has shifted forward along
/// the applied directions: the part of the body behind the cells entered
/// during the run is exactly the front of the original body.
pub proof fn lemma_move_steps_shift(body: Seq<Cell>, ds: Seq<Direction>)
    requires
        1 <= body.len(),
        ds.len() <= body.len(),
    ensures
        move_steps(body, ds).subrange(ds.len() as int, body.len() as int) == body.subrange(
            0,
            body.len() - ds.len(),
        ),
    decreases ds.len(),
{
    lemma_move_steps_preserve_len(body, ds);
    let len = body.len() as int;
    let n = ds.len() as int;
    let fin = move_steps(body, ds);
    if ds.len() == 0 {
        assert(fin.subrange(0, len) =~= body.subrange(0, len));
    } else {
        let b1 = move_step(body, ds[0]);
        let rest = ds.drop_first();
        lemma_move_steps_shift(b1, rest);
        assert forall|k: int| 0 <= k < len - n implies fin.subrange(n, len)[k] == body.subrange(
            0,
            len - n,
        )[k] by {
            assert(fin.subrange(n - 1, len)[k + 1] == b1.subrange(0, len - (n - 1))[k + 1]);
            assert(b1[k + 1] == body.drop_last()[k]);
        }
        assert(fin.subrange(n, len) =~= body.subrange(0, len - n));
    }
}

/// The tick delay never grows as the score grows, and never drops below
/// the configured minimum.
pub proof fn lemma_delay_monotone(base: u64, min: u64, s1: u32, s2: u32)
    requires
        s1 <= s2,
    ensures
        delay_spec(base, min, s2) <= delay_spec(base, min, s1),
        min <= delay_spec(base, min, s1),
{
    lemma_div_is_ordered(s1 as int, s2 as int, 4);
}

/// The opposite-direction relation is symmetric, pairs each direction with
/// exactly the one returned by `opposite_of` (Up with Down, Left with
/// Right), and never relates a direction to itself or to a perpendicular
/// one.
pub proof fn lemma_opposite_pairs()
    ensures
        forall|a: Direction, b: Direction| #[trigger] a.opposite(b) == b.opposite(a),
        forall|d: Direction| #[trigger] d.opposite(d.opposite_of()),
        forall|d: Direction| (#[trigger] d.opposite_of()).opposite(d),
        forall|a: Direction, b: Direction| #[trigger] a.opposite(b) ==> b == a.opposite_of(),
        forall|d: Direction| !(#[trigger] d.opposite(d)),
        !Direction::Up.opposite(Direction::Left),
        !Direction::Up.opposite(Direction::Right),
{
}

} // verus!
