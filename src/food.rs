use rand::Rng;
use vstd::prelude::*;
use crate::direction::{in_bounds, Position, HEIGHT, WIDTH};

verus! {

/// The food items of `s` that are not at `p`, in their order.
pub open spec fn remaining(s: Seq<Position>, p: Position) -> Seq<Position>
    decreases s.len(),
{
    if s.len() == 0 {
        Seq::empty()
    } else if s.last() == p {
        remaining(s.drop_last(), p)
    } else {
        remaining(s.drop_last(), p).push(s.last())
    }
}

/// How many food items of `s` stand at `p`.
pub open spec fn eaten_count(s: Seq<Position>, p: Position) -> nat
    decreases s.len(),
{
    if s.len() == 0 {
        0
    } else if s.last() == p {
        eaten_count(s.drop_last(), p) + 1
    } else {
        eaten_count(s.drop_last(), p)
    }
}

/// Every item at `p` is either eaten or kept: the two counts add up.
pub proof fn lemma_remaining_len(s: Seq<Position>, p: Position)
    ensures
        remaining(s, p).len() + eaten_count(s, p) == s.len(),
    decreases s.len(),
{
    if s.len() > 0 {
        lemma_remaining_len(s.drop_last(), p);
    }
}

/// What remains holds no item at `p`, and only items of `s`.
pub proof fn lemma_remaining_items(s: Seq<Position>, p: Position)
    ensures
        forall|i: int| 0 <= i < remaining(s, p).len() ==> remaining(s, p)[i] != p,
        forall|i: int| 0 <= i < remaining(s, p).len() ==> s.contains(#[trigger] remaining(s, p)[i]),
    decreases s.len(),
{
    if s.len() > 0 {
        let t = s.drop_last();
        lemma_remaining_items(t, p);
        assert forall|i: int| 0 <= i < remaining(s, p).len() implies s.contains(
            #[trigger] remaining(s, p)[i],
        ) by {
            if i < remaining(t, p).len() {
                let j = choose|j: int| 0 <= j < t.len() && t[j] == remaining(t, p)[i];
                assert(s[j] == t[j]);
            } else {
                assert(s[s.len() - 1] == s.last());
            }
        }
    }
}

/// Relies on rand::thread_rng and rand::Rng::gen_range: a value drawn from
/// `[low, high)`; gen_range panics only on an empty range.
#[verifier::external_body]
fn random_in(low: u16, high: u16) -> (r: u16)
    requires
        low < high,
    ensures
        low <= r < high,
{
    rand::thread_rng().gen_range(low..high)
}

/// A freshly drawn food position, clear of the walls and of the last two
/// columns and rows before the far walls.
pub fn random_apple() -> (r: Position)
    ensures
        1 <= r.0 < WIDTH - 2,
        1 <= r.1 < HEIGHT - 2,
        in_bounds(r),
{
    let x = random_in(1, WIDTH - 2);
    let y = random_in(1, HEIGHT - 2);
    (x, y)
}

} // verus!
