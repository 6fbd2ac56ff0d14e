use vstd::prelude::*;
use crate::direction::{in_bounds, is_inside, opposite, step, step_from, Direction, Position};
use crate::food::{lemma_remaining_items, lemma_remaining_len, eaten_count, random_apple, remaining};
use crate::input::{Key, KeyEvent};

verus! {

/// The body after `n` growth steps, each adding a segment behind the tail,
/// away from heading `d`.
pub open spec fn grown(blocks: Seq<Position>, d: Direction, n: nat) -> Seq<Position>
    decreases n,
{
    if n == 0 {
        blocks
    } else {
        let b = grown(blocks, d, (n - 1) as nat);
        b.push(step(b.last(), opposite(d)))
    }
}

/// Each growth step adds exactly one segment and keeps the others.
pub proof fn lemma_grown_len(blocks: Seq<Position>, d: Direction, n: nat)
    ensures
        grown(blocks, d, n).len() == blocks.len() + n,
        forall|i: int| 0 <= i < blocks.len() ==> grown(blocks, d, n)[i] == blocks[i],
    decreases n,
{
    if n > 0 {
        lemma_grown_len(blocks, d, (n - 1) as nat);
    }
}

/// The heading after asking for `requested`: a reversal is refused.
pub open spec fn turned(heading: Direction, requested: Direction) -> Direction {
    if requested == opposite(heading) {
        heading
    } else {
        requested
    }
}

/// The heading asked for by a key event, if any.
pub open spec fn requested_by(event: KeyEvent) -> Option<Direction> {
    if !event.is_press {
        None
    } else {
        match event.code {
            Key::Up => Some(Direction::Up),
            Key::Down => Some(Direction::Down),
            Key::Left => Some(Direction::Left),
            Key::Right => Some(Direction::Right),
            _ => None,
        }
    }
}

pub struct Snake {
    /// Body segments, head first and tail last.
    pub blocks: Vec<Position>,
    pub direction: Direction,
    pub dead: bool,
}

/// How many food items stand at `p`.
pub fn count_eaten(apples: &Vec<Position>, p: Position) -> (r: usize)
    ensures
        r == eaten_count(apples@, p),
{
    let mut n: usize = 0;
    let mut i: usize = 0;
    while i < apples.len()
        invariant
            i <= apples@.len(),
            n == eaten_count(apples@.subrange(0, i as int), p),
        decreases apples@.len() - i,
    {
        let ghost pre = apples@.subrange(0, i as int);
        let ghost cur = apples@.subrange(0, i as int + 1);
        assert(cur.drop_last() =~= pre);
        proof {
            lemma_remaining_len(pre, p);
        }
        let a = apples[i];
        if a.0 == p.0 && a.1 == p.1 {
            n = n + 1;
        }
        i = i + 1;
    }
    assert(apples@.subrange(0, apples@.len() as int) =~= apples@);
    n
}

impl Snake {
    /// A snake has at least one segment.
    pub open spec fn wf(&self) -> bool {
        self.blocks@.len() >= 1
    }

    pub open spec fn head(&self) -> Position {
        self.blocks@[0]
    }

    /// The snake every session starts with: three segments heading up.
    pub fn new() -> (s: Snake)
        ensures
            s.wf(),
            s.blocks@ == seq![(10u16, 10u16), (10u16, 9u16), (10u16, 8u16)],
            s.direction == Direction::Up,
            !s.dead,
    {
        let s = Snake { blocks: vec![(10, 10), (10, 9), (10, 8)], direction: Direction::Up, dead: false };
        assert(s.blocks@ =~= seq![(10u16, 10u16), (10u16, 9u16), (10u16, 8u16)]);
        s
    }

    /// Moves one cell along the heading: the new head is put in front and the
    /// tail dropped. A head on or past a wall kills the snake; it still moves.
    pub fn move_forward(&mut self)
        requires
            old(self).wf(),
        ensures
            final(self).wf(),
            final(self).blocks@ == seq![step(old(self).head(), old(self).direction)]
                + old(self).blocks@.drop_last(),
            final(self).blocks@.len() == old(self).blocks@.len(),
            final(self).head() == step(old(self).head(), old(self).direction),
            final(self).dead == (old(self).dead || !in_bounds(final(self).head())),
            final(self).direction == old(self).direction,
    {
        let head = self.blocks[0];
        let new_head = step_from(head, self.direction);
        if !is_inside(new_head) {
            self.dead = true;
        }
        self.blocks.insert(0, new_head);
        self.blocks.pop();
        assert(self.blocks@ =~= seq![new_head] + old(self).blocks@.drop_last());
    }

    /// Takes `new_direction` as heading, unless it reverses the current one.
    pub fn change_direction(&mut self, new_direction: Direction)
        ensures
            final(self).direction == turned(old(self).direction, new_direction),
            new_direction == opposite(old(self).direction) ==> final(self).direction
                == old(self).direction,
            new_direction != opposite(old(self).direction) ==> final(self).direction
                == new_direction,
            final(self).blocks == old(self).blocks,
            final(self).dead == old(self).dead,
    {
        if !self.direction.is_opposite(&new_direction) {
            self.direction = new_direction;
        }
    }

    /// Turns as an arrow key asks; releases and other keys change nothing.
    pub fn handle_keydown(&mut self, event: KeyEvent)
        ensures
            final(self).direction == match requested_by(event) {
                Some(d) => turned(old(self).direction, d),
                None => old(self).direction,
            },
            final(self).blocks == old(self).blocks,
            final(self).dead == old(self).dead,
    {
        if event.is_press {
            match event.code {
                Key::Left => self.change_direction(Direction::Left),
                Key::Right => self.change_direction(Direction::Right),
                Key::Up => self.change_direction(Direction::Up),
                Key::Down => self.change_direction(Direction::Down),
                _ => {},
            }
        }
    }

    /// Adds one segment behind the tail, one cell away from the heading.
    pub fn grow(&mut self)
        requires
            old(self).wf(),
            old(self).blocks@.len() < usize::MAX,
        ensures
            final(self).wf(),
            final(self).blocks@ == grown(old(self).blocks@, old(self).direction, 1),
            final(self).blocks@ == old(self).blocks@.push(
                step(old(self).blocks@.last(), opposite(old(self).direction)),
            ),
            final(self).blocks@.len() == old(self).blocks@.len() + 1,
            final(self).direction == old(self).direction,
            final(self).dead == old(self).dead,
    {
        let tail = self.blocks[self.blocks.len() - 1];
        let cords = step_from(tail, self.direction.reversed());
        self.blocks.push(cords);
        assert(grown(old(self).blocks@, old(self).direction, 0) == old(self).blocks@);
    }

    /// Eats every food item under the head, given the replacements to place:
    /// one segment grows per item eaten, the other items keep their order,
    /// and `fresh` follows them.
    pub fn resolve_food(&mut self, apples: Vec<Position>, fresh: Vec<Position>) -> (r: Vec<Position>)
        requires
            old(self).wf(),
            old(self).blocks@.len() + apples@.len() < usize::MAX,
            fresh@.len() == eaten_count(apples@, old(self).head()),
        ensures
            final(self).wf(),
            final(self).blocks@ == grown(
                old(self).blocks@,
                old(self).direction,
                eaten_count(apples@, old(self).head()),
            ),
            final(self).blocks@.len() == old(self).blocks@.len() + eaten_count(apples@, old(self).head()),
            r@ == remaining(apples@, old(self).head()) + fresh@,
            r@.len() == apples@.len(),
            final(self).direction == old(self).direction,
            final(self).dead == old(self).dead,
    {
        let ghost blocks0 = self.blocks@;
        let head = self.blocks[0];
        let mut kept: Vec<Position> = Vec::new();
        let mut i: usize = 0;
        while i < apples.len()
            invariant
                i <= apples@.len(),
                self.wf(),
                self.head() == head,
                self.direction == old(self).direction,
                self.dead == old(self).dead,
                blocks0 == old(self).blocks@,
                blocks0.len() + apples@.len() < usize::MAX,
                self.blocks@ == grown(blocks0, self.direction, eaten_count(apples@.subrange(0, i as int), head)),
                kept@ == remaining(apples@.subrange(0, i as int), head),
            decreases apples@.len() - i,
        {
            let ghost pre = apples@.subrange(0, i as int);
            let ghost cur = apples@.subrange(0, i as int + 1);
            assert(cur.drop_last() =~= pre);
            assert(cur.last() == apples@[i as int]);
            proof {
                lemma_remaining_len(pre, head);
                lemma_grown_len(blocks0, self.direction, eaten_count(pre, head));
            }
            let a = apples[i];
            if a.0 == head.0 && a.1 == head.1 {
                self.grow();
            } else {
                kept.push(a);
            }
            i = i + 1;
        }
        assert(apples@.subrange(0, apples@.len() as int) =~= apples@);
        proof {
            lemma_remaining_len(apples@, head);
            lemma_grown_len(blocks0, self.direction, eaten_count(apples@, head));
        }
        let mut fresh = fresh;
        kept.append(&mut fresh);
        kept
    }
    /// Eats every food item under the head: one segment grows per item eaten,
    /// the other items keep their order, and one freshly drawn item on a
    /// playable cell follows them for each one eaten, so the number of food
    /// items is kept.
    pub fn detect_apple(&mut self, apples: Vec<Position>) -> (r: Vec<Position>)
        requires
            old(self).wf(),
            old(self).blocks@.len() + apples@.len() < usize::MAX,
        ensures
            final(self).wf(),
            final(self).blocks@ == grown(
                old(self).blocks@,
                old(self).direction,
                eaten_count(apples@, old(self).head()),
            ),
            final(self).blocks@.len() == old(self).blocks@.len() + eaten_count(apples@, old(self).head()),
            eaten_count(apples@, old(self).head()) == 1 ==> final(self).blocks@.len()
                == old(self).blocks@.len() + 1,
            r@.len() == apples@.len(),
            r@.subrange(0, remaining(apples@, old(self).head()).len() as int) == remaining(
                apples@,
                old(self).head(),
            ),
            forall|i: int|
                0 <= i < remaining(apples@, old(self).head()).len() ==> r@[i] != old(self).head(),
            forall|i: int|
                remaining(apples@, old(self).head()).len() <= i < r@.len() ==> in_bounds(
                    #[trigger] r@[i],
                ),
            final(self).direction == old(self).direction,
            final(self).dead == old(self).dead,
    {
        let head = self.blocks[0];
        let n = count_eaten(&apples, head);
        let mut fresh: Vec<Position> = Vec::new();
        let mut k: usize = 0;
        while k < n
            invariant
                k <= n,
                fresh@.len() == k,
                forall|i: int| 0 <= i < k ==> in_bounds(#[trigger] fresh@[i]),
            decreases n - k,
        {
            fresh.push(random_apple());
            k = k + 1;
        }
        let ghost fresh0 = fresh@;
        let r = self.resolve_food(apples, fresh);
        proof {
            lemma_remaining_items(apples@, head);
            let rem = remaining(apples@, head);
            assert(r@.subrange(0, rem.len() as int) =~= rem);
            assert forall|i: int| rem.len() <= i < r@.len() implies in_bounds(#[trigger] r@[i]) by {
                assert(r@[i] == fresh0[i - rem.len()]);
            }
        }
        r
    }
}

} // verus!
