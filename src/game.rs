use vstd::prelude::*;
use crate::direction::{in_bounds, step, Direction, Position};
use crate::food::{eaten_count, lemma_remaining_items, lemma_remaining_len, random_apple, remaining};
use crate::input::{Key, KeyEvent};
use crate::snake::{grown, requested_by, turned, Snake};

verus! {

/// One play session: the snake, the food on the board, and whether the
/// session has ended.
pub struct Game {
    pub snake: Snake,
    pub apples: Vec<Position>,
    pub over: bool,
}

/// The head position after the next move of a snake with body `blocks`
/// heading `d`.
pub open spec fn next_head(blocks: Seq<Position>, d: Direction) -> Position {
    step(blocks[0], d)
}

impl Game {
    /// The snake has a body and every food item is on a playable cell.
    pub open spec fn wf(&self) -> bool {
        &&& self.snake.wf()
        &&& forall|i: int| 0 <= i < self.apples@.len() ==> in_bounds(#[trigger] self.apples@[i])
    }

    /// A fresh session: the starting snake and one food item.
    pub fn new() -> (g: Game)
        ensures
            g.wf(),
            g.snake.blocks@ == seq![(10u16, 10u16), (10u16, 9u16), (10u16, 8u16)],
            g.snake.direction == Direction::Up,
            !g.snake.dead,
            g.apples@.len() == 1,
            !g.over,
    {
        let snake = Snake::new();
        let apples = vec![random_apple()];
        Game { snake, apples, over: false }
    }

    /// One frame's update: the snake moves, eats what lies under its new head
    /// (each item eaten is replaced by a fresh one), and the session ends if
    /// the snake died. Returns whether the snake is dead.
    pub fn tick(&mut self) -> (ended: bool)
        requires
            old(self).wf(),
            old(self).snake.blocks@.len() + old(self).apples@.len() < usize::MAX,
        ensures
            final(self).wf(),
            ({
                let d = old(self).snake.direction;
                let h = next_head(old(self).snake.blocks@, d);
                let moved = seq![h] + old(self).snake.blocks@.drop_last();
                let n = eaten_count(old(self).apples@, h);
                let kept = remaining(old(self).apples@, h);
                &&& final(self).snake.blocks@ == grown(moved, d, n)
                &&& final(self).snake.blocks@.len() == old(self).snake.blocks@.len() + n
                &&& final(self).snake.dead == (old(self).snake.dead || !in_bounds(h))
                &&& final(self).apples@.len() == old(self).apples@.len()
                &&& final(self).apples@.subrange(0, kept.len() as int) == kept
            }),
            final(self).snake.direction == old(self).snake.direction,
            ended == final(self).snake.dead,
            final(self).over == (old(self).over || ended),
    {
        self.snake.move_forward();
        let ghost old_apples = self.apples@;
        let ghost h = self.snake.head();
        let mut apples: Vec<Position> = Vec::new();
        std::mem::swap(&mut apples, &mut self.apples);
        self.apples = self.snake.detect_apple(apples);
        proof {
            lemma_remaining_len(old_apples, h);
            lemma_remaining_items(old_apples, h);
            let kept = remaining(old_apples, h);
            assert forall|i: int| 0 <= i < self.apples@.len() implies in_bounds(
                #[trigger] self.apples@[i],
            ) by {
                if i < kept.len() {
                    assert(self.apples@.subrange(0, kept.len() as int)[i] == self.apples@[i]);
                    assert(old_apples.contains(kept[i]));
                }
            }
        }
        if self.snake.dead {
            self.over = true;
        }
        self.snake.dead
    }

    /// Applies one key event: Esc ends the session, an arrow key press turns
    /// the snake. Returns whether the session was quit.
    pub fn on_key(&mut self, event: KeyEvent) -> (quit: bool)
        ensures
            quit == (event.code == Key::Esc),
            final(self).over == (old(self).over || quit),
            final(self).snake.direction == if quit {
                old(self).snake.direction
            } else {
                match requested_by(event) {
                    Some(d) => turned(old(self).snake.direction, d),
                    None => old(self).snake.direction,
                }
            },
            final(self).snake.blocks == old(self).snake.blocks,
            final(self).snake.dead == old(self).snake.dead,
            final(self).apples == old(self).apples,
    {
        if event.code == Key::Esc {
            self.over = true;
            true
        } else {
            self.snake.handle_keydown(event);
            false
        }
    }
}

} // verus!
