//! The playing game state: what survives of input handling once the
//! window and gamepad plumbing is stripped away — the stack of held
//! movement keys and the direction it encodes.

use vstd::prelude::*;
use crate::math::SCALE;
use crate::math::Vec2;

verus! {

/// Movement keys by direction index: up, down, left, right.
pub const DIR_UP: usize = 0;

pub const DIR_DOWN: usize = 1;

pub const DIR_LEFT: usize = 2;

pub const DIR_RIGHT: usize = 3;

/// The running game: remembers which movement keys are held, most recent
/// last.
pub struct Game {
    pub dir_stack: Vec<usize>,
}

/// `s` with every occurrence of `dir` removed, order kept.
pub open spec fn without_dir(s: Seq<usize>, dir: usize) -> Seq<usize> {
    s.filter(|d: usize| d != dir)
}

/// The unit-square direction the held keys encode: each held key sets its
/// axis, later keys overriding earlier ones on the same axis.
pub open spec fn stack_direction(s: Seq<usize>) -> Vec2
    decreases s.len(),
{
    if s.len() == 0 {
        Vec2 { x: 0, y: 0 }
    } else {
        let rest = stack_direction(s.drop_last());
        let d = s.last();
        if d == DIR_UP {
            Vec2 { x: rest.x, y: SCALE }
        } else if d == DIR_DOWN {
            Vec2 { x: rest.x, y: (-SCALE) as i64 }
        } else if d == DIR_LEFT {
            Vec2 { x: (-SCALE) as i64, y: rest.y }
        } else {
            Vec2 { x: SCALE, y: rest.y }
        }
    }
}

impl Game {
    pub fn new() -> (r: Game)
        ensures
            r.dir_stack@.len() == 0,
    {
        Game { dir_stack: Vec::new() }
    }

    /// One movement key event: the key leaves the stack, and returns on
    /// top if it was pressed.
    pub fn key_event(&mut self, dir: usize, pressed: bool)
        requires
            dir < 4,
        ensures
            final(self).dir_stack@ == if pressed {
                without_dir(old(self).dir_stack@, dir).push(dir)
            } else {
                without_dir(old(self).dir_stack@, dir)
            },
    {
        let n = self.dir_stack.len();
        let mut kept: Vec<usize> = Vec::new();
        let mut i: usize = 0;
        while i < n
            invariant
                i <= n,
                n == self.dir_stack@.len(),
                kept@ == without_dir(self.dir_stack@.subrange(0, i as int), dir),
            decreases n - i,
        {
            proof {
                assert(self.dir_stack@.subrange(0, i + 1 as int).drop_last()
                    =~= self.dir_stack@.subrange(0, i as int));
                assert(self.dir_stack@.subrange(0, i + 1 as int).last()
                    == self.dir_stack@[i as int]);
                reveal_with_fuel(Seq::filter, 2);
            }
            let d = self.dir_stack[i];
            if d != dir {
                kept.push(d);
            }
            i = i + 1;
        }
        proof {
            assert(self.dir_stack@.subrange(0, n as int) =~= self.dir_stack@);
        }
        if pressed {
            kept.push(dir);
        }
        self.dir_stack = kept;
    }

    /// The direction the held keys encode, as a `SCALE`-scaled unit-square
    /// vector for the velocity control.
    pub fn direction(&self) -> (r: Vec2)
        requires
            forall|i: int| 0 <= i < self.dir_stack@.len() ==> #[trigger] self.dir_stack@[i] < 4,
        ensures
            r == stack_direction(self.dir_stack@),
    {
        let n = self.dir_stack.len();
        let mut r = Vec2 { x: 0, y: 0 };
        let mut i: usize = 0;
        while i < n
            invariant
                i <= n,
                n == self.dir_stack@.len(),
                forall|k: int| 0 <= k < n ==> #[trigger] self.dir_stack@[k] < 4,
                r == stack_direction(self.dir_stack@.subrange(0, i as int)),
            decreases n - i,
        {
            proof {
                assert(self.dir_stack@.subrange(0, i + 1 as int).drop_last()
                    =~= self.dir_stack@.subrange(0, i as int));
                assert(self.dir_stack@.subrange(0, i + 1 as int).last()
                    == self.dir_stack@[i as int]);
            }
            let d = self.dir_stack[i];
            if d == DIR_UP {
                r = Vec2 { x: r.x, y: SCALE };
            } else if d == DIR_DOWN {
                r = Vec2 { x: r.x, y: -SCALE };
            } else if d == DIR_LEFT {
                r = Vec2 { x: -SCALE, y: r.y };
            } else {
                r = Vec2 { x: SCALE, y: r.y };
            }
            i = i + 1;
        }
        proof {
            assert(self.dir_stack@.subrange(0, n as int) =~= self.dir_stack@);
        }
        r
    }

    /// The playing state never asks to quit.
    pub fn quit(&self) -> (r: bool)
        ensures
            !r,
    {
        false
    }

    /// The playing state is never paused.
    pub fn paused(&self) -> (r: bool)
        ensures
            !r,
    {
        false
    }
}

} // verus!
