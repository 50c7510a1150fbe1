//! The calculator as a mathematical state, and its transitions.
//!
//! Numbers are IEEE-754 double-precision bit patterns. The stack grows at
//! its end: the last element is the top. Both histories hold whole stacks,
//! the most recent last.

use crate::command::Command;
use crate::double::magnitude_of;
use crate::double::negation_of;
use crate::double::INFINITY_BITS;
use crate::factorial::factorial_of_pattern;
use vstd::prelude::*;

verus! {

/// Whether keys edit the input line or steer the program.
#[derive(Clone, Copy, Debug, PartialEq, Eq, Structural)]
pub enum InputMode {
    /// Keys steer: `e` starts editing, `q` quits.
    Normal,
    /// Keys edit the input line.
    Editing,
}

/// The views of a sequence of stored stacks.
pub open spec fn snapshots(stored: Seq<Vec<u64>>) -> Seq<Seq<u64>> {
    Seq::new(stored.len(), |i: int| stored[i]@)
}

/// No stored stacks, no views.
pub proof fn lemma_snapshots_empty(stored: Seq<Vec<u64>>)
    requires
        stored.len() == 0,
    ensures
        snapshots(stored) == Seq::<Seq<u64>>::empty(),
{
    assert(snapshots(stored) =~= Seq::<Seq<u64>>::empty());
}

/// Storing one more stack appends its view.
pub proof fn lemma_snapshots_push(stored: Seq<Vec<u64>>, stack: Vec<u64>)
    ensures
        snapshots(stored.push(stack)) == snapshots(stored).push(stack@),
{
    assert(snapshots(stored.push(stack)) =~= snapshots(stored).push(stack@));
}

/// Taking the latest stored stack away takes the latest view away, and that
/// view is the view of the stack taken.
pub proof fn lemma_snapshots_drop_last(stored: Seq<Vec<u64>>)
    requires
        stored.len() > 0,
    ensures
        snapshots(stored.drop_last()) == snapshots(stored).drop_last(),
        snapshots(stored).last() == stored.last()@,
{
    assert(snapshots(stored.drop_last()) =~= snapshots(stored).drop_last());
}

/// Everything the calculator holds, as plain mathematics.
pub struct AppView {
    /// The characters of the input line.
    pub input: Seq<char>,
    /// The cursor, counted in characters from the left.
    pub character_index: nat,
    /// The input mode.
    pub input_mode: InputMode,
    /// The operand stack, top last.
    pub stack: Seq<u64>,
    /// The stacks that `undo` goes back to, most recent last.
    pub undo: Seq<Seq<u64>>,
    /// The stacks that `redo` goes forward to, most recent last.
    pub redo: Seq<Seq<u64>>,
}

impl AppView {
    /// The state at start: nothing typed, nothing stacked, no history, the
    /// line open for editing.
    pub open spec fn initial() -> AppView {
        AppView {
            input: Seq::empty(),
            character_index: 0,
            input_mode: InputMode::Editing,
            stack: Seq::empty(),
            undo: Seq::empty(),
            redo: Seq::empty(),
        }
    }

    /// What every mutating action does to the histories: the stack as it is
    /// goes onto the undo history, `next` takes its place, and the redo
    /// history is emptied.
    pub open spec fn record(self, next: Seq<u64>) -> AppView {
        AppView { stack: next, undo: self.undo.push(self.stack), redo: Seq::empty(), ..self }
    }

    /// The stack without its `count` uppermost values.
    pub open spec fn below(self, count: nat) -> Seq<u64>
        recommends
            count <= self.stack.len(),
    {
        self.stack.take(self.stack.len() - count)
    }

    /// The value `depth` places under the top; `peek(0)` is the top.
    pub open spec fn peek(self, depth: nat) -> u64
        recommends
            depth < self.stack.len(),
    {
        self.stack[self.stack.len() - 1 - depth]
    }

    /// The `count` uppermost values give way to `value`, as a recorded
    /// action.
    pub open spec fn reduce(self, count: nat, value: u64) -> AppView
        recommends
            count <= self.stack.len(),
    {
        self.record(self.below(count).push(value))
    }

    /// The two uppermost values change places, as a recorded action.
    pub open spec fn swap(self) -> AppView
        recommends
            2 <= self.stack.len(),
    {
        self.record(self.below(2).push(self.peek(0)).push(self.peek(1)))
    }

    /// One step back: the latest entry of the undo history becomes the
    /// stack, and the stack as it was goes onto the redo history. Nothing
    /// changes where the undo history is empty.
    pub open spec fn undo(self) -> AppView {
        if self.undo.len() == 0 {
            self
        } else {
            AppView {
                stack: self.undo.last(),
                undo: self.undo.drop_last(),
                redo: self.redo.push(self.stack),
                ..self
            }
        }
    }

    /// One step forward: the latest entry of the redo history becomes the
    /// stack, and the stack as it was goes onto the undo history. Nothing
    /// changes where the redo history is empty.
    pub open spec fn redo(self) -> AppView {
        if self.redo.len() == 0 {
            self
        } else {
            AppView {
                stack: self.redo.last(),
                undo: self.undo.push(self.stack),
                redo: self.redo.drop_last(),
                ..self
            }
        }
    }

    /// The state after `command`. `value` is what the floating-point
    /// arithmetic gave for a `Binary` or `Unary` command; the other commands
    /// do not look at it. A command that finds fewer values than its arity
    /// changes nothing.
    pub open spec fn step(self, command: Command, value: u64) -> AppView {
        if self.stack.len() < command.arity() {
            self
        } else {
            match command {
                Command::Push(bits) => self.reduce(0, bits),
                Command::Infinity => self.reduce(0, INFINITY_BITS),
                Command::Binary(_) => self.reduce(2, value),
                Command::Unary(_) => self.reduce(1, value),
                Command::Negate => self.reduce(1, negation_of(self.peek(0))),
                Command::Magnitude => self.reduce(1, magnitude_of(self.peek(0))),
                Command::Factorial => self.reduce(1, factorial_of_pattern(self.peek(0))),
                Command::Duplicate => self.reduce(0, self.peek(0)),
                Command::Swap => self.swap(),
                Command::Clear => self.record(Seq::empty()),
                Command::Drop => self.record(self.below(1)),
                Command::Undo => self.undo(),
                Command::Redo => self.redo(),
                Command::NoOp => self,
            }
        }
    }

    /// The same state with the input line emptied and the cursor at its
    /// left end.
    pub open spec fn with_line_cleared(self) -> AppView {
        AppView { input: Seq::empty(), character_index: 0, ..self }
    }
}

} // verus!
