//! The calculator itself: the operand stack, the undo and redo histories, and
//! the actions on them.
//!
//! The calculator holds numbers as bit patterns and has no floating-point
//! arithmetic of its own. What integer arithmetic can do on a pattern it
//! does itself: the sign changes and the factorial. For every other operator
//! it asks its caller for the result, through a function that the caller
//! hands in.

use crate::command::parse_command;
use crate::command::resolve;
use crate::command::Command;
use crate::command::Request;
use crate::double::magnitude;
use crate::double::negate;
use crate::double::INFINITY_BITS;
use crate::factorial::factorial_of_pattern;
use crate::factorial::factorial_pattern;
use crate::state::lemma_snapshots_drop_last;
use crate::state::lemma_snapshots_empty;
use crate::state::lemma_snapshots_push;
use crate::state::snapshots;
use crate::state::AppView;
use crate::state::InputMode;
use vstd::prelude::*;

verus! {

/// The state of the calculator.
pub struct App {
    /// The input line, one element per character.
    pub input: Vec<char>,
    /// The cursor in the input line, counted in characters.
    pub character_index: usize,
    /// Whether keys edit the line or steer the program.
    pub input_mode: InputMode,
    /// The operand stack, as bit patterns of doubles, top last.
    pub stack: Vec<u64>,
    /// The stacks to go back to, most recent last.
    pub undo: Vec<Vec<u64>>,
    /// The stacks to go forward to, most recent last.
    pub redo: Vec<Vec<u64>>,
}

impl View for App {
    type V = AppView;

    open spec fn view(&self) -> AppView {
        AppView {
            input: self.input@,
            character_index: self.character_index as nat,
            input_mode: self.input_mode,
            stack: self.stack@,
            undo: snapshots(self.undo@),
            redo: snapshots(self.redo@),
        }
    }
}

/// Whether `value` is an answer that `evaluate` may give to the arithmetic
/// that `command` asks for on `stack`. A command that asks for no
/// arithmetic, or that finds too few operands, is content with any value.
pub open spec fn answers<E: Fn(Request) -> u64>(
    evaluate: E,
    command: Command,
    stack: Seq<u64>,
    value: u64,
) -> bool {
    let n = stack.len() as int;
    if n < command.arity() {
        true
    } else {
        match command {
            Command::Binary(op) => evaluate.ensures(
                (Request::Binary(op, stack[n - 2], stack[n - 1]),),
                value,
            ),
            Command::Unary(op) => evaluate.ensures((Request::Unary(op, stack[n - 1]),), value),
            _ => true,
        }
    }
}

impl App {
    /// A calculator with an empty line, an empty stack and no history, ready
    /// for editing.
    pub fn new() -> (app: App)
        ensures
            app@ == AppView::initial(),
    {
        let app = App {
            input: Vec::new(),
            character_index: 0,
            input_mode: InputMode::Editing,
            stack: Vec::new(),
            undo: Vec::new(),
            redo: Vec::new(),
        };
        proof {
            lemma_snapshots_empty(app.undo@);
            lemma_snapshots_empty(app.redo@);
        }
        app
    }

    /// Appends a copy of the stack to the undo history and empties the redo
    /// history: the bookkeeping of a mutating action, before the stack
    /// itself changes.
    fn save(&mut self)
        ensures
            final(self)@ == old(self)@.record(old(self)@.stack),
    {
        let snapshot = self.stack.clone();
        proof {
            lemma_snapshots_push(self.undo@, snapshot);
        }
        self.undo.push(snapshot);
        self.redo.clear();
        proof {
            lemma_snapshots_empty(self.redo@);
        }
    }

    /// Takes `count` values off the stack and puts `value` in their place, as
    /// a recorded action.
    fn replace_top(&mut self, count: usize, value: u64)
        requires
            count <= old(self).stack@.len(),
        ensures
            final(self)@ == old(self)@.reduce(count as nat, value),
    {
        self.save();
        let keep: usize = self.stack.len() - count;
        self.stack.truncate(keep);
        self.stack.push(value);
    }

    /// Pushes a number, given as its bit pattern.
    pub fn push_number(&mut self, num: u64)
        ensures
            final(self)@ == old(self)@.reduce(0, num),
    {
        self.replace_top(0, num);
    }

    /// Pushes positive infinity.
    pub fn push_infinity(&mut self)
        ensures
            final(self)@ == old(self)@.reduce(0, INFINITY_BITS),
    {
        self.replace_top(0, INFINITY_BITS);
    }

    /// Goes back one step in the history. Says whether there was a step to
    /// go back; where there was none, nothing changes.
    pub fn undo(&mut self) -> (restored: bool)
        ensures
            restored == (old(self)@.undo.len() > 0),
            final(self)@ == old(self)@.undo(),
    {
        proof {
            if self.undo@.len() > 0 {
                lemma_snapshots_drop_last(self.undo@);
            }
        }
        match self.undo.pop() {
            Some(previous) => {
                let mut other = previous;
                std::mem::swap(&mut self.stack, &mut other);
                proof {
                    lemma_snapshots_push(self.redo@, other);
                }
                self.redo.push(other);
                true
            },
            None => false,
        }
    }

    /// Goes forward one step in the history. Says whether there was a step
    /// to go forward; where there was none, nothing changes.
    pub fn redo(&mut self) -> (restored: bool)
        ensures
            restored == (old(self)@.redo.len() > 0),
            final(self)@ == old(self)@.redo(),
    {
        proof {
            if self.redo@.len() > 0 {
                lemma_snapshots_drop_last(self.redo@);
            }
        }
        match self.redo.pop() {
            Some(next) => {
                let mut other = next;
                std::mem::swap(&mut self.stack, &mut other);
                proof {
                    lemma_snapshots_push(self.undo@, other);
                }
                self.undo.push(other);
                true
            },
            None => false,
        }
    }

    /// Replaces the top by what `operation` makes of it. On an empty stack
    /// nothing happens and `operation` is not called.
    pub fn perform_single_operand_operation<F: FnOnce(u64) -> u64>(&mut self, operation: F)
        requires
            old(self)@.stack.len() >= 1 ==> operation.requires((old(self)@.peek(0),)),
        ensures
            old(self)@.stack.len() < 1 ==> final(self)@ == old(self)@,
            old(self)@.stack.len() >= 1 ==> exists|value: u64|
                #![trigger old(self)@.reduce(1, value)]
                ({
                    &&& operation.ensures((old(self)@.peek(0),), value)
                    &&& final(self)@ == old(self)@.reduce(1, value)
                }),
    {
        let n: usize = self.stack.len();
        if n < 1 {
            return;
        }
        let a: u64 = self.stack[n - 1];
        let value: u64 = operation(a);
        self.replace_top(1, value);
    }

    /// Replaces the two uppermost values by what `operation` makes of them.
    /// `operation` gets the lower one first and the top second. With fewer
    /// than two values nothing happens and `operation` is not called.
    pub fn perform_operation<F: FnOnce(u64, u64) -> u64>(&mut self, operation: F)
        requires
            old(self)@.stack.len() >= 2 ==> operation.requires(
                (old(self)@.peek(1), old(self)@.peek(0)),
            ),
        ensures
            old(self)@.stack.len() < 2 ==> final(self)@ == old(self)@,
            old(self)@.stack.len() >= 2 ==> exists|value: u64|
                #![trigger old(self)@.reduce(2, value)]
                ({
                    &&& operation.ensures((old(self)@.peek(1), old(self)@.peek(0)), value)
                    &&& final(self)@ == old(self)@.reduce(2, value)
                }),
    {
        let n: usize = self.stack.len();
        if n < 2 {
            return;
        }
        let b: u64 = self.stack[n - 1];
        let a: u64 = self.stack[n - 2];
        let value: u64 = operation(a, b);
        self.replace_top(2, value);
    }

    /// Pushes a second copy of the top. On an empty stack nothing happens.
    pub fn perform_clone(&mut self)
        ensures
            old(self)@.stack.len() < 1 ==> final(self)@ == old(self)@,
            old(self)@.stack.len() >= 1 ==> final(self)@ == old(self)@.reduce(
                0,
                old(self)@.peek(0),
            ),
    {
        let n: usize = self.stack.len();
        if n < 1 {
            return;
        }
        let a: u64 = self.stack[n - 1];
        self.replace_top(0, a);
    }

    /// Replaces the top by its factorial. On an empty stack nothing happens.
    pub fn perform_factorial(&mut self)
        ensures
            old(self)@.stack.len() < 1 ==> final(self)@ == old(self)@,
            old(self)@.stack.len() >= 1 ==> final(self)@ == old(self)@.reduce(
                1,
                factorial_of_pattern(old(self)@.peek(0)),
            ),
    {
        let n: usize = self.stack.len();
        if n < 1 {
            return;
        }
        let value: u64 = factorial_pattern(self.stack[n - 1]);
        self.replace_top(1, value);
    }

    /// Exchanges the two uppermost values. With fewer than two nothing
    /// happens.
    pub fn perform_swap(&mut self)
        ensures
            old(self)@.stack.len() < 2 ==> final(self)@ == old(self)@,
            old(self)@.stack.len() >= 2 ==> final(self)@ == old(self)@.swap(),
    {
        let n: usize = self.stack.len();
        if n < 2 {
            return;
        }
        self.save();
        let b: u64 = self.stack[n - 1];
        let a: u64 = self.stack[n - 2];
        self.stack.truncate(n - 2);
        self.stack.push(b);
        self.stack.push(a);
    }

    /// Empties the stack. This is recorded even where the stack was empty
    /// already.
    pub fn perform_clear(&mut self)
        ensures
            final(self)@ == old(self)@.record(Seq::empty()),
    {
        self.save();
        self.stack.clear();
    }

    /// Discards the top. On an empty stack nothing happens.
    pub fn perform_drop(&mut self)
        ensures
            old(self)@.stack.len() < 1 ==> final(self)@ == old(self)@,
            old(self)@.stack.len() >= 1 ==> final(self)@ == old(self)@.record(
                old(self)@.below(1),
            ),
    {
        let n: usize = self.stack.len();
        if n < 1 {
            return;
        }
        self.save();
        self.stack.truncate(n - 1);
    }

    /// Carries out `command`. `value` is the result of the floating-point
    /// arithmetic for a `Binary` or `Unary` command; the other commands do
    /// not look at it.
    pub fn execute(&mut self, command: Command, value: u64)
        ensures
            final(self)@ == old(self)@.step(command, value),
    {
        if self.stack.len() < command.required_operands() {
            return;
        }
        match command {
            Command::Push(bits) => self.push_number(bits),
            Command::Infinity => self.push_infinity(),
            Command::Binary(_) => self.replace_top(2, value),
            Command::Unary(_) => self.replace_top(1, value),
            Command::Negate => {
                let top: u64 = self.stack[self.stack.len() - 1];
                self.replace_top(1, negate(top));
            },
            Command::Magnitude => {
                let top: u64 = self.stack[self.stack.len() - 1];
                self.replace_top(1, magnitude(top));
            },
            Command::Factorial => self.perform_factorial(),
            Command::Duplicate => self.perform_clone(),
            Command::Swap => self.perform_swap(),
            Command::Clear => self.perform_clear(),
            Command::Drop => self.perform_drop(),
            Command::Undo => {
                self.undo();
            },
            Command::Redo => {
                self.redo();
            },
            Command::NoOp => {},
        }
    }

    /// Has `evaluate` do the floating-point arithmetic that `command` asks
    /// for on the present stack, and hands back the result. Where the
    /// command asks for none, or finds too few operands, `evaluate` is not
    /// called and the result is zero.
    pub fn compute<E: Fn(Request) -> u64>(&self, command: Command, evaluate: &E) -> (value: u64)
        requires
            forall|request: Request| evaluate.requires((request,)),
        ensures
            answers(*evaluate, command, self@.stack, value),
    {
        let n: usize = self.stack.len();
        if n < command.required_operands() {
            return 0;
        }
        match command {
            Command::Binary(op) => {
                evaluate(Request::Binary(op, self.stack[n - 2], self.stack[n - 1]))
            },
            Command::Unary(op) => evaluate(Request::Unary(op, self.stack[n - 1])),
            _ => 0,
        }
    }

    /// Takes the input line as a completed command: resolves it, has
    /// `evaluate` do the arithmetic, carries the command out, and leaves the
    /// line empty with the cursor at its left end, whatever the command was.
    /// `number` is the value of the line if the line is a decimal literal;
    /// for any other line it is not looked at.
    pub fn process_input<E: Fn(Request) -> u64>(&mut self, number: Option<u64>, evaluate: E)
        requires
            forall|request: Request| evaluate.requires((request,)),
        ensures
            exists|value: u64|
                #![trigger old(self)@.step(resolve(number, old(self)@.input), value)]
                ({
                    let command = resolve(number, old(self)@.input);
                    &&& answers(evaluate, command, old(self)@.stack, value)
                    &&& final(self)@ == old(self)@.step(command, value).with_line_cleared()
                }),
    {
        let command = parse_command(number, &self.input);
        let value: u64 = self.compute(command, &evaluate);
        self.execute(command, value);
        self.input.clear();
        self.reset_cursor();
    }
}

} // verus!
