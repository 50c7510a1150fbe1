//! What holds of the transitions, whatever the state and whatever the
//! arithmetic gave.

use crate::command::vocabulary;
use crate::command::Command;
use crate::literal::is_digit;
use crate::literal::is_letter;
use crate::literal::is_literal;
use crate::literal::is_sign;
use crate::state::AppView;
use vstd::prelude::*;

verus! {

impl AppView {
    /// The state after a run of commands, each paired with the value that
    /// the arithmetic gave for it, carried out from left to right.
    pub open spec fn run(self, commands: Seq<(Command, u64)>) -> AppView
        decreases commands.len(),
    {
        if commands.len() == 0 {
            self
        } else {
            self.run(commands.drop_last()).step(commands.last().0, commands.last().1)
        }
    }

    /// Whether every command of the run is a mutating action that finds the
    /// operands it needs when its turn comes.
    pub open spec fn all_take_effect(self, commands: Seq<(Command, u64)>) -> bool {
        forall|i: int|
            0 <= i < commands.len() ==> (#[trigger] commands[i]).0.is_mutating() && self.run(
                commands.take(i),
            ).stack.len() >= commands[i].0.arity()
    }

    /// `count` steps back.
    pub open spec fn undo_times(self, count: nat) -> AppView
        decreases count,
    {
        if count == 0 {
            self
        } else {
            self.undo_times((count - 1) as nat).undo()
        }
    }

    /// `count` steps forward.
    pub open spec fn redo_times(self, count: nat) -> AppView
        decreases count,
    {
        if count == 0 {
            self
        } else {
            self.redo_times((count - 1) as nat).redo()
        }
    }
}

/// A command that finds fewer values on the stack than its arity changes
/// nothing: not the stack, not either history, not the input line.
pub proof fn lemma_too_few_operands_change_nothing(state: AppView, command: Command, value: u64)
    requires
        state.stack.len() < command.arity(),
    ensures
        state.step(command, value) == state,
{
}

/// A mutating action that finds its operands puts the stack as it was at the
/// end of the undo history and leaves the redo history empty.
pub proof fn lemma_mutation_records_and_clears(state: AppView, command: Command, value: u64)
    requires
        command.is_mutating(),
        state.stack.len() >= command.arity(),
    ensures
        state.step(command, value).undo == state.undo.push(state.stack),
        state.step(command, value).redo == Seq::<Seq<u64>>::empty(),
{
}

/// Undo and redo never drop a stored stack: each moves one from the end of
/// one history to the stack, and the stack to the end of the other history,
/// or does nothing at all where its own history is empty.
pub proof fn lemma_navigation_moves_snapshots(state: AppView)
    ensures
        state.undo.len() == 0 ==> state.undo() == state,
        state.redo.len() == 0 ==> state.redo() == state,
        state.undo.len() > 0 ==> state.undo().stack == state.undo.last(),
        state.undo.len() > 0 ==> state.undo().undo == state.undo.drop_last(),
        state.undo.len() > 0 ==> state.undo().redo == state.redo.push(state.stack),
        state.redo.len() > 0 ==> state.redo().stack == state.redo.last(),
        state.redo.len() > 0 ==> state.redo().redo == state.redo.drop_last(),
        state.redo.len() > 0 ==> state.redo().undo == state.undo.push(state.stack),
        state.undo().undo.len() + state.undo().redo.len() == state.undo.len() + state.redo.len(),
        state.redo().undo.len() + state.redo().redo.len() == state.undo.len() + state.redo.len(),
{
}

/// A step back that had somewhere to go is taken back by a step forward,
/// and the other way round: the whole state is as it was.
pub proof fn lemma_undo_redo_inverse(state: AppView)
    ensures
        state.undo.len() > 0 ==> state.undo().redo() == state,
        state.redo.len() > 0 ==> state.redo().undo() == state,
{
    if state.undo.len() > 0 {
        assert(state.undo.drop_last().push(state.undo.last()) =~= state.undo);
        assert(state.redo.push(state.stack).drop_last() =~= state.redo);
    }
    if state.redo.len() > 0 {
        assert(state.redo.drop_last().push(state.redo.last()) =~= state.redo);
        assert(state.undo.push(state.stack).drop_last() =~= state.undo);
    }
}

/// Undo after a mutating action that found its operands brings back the
/// stack and the undo history from before the action, and redo after that
/// brings back the whole state from after it.
pub proof fn lemma_undo_restores_redo_repeats(state: AppView, command: Command, value: u64)
    requires
        command.is_mutating(),
        state.stack.len() >= command.arity(),
    ensures
        state.step(command, value).undo().stack == state.stack,
        state.step(command, value).undo().undo == state.undo,
        state.step(command, value).undo().redo() == state.step(command, value),
{
    let after = state.step(command, value);
    assert(after.undo == state.undo.push(state.stack));
    assert(after.undo.drop_last() =~= state.undo);
    lemma_undo_redo_inverse(after);
}

/// A run is the run of all its commands but the last, and then the last.
proof fn lemma_run_take(state: AppView, commands: Seq<(Command, u64)>, i: int)
    requires
        0 <= i < commands.len(),
    ensures
        state.run(commands.take(i + 1)) == state.run(commands.take(i)).step(
            commands[i].0,
            commands[i].1,
        ),
{
    let prefix = commands.take(i + 1);
    assert(prefix.drop_last() =~= commands.take(i));
    assert(prefix.last() == commands[i]);
}

/// Stepping forward once more, before or after `count` steps forward, comes
/// to the same.
proof fn lemma_redo_times_shift(state: AppView, count: nat)
    ensures
        state.redo().redo_times(count) == state.redo_times(count).redo(),
    decreases count,
{
    if count > 0 {
        lemma_redo_times_shift(state, (count - 1) as nat);
    }
}

/// A step back from a state whose undo history ends with the stack of an
/// earlier state, after the undo history of that state, arrives at that
/// stack and that history.
proof fn lemma_undo_arrives(later: AppView, earlier: AppView)
    requires
        later.undo == earlier.undo.push(earlier.stack),
    ensures
        later.undo().stack == earlier.stack,
        later.undo().undo == earlier.undo,
{
    assert(later.undo.drop_last() =~= earlier.undo);
}

/// After a run of mutating actions that all found their operands, `count`
/// steps back bring the stack and the undo history to where they were before
/// the last `count` of them.
pub proof fn lemma_undo_rewinds(state: AppView, commands: Seq<(Command, u64)>, count: nat)
    requires
        state.all_take_effect(commands),
        count <= commands.len(),
    ensures
        state.run(commands).undo_times(count).stack == state.run(
            commands.take(commands.len() - count),
        ).stack,
        state.run(commands).undo_times(count).undo == state.run(
            commands.take(commands.len() - count),
        ).undo,
    decreases count,
{
    let n = commands.len() as int;
    if count == 0 {
        assert(commands.take(n) =~= commands);
    } else {
        lemma_undo_rewinds(state, commands, (count - 1) as nat);
        let i = n - count;
        let before = state.run(commands.take(i));
        let after = state.run(commands.take(i + 1));
        let later = state.run(commands).undo_times((count - 1) as nat);
        assert(after.undo == before.undo.push(before.stack)) by {
            lemma_run_take(state, commands, i);
            assert(commands[i].0.is_mutating());
            lemma_mutation_records_and_clears(before, commands[i].0, commands[i].1);
        }
        assert(later.undo == after.undo);
        lemma_undo_arrives(later, before);
    }
}

/// The round trip: after a run of mutating actions that all found their
/// operands, `count` steps back followed by `count` steps forward give the
/// state after the run again, whole.
pub proof fn lemma_round_trip(state: AppView, commands: Seq<(Command, u64)>, count: nat)
    requires
        state.all_take_effect(commands),
        count <= commands.len(),
    ensures
        state.run(commands).undo_times(count).redo_times(count) == state.run(commands),
    decreases count,
{
    if count > 0 {
        let earlier = state.run(commands).undo_times((count - 1) as nat);
        lemma_round_trip(state, commands, (count - 1) as nat);
        assert(earlier.undo.len() > 0) by {
            let i = commands.len() - count;
            let before = state.run(commands.take(i));
            lemma_undo_rewinds(state, commands, (count - 1) as nat);
            lemma_run_take(state, commands, i);
            assert(commands[i].0.is_mutating());
            lemma_mutation_records_and_clears(before, commands[i].0, commands[i].1);
        }
        assert(earlier.undo().redo() == earlier) by {
            lemma_undo_redo_inverse(earlier);
        }
        lemma_redo_times_shift(earlier.undo(), (count - 1) as nat);
    }
}

/// A line whose first character is neither a sign, a digit, a point nor one
/// of the letters that the special words start with is no literal.
proof fn lemma_first_character_rules_out(text: Seq<char>)
    requires
        text.len() > 0,
        !is_sign(text[0]),
        !is_digit(text[0]),
        text[0] != '.',
        !is_letter(text[0], 'i'),
        !is_letter(text[0], 'n'),
    ensures
        !is_literal(text),
{
    reveal_strlit("inf");
    reveal_strlit("infinity");
    reveal_strlit("nan");
    assert(text[0int + 0] == text[0]);
}

/// The literals and the vocabulary meet in one line only, `inf`: no other
/// literal is a word of the vocabulary. So it is for this line alone that it
/// matters that literals come first.
pub proof fn lemma_literals_and_words_meet_in_inf(text: Seq<char>)
    requires
        is_literal(text),
    ensures
        vocabulary(text) == Command::NoOp || text == "inf"@,
{
    reveal_strlit("+");
    reveal_strlit("-");
    reveal_strlit("/");
    reveal_strlit("*");
    reveal_strlit("");
    reveal_strlit("%");
    reveal_strlit("^");
    reveal_strlit("neg");
    reveal_strlit("abs");
    reveal_strlit("sqrt");
    reveal_strlit("sin");
    reveal_strlit("cos");
    reveal_strlit("tan");
    reveal_strlit("asin");
    reveal_strlit("acos");
    reveal_strlit("atan");
    reveal_strlit("deg");
    reveal_strlit("rad");
    reveal_strlit("!");
    reveal_strlit("recip");
    reveal_strlit("log10");
    reveal_strlit("logn");
    reveal_strlit("log2");
    reveal_strlit("swap");
    reveal_strlit("clear");
    reveal_strlit("drop");
    reveal_strlit("undo");
    reveal_strlit("redo");
    reveal_strlit("inf");
    reveal_strlit("infinity");
    reveal_strlit("nan");
    if text.len() == 0 {
    } else if text == "+"@ || text == "-"@ {
    } else if text == "neg"@ {
        assert(text[0int + 1] == 'e');
    } else if text == "inf"@ {
    } else if vocabulary(text) != Command::NoOp {
        lemma_first_character_rules_out(text);
    }
}

} // verus!
