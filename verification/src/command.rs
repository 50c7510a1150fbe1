//! The command vocabulary: which action a completed input line asks for.
//!
//! A line that is a decimal literal is a push of the number it stands for.
//! Any other line is matched against the vocabulary character for character,
//! with no trimming and no folding of case.

use crate::literal::is_literal;
use crate::literal::recognize;
use vstd::prelude::*;

verus! {

/// An operator on the two uppermost stack values. `lower` is the value
/// beneath the top, `upper` the top itself.
#[derive(Clone, Copy, Debug, PartialEq, Eq, Structural)]
pub enum BinaryOp {
    /// `+`: `lower + upper`.
    Add,
    /// `-`: `lower - upper`.
    Sub,
    /// `*`: `lower * upper`.
    Mul,
    /// `/`: `lower / upper`.
    Div,
    /// `%`: the remainder of `lower / upper`.
    Rem,
    /// `^`: `upper` raised to the power `lower`, the mirror image of the
    /// other five.
    Pow,
}

/// A floating-point operator on the uppermost stack value.
#[derive(Clone, Copy, Debug, PartialEq, Eq, Structural)]
pub enum UnaryOp {
    /// `sqrt`: the square root.
    Sqrt,
    /// `sin`: the sine of an angle in radians.
    Sin,
    /// `cos`: the cosine of an angle in radians.
    Cos,
    /// `tan`: the tangent of an angle in radians.
    Tan,
    /// `asin`: the arcsine, in radians.
    Asin,
    /// `acos`: the arccosine, in radians.
    Acos,
    /// `atan`: the arctangent, in radians.
    Atan,
    /// `deg`: radians converted to degrees.
    Deg,
    /// `rad`: degrees converted to radians.
    Rad,
    /// `recip`: one divided by the value.
    Recip,
    /// `log10`: the logarithm to base ten.
    Log10,
    /// `logn`: the natural logarithm.
    Logn,
    /// `log2`: the logarithm to base two.
    Log2,
}

/// The action that a completed input line stands for.
#[derive(Clone, Copy, Debug, PartialEq, Eq, Structural)]
pub enum Command {
    /// Push the number with this bit pattern.
    Push(u64),
    /// Replace the two uppermost values by the result of a binary operator.
    Binary(BinaryOp),
    /// Replace the uppermost value by the result of a unary operator.
    Unary(UnaryOp),
    /// `neg`: reverse the sign of the uppermost value.
    Negate,
    /// `abs`: replace the uppermost value by its magnitude.
    Magnitude,
    /// `!`: replace the uppermost value by the factorial of its rounded
    /// magnitude.
    Factorial,
    /// The empty line: push a second copy of the uppermost value.
    Duplicate,
    /// `swap`: exchange the two uppermost values.
    Swap,
    /// `clear`: empty the stack.
    Clear,
    /// `drop`: discard the uppermost value.
    Drop,
    /// `undo`: go back to the stack before the latest recorded action.
    Undo,
    /// `redo`: go forward again to the stack that an undo left.
    Redo,
    /// `inf`: push positive infinity.
    Infinity,
    /// Anything else: nothing happens.
    NoOp,
}

/// A piece of floating-point arithmetic that the calculator leaves to its
/// caller. Numbers travel as IEEE-754 double-precision bit patterns, and the
/// answer to a request is the bit pattern of the result.
#[derive(Clone, Copy, Debug, PartialEq, Eq, Structural)]
pub enum Request {
    /// The operator applied to `lower` and `upper`, in this order.
    Binary(BinaryOp, u64, u64),
    /// The operator applied to the number.
    Unary(UnaryOp, u64),
}

impl Command {
    /// How many values the command needs on the stack. With fewer it does
    /// nothing at all.
    pub open spec fn arity(self) -> nat {
        match self {
            Command::Binary(_) | Command::Swap => 2,
            Command::Unary(_)
            | Command::Negate
            | Command::Magnitude
            | Command::Factorial
            | Command::Duplicate
            | Command::Drop => 1,
            Command::Push(_)
            | Command::Clear
            | Command::Undo
            | Command::Redo
            | Command::Infinity
            | Command::NoOp => 0,
        }
    }

    /// Whether the command is one of the mutating actions, which record the
    /// stack for undo, as opposed to history navigation and the no-op.
    pub open spec fn is_mutating(self) -> bool {
        !(self is Undo || self is Redo || self is NoOp)
    }

    /// How many values the command needs on the stack.
    pub fn required_operands(self) -> (count: usize)
        ensures
            count == self.arity(),
    {
        match self {
            Command::Binary(_) | Command::Swap => 2,
            Command::Unary(_)
            | Command::Negate
            | Command::Magnitude
            | Command::Factorial
            | Command::Duplicate
            | Command::Drop => 1,
            Command::Push(_)
            | Command::Clear
            | Command::Undo
            | Command::Redo
            | Command::Infinity
            | Command::NoOp => 0,
        }
    }
}

/// The command that the vocabulary assigns to a line: the first entry that
/// equals the line exactly, and `NoOp` where none does.
pub open spec fn vocabulary(text: Seq<char>) -> Command {
    if text == "+"@ {
        Command::Binary(BinaryOp::Add)
    } else if text == "-"@ {
        Command::Binary(BinaryOp::Sub)
    } else if text == "/"@ {
        Command::Binary(BinaryOp::Div)
    } else if text == "*"@ {
        Command::Binary(BinaryOp::Mul)
    } else if text == ""@ {
        Command::Duplicate
    } else if text == "%"@ {
        Command::Binary(BinaryOp::Rem)
    } else if text == "^"@ {
        Command::Binary(BinaryOp::Pow)
    } else if text == "neg"@ {
        Command::Negate
    } else if text == "abs"@ {
        Command::Magnitude
    } else if text == "sqrt"@ {
        Command::Unary(UnaryOp::Sqrt)
    } else if text == "sin"@ {
        Command::Unary(UnaryOp::Sin)
    } else if text == "cos"@ {
        Command::Unary(UnaryOp::Cos)
    } else if text == "tan"@ {
        Command::Unary(UnaryOp::Tan)
    } else if text == "asin"@ {
        Command::Unary(UnaryOp::Asin)
    } else if text == "acos"@ {
        Command::Unary(UnaryOp::Acos)
    } else if text == "atan"@ {
        Command::Unary(UnaryOp::Atan)
    } else if text == "deg"@ {
        Command::Unary(UnaryOp::Deg)
    } else if text == "rad"@ {
        Command::Unary(UnaryOp::Rad)
    } else if text == "!"@ {
        Command::Factorial
    } else if text == "recip"@ {
        Command::Unary(UnaryOp::Recip)
    } else if text == "log10"@ {
        Command::Unary(UnaryOp::Log10)
    } else if text == "logn"@ {
        Command::Unary(UnaryOp::Logn)
    } else if text == "log2"@ {
        Command::Unary(UnaryOp::Log2)
    } else if text == "swap"@ {
        Command::Swap
    } else if text == "clear"@ {
        Command::Clear
    } else if text == "drop"@ {
        Command::Drop
    } else if text == "undo"@ {
        Command::Undo
    } else if text == "redo"@ {
        Command::Redo
    } else if text == "inf"@ {
        Command::Infinity
    } else {
        Command::NoOp
    }
}

/// The command for a line. A line that is a decimal literal is a push of
/// `number`, the value that the caller read from it. Every other line goes
/// to the vocabulary, and so does a literal whose value the caller did not
/// give. Literals come first: a line such as `inf`, which is both a literal
/// and a word of the vocabulary, is a push of what the caller read, and the
/// word serves only a caller that read nothing.
pub open spec fn resolve(number: Option<u64>, text: Seq<char>) -> Command {
    match number {
        Some(bits) if is_literal(text) => Command::Push(bits),
        _ => vocabulary(text),
    }
}

/// Whether `text` and `word` hold the same characters.
pub fn spells(text: &Vec<char>, word: &str) -> (same: bool)
    ensures
        same == (text@ == word@),
{
    let n: usize = word.unicode_len();
    if text.len() != n {
        return false;
    }
    let mut i: usize = 0;
    while i < n
        invariant
            n == word@.len(),
            n == text@.len(),
            i <= n,
            forall|j: int| 0 <= j < i ==> text@[j] == word@[j],
        decreases n - i,
    {
        if text[i] != word.get_char(i) {
            return false;
        }
        i += 1;
    }
    assert(text@ =~= word@);
    true
}

/// Looks a line up in the vocabulary.
pub fn lookup(text: &Vec<char>) -> (command: Command)
    ensures
        command == vocabulary(text@),
{
    if spells(text, "+") {
        Command::Binary(BinaryOp::Add)
    } else if spells(text, "-") {
        Command::Binary(BinaryOp::Sub)
    } else if spells(text, "/") {
        Command::Binary(BinaryOp::Div)
    } else if spells(text, "*") {
        Command::Binary(BinaryOp::Mul)
    } else if spells(text, "") {
        Command::Duplicate
    } else if spells(text, "%") {
        Command::Binary(BinaryOp::Rem)
    } else if spells(text, "^") {
        Command::Binary(BinaryOp::Pow)
    } else if spells(text, "neg") {
        Command::Negate
    } else if spells(text, "abs") {
        Command::Magnitude
    } else if spells(text, "sqrt") {
        Command::Unary(UnaryOp::Sqrt)
    } else if spells(text, "sin") {
        Command::Unary(UnaryOp::Sin)
    } else if spells(text, "cos") {
        Command::Unary(UnaryOp::Cos)
    } else if spells(text, "tan") {
        Command::Unary(UnaryOp::Tan)
    } else if spells(text, "asin") {
        Command::Unary(UnaryOp::Asin)
    } else if spells(text, "acos") {
        Command::Unary(UnaryOp::Acos)
    } else if spells(text, "atan") {
        Command::Unary(UnaryOp::Atan)
    } else if spells(text, "deg") {
        Command::Unary(UnaryOp::Deg)
    } else if spells(text, "rad") {
        Command::Unary(UnaryOp::Rad)
    } else if spells(text, "!") {
        Command::Factorial
    } else if spells(text, "recip") {
        Command::Unary(UnaryOp::Recip)
    } else if spells(text, "log10") {
        Command::Unary(UnaryOp::Log10)
    } else if spells(text, "logn") {
        Command::Unary(UnaryOp::Logn)
    } else if spells(text, "log2") {
        Command::Unary(UnaryOp::Log2)
    } else if spells(text, "swap") {
        Command::Swap
    } else if spells(text, "clear") {
        Command::Clear
    } else if spells(text, "drop") {
        Command::Drop
    } else if spells(text, "undo") {
        Command::Undo
    } else if spells(text, "redo") {
        Command::Redo
    } else if spells(text, "inf") {
        Command::Infinity
    } else {
        Command::NoOp
    }
}

/// The command for a line, given the value that the caller read from it if
/// it is a literal.
pub fn parse_command(number: Option<u64>, text: &Vec<char>) -> (command: Command)
    ensures
        command == resolve(number, text@),
{
    match number {
        Some(bits) => {
            if recognize(text) {
                Command::Push(bits)
            } else {
                lookup(text)
            }
        },
        None => lookup(text),
    }
}

} // verus!
