//! The stack actions one by one, with the arithmetic handed in.

use rpn_calc::calculator::App;
use rpn_calc::command::{BinaryOp, Command, Request, UnaryOp};
use rpn_calc::double::INFINITY_BITS;

/// The bit pattern of a number.
fn bits(value: f64) -> u64 {
    value.to_bits()
}

/// The number with this bit pattern.
fn number(pattern: u64) -> f64 {
    f64::from_bits(pattern)
}

/// The stack as numbers.
fn numbers(app: &App) -> Vec<f64> {
    app.stack.iter().map(|pattern| f64::from_bits(*pattern)).collect()
}

/// An operator on two numbers, as an operator on their bit patterns.
fn binary<F: FnOnce(f64, f64) -> f64>(operation: F) -> impl FnOnce(u64, u64) -> u64 {
    move |a, b| operation(f64::from_bits(a), f64::from_bits(b)).to_bits()
}

/// An operator on one number, as an operator on its bit pattern.
fn unary<F: FnOnce(f64) -> f64>(operation: F) -> impl FnOnce(u64) -> u64 {
    move |a| operation(f64::from_bits(a)).to_bits()
}

#[test]
fn push_number() {
    let mut app = App::new();
    app.push_number(bits(5.6));
    assert_eq!(number(app.stack.pop().unwrap()), 5.6);
}

#[test]
fn main_addition() {
    let mut app = App::new();
    app.push_number(bits(5.0));
    app.push_number(bits(3.0));
    app.perform_operation(binary(|a, b| a + b));
    assert_eq!(number(app.stack.pop().unwrap()), 8.0);
}

#[test]
fn main_subtraction() {
    let mut app = App::new();
    app.push_number(bits(10.0));
    app.push_number(bits(4.0));
    app.perform_operation(binary(|a, b| a - b));
    assert_eq!(number(app.stack.pop().unwrap()), 6.0);
}

#[test]
fn main_multiplication() {
    let mut app = App::new();
    app.push_number(bits(2.0));
    app.push_number(bits(3.0));
    app.perform_operation(binary(|a, b| a * b));
    assert_eq!(number(app.stack.pop().unwrap()), 6.0);
}

#[test]
fn main_division() {
    let mut app = App::new();
    app.push_number(bits(10.0));
    app.push_number(bits(2.0));
    app.perform_operation(binary(|a, b| a / b));
    assert_eq!(number(app.stack.pop().unwrap()), 5.0);
}

#[test]
fn clone() {
    let mut app = App::new();
    app.push_number(bits(10.0));
    app.push_number(bits(2.0));
    app.perform_clone();
    assert_eq!(number(app.stack.pop().unwrap()), 2.0);
}

#[test]
fn modulo() {
    let mut app = App::new();
    app.push_number(bits(17.0));
    app.push_number(bits(5.0));
    app.perform_operation(binary(|a, b| a % b));
    assert_eq!(number(app.stack.pop().unwrap()), 2.0);
}

#[test]
fn exponent() {
    let mut app = App::new();
    app.push_number(bits(4.0));
    app.push_number(bits(5.0));
    app.perform_operation(binary(|a, b| b.powf(a)));
    assert_eq!(number(app.stack.pop().unwrap()), 625.0);
}

#[test]
fn neg() {
    let mut app = App::new();
    app.push_number(bits(4.0));
    app.perform_single_operand_operation(unary(|a| -a));
    assert_eq!(number(app.stack.pop().unwrap()), -4.0);
}

#[test]
fn abs() {
    let mut app = App::new();
    app.push_number(bits(-4.0));
    app.perform_single_operand_operation(unary(|a| a.abs()));
    assert_eq!(number(app.stack.pop().unwrap()), 4.0);
}

#[test]
fn sqrt() {
    let mut app = App::new();
    app.push_number(bits(9.0));
    app.perform_single_operand_operation(unary(|a| a.sqrt()));
    assert_eq!(number(app.stack.pop().unwrap()), 3.0);
}

#[test]
fn sin() {
    let mut app = App::new();
    app.push_number(bits(9.0));
    app.perform_single_operand_operation(unary(|a| a.sin()));
    assert_eq!(number(app.stack.pop().unwrap()), 0.4121184852417566);
}

#[test]
fn cos() {
    let mut app = App::new();
    app.push_number(bits(5.0));
    app.perform_single_operand_operation(unary(|a| a.cos()));
    assert_eq!(number(app.stack.pop().unwrap()), 0.28366218546322625);
}

#[test]
fn tan() {
    let mut app = App::new();
    app.push_number(bits(6.0));
    app.perform_single_operand_operation(unary(|a| a.tan()));
    assert_eq!(number(app.stack.pop().unwrap()), -0.29100619138474915);
}

#[test]
fn asin() {
    let mut app = App::new();
    app.push_number(bits(0.6));
    app.perform_single_operand_operation(unary(|a| a.asin()));
    assert_eq!(number(app.stack.pop().unwrap()), 0.6435011087932844);
}

#[test]
fn acos() {
    let mut app = App::new();
    app.push_number(bits(0.7));
    app.perform_single_operand_operation(unary(|a| a.acos()));
    assert_eq!(number(app.stack.pop().unwrap()), 0.7953988301841436);
}

#[test]
fn atan() {
    let mut app = App::new();
    app.push_number(bits(5.0));
    app.perform_single_operand_operation(unary(|a| a.atan()));
    assert_eq!(number(app.stack.pop().unwrap()), 1.373400766945016);
}

#[test]
fn convert_to_degrees() {
    let mut app = App::new();
    app.push_number(bits(1.0));
    app.perform_single_operand_operation(unary(|a| a.to_degrees()));
    assert_eq!(number(app.stack.pop().unwrap()), 57.29577951308232);
}

#[test]
fn convert_to_radians() {
    let mut app = App::new();
    app.push_number(bits(95.0));
    app.perform_single_operand_operation(unary(|a| a.to_radians()));
    assert_eq!(number(app.stack.pop().unwrap()), 1.6580627893946132);
}

#[test]
fn main_factorial() {
    let mut app = App::new();
    app.push_number(bits(5.0));
    app.perform_factorial();
    assert_eq!(number(app.stack.pop().unwrap()), 120.0);
}

#[test]
fn recipricol() {
    let mut app = App::new();
    app.push_number(bits(4.0));
    app.perform_single_operand_operation(unary(|a| 1.0 / a));
    assert_eq!(number(app.stack.pop().unwrap()), 0.25);
}

#[test]
fn log10() {
    let mut app = App::new();
    app.push_number(bits(50.0));
    app.perform_single_operand_operation(unary(|a| a.log(10.0)));
    assert_eq!(number(app.stack.pop().unwrap()), 1.6989700043360185);
}

#[test]
fn logn() {
    let mut app = App::new();
    app.push_number(bits(50.0));
    app.perform_single_operand_operation(unary(|a| a.ln()));
    assert_eq!(number(app.stack.pop().unwrap()), 3.912023005428146);
}

#[test]
fn log2() {
    let mut app = App::new();
    app.push_number(bits(50.0));
    app.perform_single_operand_operation(unary(|a| a.log(2.0)));
    assert_eq!(number(app.stack.pop().unwrap()), 5.643856189774724);
}

#[test]
fn main_push_infinity() {
    let mut app = App::new();
    app.push_infinity();
    assert_eq!(number(app.stack.pop().unwrap()), f64::INFINITY);
}

#[test]
fn main_undo_redo() {
    let mut app = App::new();
    app.push_number(bits(3.0));
    app.push_number(bits(7.0));
    app.perform_operation(binary(|a, b| a + b));

    // Verify that the stack has the result of the addition
    assert_eq!(numbers(&app), vec![10.0]);

    // Undo the addition, should bring back the stack from before it
    app.undo();
    assert_eq!(numbers(&app), vec![3.0, 7.0]);

    // Redo the addition, should return the stack to [10.0]
    app.redo();
    assert_eq!(numbers(&app), vec![10.0]);
}

#[test]
fn main_clear() {
    let mut app = App::new();
    app.push_number(bits(42.0));
    app.perform_clear();
    assert!(app.stack.is_empty());
}

#[test]
fn main_drop() {
    let mut app = App::new();
    app.push_number(bits(5.0));
    app.push_number(bits(10.0));
    app.perform_drop();
    assert_eq!(app.stack.len(), 1);
    assert_eq!(number(app.stack.pop().unwrap()), 5.0);
}

#[test]
fn main_swap() {
    let mut app = App::new();
    app.push_number(bits(1.0));
    app.push_number(bits(2.0));
    app.perform_swap();
    assert_eq!(number(app.stack.pop().unwrap()), 1.0);
    assert_eq!(number(app.stack.pop().unwrap()), 2.0);
}

#[test]
fn divide_pos_by_0() {
    let mut app = App::new();
    app.push_number(bits(10.0));
    app.push_number(bits(0.0));
    app.perform_operation(binary(|a, b| a / b));
    assert_eq!(number(app.stack.pop().unwrap()), f64::INFINITY);
}

#[test]
fn divide_neg_by_0() {
    let mut app = App::new();
    app.push_number(bits(-10.0));
    app.push_number(bits(0.0));
    app.perform_operation(binary(|a, b| a / b));
    assert_eq!(number(app.stack.pop().unwrap()), -f64::INFINITY);
}

#[test]
fn operations_get_the_lower_value_first() {
    let mut app = App::new();
    app.push_number(11);
    app.push_number(22);
    app.push_number(33);
    app.perform_operation(|lower, upper| lower * 1000 + upper);
    assert_eq!(app.stack, vec![11, 22033]);
    app.perform_single_operand_operation(|top| top + 1);
    assert_eq!(app.stack, vec![11, 22034]);
}

#[test]
fn operations_on_short_stacks_are_not_called() {
    let mut app = App::new();
    app.perform_single_operand_operation(|_| panic!("called on an empty stack"));
    app.perform_operation(|_, _| panic!("called on an empty stack"));
    app.push_number(1);
    app.perform_operation(|_, _| panic!("called with one operand"));
    assert_eq!(app.stack, vec![1]);
    assert_eq!(app.undo, vec![Vec::<u64>::new()]);
    assert!(app.redo.is_empty());
}

#[test]
fn short_stacks_leave_everything_as_it_was() {
    let mut app = App::new();
    app.push_number(5);
    app.push_number(6);
    assert!(app.undo());
    let before = (app.stack.clone(), app.undo.clone(), app.redo.clone());
    app.perform_swap();
    app.perform_operation(|a, b| a + b);
    assert_eq!((app.stack.clone(), app.undo.clone(), app.redo.clone()), before);

    let mut app = App::new();
    app.perform_clone();
    app.perform_drop();
    app.perform_swap();
    app.perform_single_operand_operation(|a| a);
    app.perform_factorial();
    assert!(app.stack.is_empty());
    assert!(app.undo.is_empty());
    assert!(app.redo.is_empty());
}

#[test]
fn factorial_replaces_the_top_as_a_recorded_action() {
    let mut app = App::new();
    app.push_number(bits(2.0));
    app.push_number(bits(-3.6));
    app.perform_factorial();
    assert_eq!(numbers(&app), vec![2.0, 24.0]);
    assert_eq!(app.undo, vec![vec![], vec![bits(2.0)], vec![bits(2.0), bits(-3.6)]]);
    assert!(app.redo.is_empty());
}

#[test]
fn undo_and_redo_report_whether_they_moved() {
    let mut app = App::new();
    assert!(!app.undo());
    assert!(!app.redo());
    app.push_number(1);
    assert!(!app.redo());
    assert!(app.undo());
    assert!(!app.undo());
    assert!(app.redo());
    assert!(!app.redo());
    assert_eq!(app.stack, vec![1]);
}

#[test]
fn clear_and_drop_empty_the_redo_history() {
    let mut app = App::new();
    app.push_number(1);
    app.push_number(2);
    assert!(app.undo());
    assert_eq!(app.redo.len(), 1);
    app.perform_clear();
    assert!(app.redo.is_empty());
    assert_eq!(app.undo, vec![vec![], vec![1]]);

    let mut app = App::new();
    app.push_number(1);
    app.push_number(2);
    assert!(app.undo());
    app.perform_drop();
    assert!(app.redo.is_empty());
    assert!(app.stack.is_empty());
    assert_eq!(app.undo, vec![vec![], vec![1]]);
}

#[test]
fn infinity_has_the_bit_pattern_of_the_constant() {
    assert_eq!(INFINITY_BITS, f64::INFINITY.to_bits());
    let mut app = App::new();
    app.push_infinity();
    assert_eq!(app.stack, vec![INFINITY_BITS]);
}

#[test]
fn execute_follows_the_command() {
    let mut app = App::new();
    app.execute(Command::Push(bits(4.0)), 99);
    app.execute(Command::Push(bits(-3.0)), 99);
    assert_eq!(numbers(&app), vec![4.0, -3.0]);
    app.execute(Command::Swap, 99);
    assert_eq!(numbers(&app), vec![-3.0, 4.0]);
    app.execute(Command::Duplicate, 99);
    assert_eq!(numbers(&app), vec![-3.0, 4.0, 4.0]);
    app.execute(Command::Binary(BinaryOp::Add), bits(8.0));
    assert_eq!(numbers(&app), vec![-3.0, 8.0]);
    app.execute(Command::Unary(UnaryOp::Sqrt), bits(2.0));
    assert_eq!(numbers(&app), vec![-3.0, 2.0]);
    app.execute(Command::Negate, 99);
    assert_eq!(numbers(&app), vec![-3.0, -2.0]);
    app.execute(Command::Negate, 99);
    assert_eq!(numbers(&app), vec![-3.0, 2.0]);
    app.execute(Command::Drop, 99);
    assert_eq!(numbers(&app), vec![-3.0]);
    app.execute(Command::Magnitude, 99);
    assert_eq!(numbers(&app), vec![3.0]);
    app.execute(Command::Magnitude, 99);
    assert_eq!(numbers(&app), vec![3.0]);
    app.execute(Command::Factorial, 99);
    assert_eq!(numbers(&app), vec![6.0]);
    app.execute(Command::Binary(BinaryOp::Add), bits(8.0));
    assert_eq!(numbers(&app), vec![6.0]);
    app.execute(Command::Undo, 99);
    assert_eq!(numbers(&app), vec![3.0]);
    app.execute(Command::Redo, 99);
    assert_eq!(numbers(&app), vec![6.0]);
    app.execute(Command::NoOp, 99);
    assert_eq!(numbers(&app), vec![6.0]);
    app.execute(Command::Infinity, 99);
    assert_eq!(app.stack, vec![bits(6.0), INFINITY_BITS]);
    app.execute(Command::Clear, 99);
    assert!(app.stack.is_empty());
    assert_eq!(app.undo.len(), 14);
}

#[test]
fn compute_asks_only_where_there_are_operands() {
    let unit = |request: Request| match request {
        Request::Binary(BinaryOp::Sub, lower, upper) => lower - upper,
        Request::Unary(UnaryOp::Sqrt, operand) => operand + 100,
        _ => panic!("not asked for"),
    };
    let mut app = App::new();
    assert_eq!(app.compute(Command::Binary(BinaryOp::Sub), &unit), 0);
    assert_eq!(app.compute(Command::Unary(UnaryOp::Sqrt), &unit), 0);
    app.push_number(30);
    assert_eq!(app.compute(Command::Binary(BinaryOp::Sub), &unit), 0);
    app.push_number(24);
    assert_eq!(app.compute(Command::Binary(BinaryOp::Sub), &unit), 6);
    assert_eq!(app.compute(Command::Unary(UnaryOp::Sqrt), &unit), 124);
    for command in [
        Command::Negate,
        Command::Magnitude,
        Command::Factorial,
        Command::Swap,
        Command::Push(5),
        Command::NoOp,
    ] {
        assert_eq!(app.compute(command, &|_| panic!("not asked for")), 0);
    }
    assert_eq!(app.stack, vec![30, 24]);
}
