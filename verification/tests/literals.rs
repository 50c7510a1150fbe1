//! Which lines are literals.

use rpn_calc::literal::recognize;

/// Whether the recognizer takes `line` for a literal.
fn accepts(line: &str) -> bool {
    recognize(&line.chars().collect())
}

/// Whether the standard reader of doubles takes `line`.
fn reads(line: &str) -> bool {
    line.parse::<f64>().is_ok()
}

#[test]
fn plain_numbers_are_literals() {
    for line in ["0", "7", "10", "95.678", "3.141592653589793", "007", "123456789012345678901234567890"] {
        assert!(accepts(line), "{line}");
    }
}

#[test]
fn a_point_may_stand_before_or_after_the_digits() {
    for line in ["5.", ".5", "0.5", "5.0", "+.5", "-5."] {
        assert!(accepts(line), "{line}");
    }
    for line in [".", "+.", "-.", "..", "1..2", "1.2.3", ".e5", "+.e5"] {
        assert!(!accepts(line), "{line}");
    }
}

#[test]
fn one_sign_may_lead() {
    for line in ["+4", "-4", "+4.5", "-.5", "+inf", "-inf", "+nan", "-NaN", "-infinity"] {
        assert!(accepts(line), "{line}");
    }
    for line in ["+", "-", "++4", "--4", "+-4", "-+4", "4+", "4-", "+ 4", "- 4"] {
        assert!(!accepts(line), "{line}");
    }
}

#[test]
fn an_exponent_needs_digits() {
    for line in ["1e3", "1E3", "1e+3", "1e-3", "1E-2", "2.5e10", "2.5E-10", "1.e5", ".5e5", "1e007"] {
        assert!(accepts(line), "{line}");
    }
    for line in ["1e", "1e+", "1e-", "e5", "E5", "1e5.", "1e5.0", "1e5e5", "1e++5", "1ee5", "1e 5", "1x5"] {
        assert!(!accepts(line), "{line}");
    }
}

#[test]
fn special_words_count_in_either_case() {
    for line in ["inf", "INF", "Inf", "iNf", "infinity", "INFINITY", "Infinity", "nan", "NaN", "NAN"] {
        assert!(accepts(line), "{line}");
    }
    for line in ["in", "infi", "infinit", "infinityy", "na", "nann", "i", "n", "inf ", " inf", "infnan"] {
        assert!(!accepts(line), "{line}");
    }
}

#[test]
fn other_lines_are_no_literals() {
    for line in ["", " ", "1 ", " 1", "1 2", "1,5", "1_000", "0x10", "1f", "sqrt", "swap", "\u{0661}", "1\u{2212}2", "\u{ff11}"] {
        assert!(!accepts(line), "{line}");
    }
}

#[test]
fn letters_next_to_the_right_ones_do_not_count() {
    // Each of these is 32 code points away from a letter of a special word
    // or of the exponent, on the wrong side or from the wrong case.
    for line in ["1\u{85}5", "1%5", "\u{89}nf", "\u{8e}an", ")nf", "IN&"] {
        assert!(!accepts(line), "{line}");
    }
}

#[test]
fn the_recognizer_agrees_with_the_reader_on_short_lines() {
    let alphabet = ['0', '7', '.', 'e', 'E', '+', '-', 'i', 'n', 'f', 'a', 'N', ' ', 'x'];
    let mut lines: Vec<String> = vec![String::new()];
    let mut from = 0;
    for _ in 0..5 {
        let until = lines.len();
        for index in from..until {
            for c in alphabet {
                let mut longer = lines[index].clone();
                longer.push(c);
                lines.push(longer);
            }
        }
        from = until;
    }
    assert_eq!(lines.len(), 1 + 14 + 196 + 2744 + 38416 + 537824);
    for line in &lines {
        assert_eq!(accepts(line), reads(line), "{line:?}");
    }
}

#[test]
fn the_recognizer_agrees_with_the_reader_on_longer_lines() {
    let heads = ["", "+", "-", "++", " "];
    let bodies = [
        "", "0", "12", "1.5", "1.", ".5", ".", "inf", "Infinity", "infinit", "infinityx", "nan", "NaN",
        "nany", "1e5", "1E5", "1e+5", "1e-5", "1e", "1e+", "1.5e10", "1.e10", ".5e10", ".e10", "e10",
        "1.5.5", "1e5e5", "1e5.5", "0x1p3", "1_0", "sqrt", "18446744073709551616", "1e400", "1e-400",
    ];
    let tails = ["", " ", "0", ".", "e", "e1", "f", "-", "+1"];
    for head in heads {
        for body in bodies {
            for tail in tails {
                let line = format!("{head}{body}{tail}");
                assert_eq!(accepts(&line), reads(&line), "{line:?}");
            }
        }
    }
}
