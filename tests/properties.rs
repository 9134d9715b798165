use rpn_calc::calc::{apply_operator, tokens, Operator};
use rpn_calc::lexer::{chars_of, token_spans};
use rpn_calc::number::parse_int;
use rpn_calc::{EvalError, Mode, RpnCalculator};

fn ints(s: &str) -> Option<i32> {
    let cs = chars_of(s);
    parse_int(&cs, 0, cs.len())
}

#[test]
fn single_literals_evaluate_to_themselves() {
    let calc = RpnCalculator::new(false);
    for s in ["0", "7", "-5", "+9", "007", "2147483647", "-2147483648"] {
        assert_eq!(calc.eval(s), Ok(s.parse::<i32>().unwrap()), "{}", s);
    }
}

#[test]
fn literal_parsing_follows_i32_rules() {
    assert_eq!(ints("42"), Some(42));
    assert_eq!(ints("-42"), Some(-42));
    assert_eq!(ints("+42"), Some(42));
    assert_eq!(ints("-2147483648"), Some(i32::MIN));
    assert_eq!(ints("2147483648"), None);
    assert_eq!(ints("-2147483649"), None);
    assert_eq!(ints("99999999999999999999"), None);
    assert_eq!(ints(""), None);
    assert_eq!(ints("-"), None);
    assert_eq!(ints("+"), None);
    assert_eq!(ints("1a"), None);
    assert_eq!(ints("--1"), None);
}

#[test]
fn tokens_split_on_any_whitespace() {
    assert_eq!(tokens("  10\t2 \u{3000}+\n"), vec!["10", "2", "+"]);
    assert!(tokens("").is_empty());
    assert!(tokens(" \t ").is_empty());
    let cs = chars_of("ab  c");
    assert_eq!(token_spans(&cs), vec![(0, 2), (4, 5)]);
}

#[test]
fn operators_truncate_toward_zero() {
    assert_eq!(apply_operator(Operator::Div, -7, 2), Some(-3));
    assert_eq!(apply_operator(Operator::Rem, -7, 2), Some(-1));
    assert_eq!(apply_operator(Operator::Rem, 7, -2), Some(1));
    assert_eq!(apply_operator(Operator::Sub, 3, 10), Some(-7));
    assert_eq!(apply_operator(Operator::Rem, i32::MIN, -1), Some(0));
    assert_eq!(apply_operator(Operator::Div, i32::MIN, -1), None);
    assert_eq!(apply_operator(Operator::Add, i32::MAX, 1), None);
    assert_eq!(apply_operator(Operator::Mul, 65536, 65536), None);
    assert_eq!(apply_operator(Operator::Div, 1, 0), None);
}

#[test]
fn arithmetic_sign_cases() {
    let calc = RpnCalculator::new(false);
    assert_eq!(calc.eval("-10 -2 +"), Ok(-12));
    assert_eq!(calc.eval("-10 2 -"), Ok(-12));
    assert_eq!(calc.eval("-10 -2 *"), Ok(20));
    assert_eq!(calc.eval("10 3 /"), Ok(3));
    assert_eq!(calc.eval("-10 3 /"), Ok(-3));
    assert_eq!(calc.eval("-10 3 %"), Ok(-1));
    assert_eq!(calc.eval("10 -3 %"), Ok(1));
    assert_eq!(calc.eval("1 2 + 3 *"), Ok(9));
    assert_eq!(calc.eval("5 1 2 + 4 * + 3 -"), Ok(14));
}

#[test]
fn operator_without_operands_is_a_syntax_error() {
    let calc = RpnCalculator::new(false);
    assert_eq!(calc.eval("+ 1 1"), Err(EvalError::InvalidSyntax { position: Some(1) }));
    assert_eq!(calc.eval("1 +"), Err(EvalError::InvalidSyntax { position: Some(2) }));
    assert_eq!(calc.eval("^"), Err(EvalError::InvalidSyntax { position: Some(1) }));
}

#[test]
fn leftover_values_are_a_syntax_error() {
    let calc = RpnCalculator::new(false);
    assert_eq!(calc.eval("1 1 1 +"), Err(EvalError::InvalidSyntax { position: None }));
    assert_eq!(calc.eval("1 2"), Err(EvalError::InvalidSyntax { position: None }));
    assert_eq!(calc.eval(""), Err(EvalError::InvalidSyntax { position: None }));
    assert_eq!(calc.eval("   "), Err(EvalError::InvalidSyntax { position: None }));
}

#[test]
fn unknown_operator_is_an_invalid_token() {
    let calc = RpnCalculator::new(false);
    assert_eq!(
        calc.eval("1 1 ^"),
        Err(EvalError::InvalidToken { position: 3, token: String::from("^") })
    );
    assert_eq!(
        calc.eval("4 2 ++"),
        Err(EvalError::InvalidToken { position: 3, token: String::from("++") })
    );
    assert_eq!(
        calc.eval("1 2 2147483648"),
        Err(EvalError::InvalidToken { position: 3, token: String::from("2147483648") })
    );
}

#[test]
fn overflow_is_an_arithmetic_fault() {
    let calc = RpnCalculator::new(false);
    assert_eq!(calc.eval("2147483647 1 +"), Err(EvalError::ArithmeticFault { position: 3 }));
    assert_eq!(calc.eval("-2147483648 -1 /"), Err(EvalError::ArithmeticFault { position: 3 }));
    assert_eq!(calc.eval("-2147483648 -1 %"), Ok(0));
    assert_eq!(calc.eval("1 0 / 2"), Err(EvalError::ArithmeticFault { position: 3 }));
}

#[test]
fn evaluation_is_repeatable() {
    let quiet = RpnCalculator::new(false);
    let verbose = RpnCalculator::new(true);
    for f in ["10 2 +", "1 +", "1 1 ^", "3 0 /", "1 1 1 +"] {
        let first = quiet.eval(f);
        assert_eq!(quiet.eval(f), first);
        assert_eq!(verbose.eval(f), first);
        assert_eq!(verbose.eval_traced(f).0, first);
    }
}

#[test]
fn trace_records_each_applied_token() {
    let verbose = RpnCalculator::new(true);
    let (r, trace) = verbose.eval_traced("10 2 + 3");
    assert_eq!(r, Err(EvalError::InvalidSyntax { position: None }));
    let seen: Vec<(usize, Vec<i32>)> = trace.into_iter().map(|s| (s.consumed, s.stack)).collect();
    assert_eq!(seen, vec![(1, vec![10]), (2, vec![10, 2]), (3, vec![12]), (4, vec![12, 3])]);

    let (r, trace) = verbose.eval_traced("1 +");
    assert_eq!(r, Err(EvalError::InvalidSyntax { position: Some(2) }));
    assert_eq!(trace.len(), 1);

    let quiet = RpnCalculator::new(false);
    let (r, trace) = quiet.eval_traced("10 2 +");
    assert_eq!(r, Ok(12));
    assert!(trace.is_empty());
}

#[test]
fn recoverable_driver_keeps_going() {
    let calc = RpnCalculator::new(false);
    let lines = vec![String::from("5"), String::from("10 2 +"), String::from("1 +")];
    assert_eq!(
        calc.eval_lines(&lines, Mode::Recoverable),
        vec![Ok(5), Ok(12), Err(EvalError::InvalidSyntax { position: Some(2) })]
    );
    let lines = vec![String::from("1 +"), String::from("2 3 *")];
    assert_eq!(
        calc.eval_lines(&lines, Mode::Recoverable),
        vec![Err(EvalError::InvalidSyntax { position: Some(2) }), Ok(6)]
    );
}

#[test]
fn strict_driver_stops_at_first_failure() {
    let calc = RpnCalculator::new(false);
    let lines = vec![String::from("5"), String::from("1 +"), String::from("2 3 *")];
    assert_eq!(
        calc.eval_lines(&lines, Mode::Strict),
        vec![Ok(5), Err(EvalError::InvalidSyntax { position: Some(2) })]
    );
    let lines = vec![String::from("5"), String::from("2 3 *")];
    assert_eq!(calc.eval_lines(&lines, Mode::Strict), vec![Ok(5), Ok(6)]);
}

#[test]
fn separators_are_the_unicode_whitespace() {
    for c in (0u32..=0x10FFFF).filter_map(char::from_u32) {
        assert_eq!(rpn_calc::lexer::is_separator(c), c.is_whitespace(), "{:?}", c);
    }
}

#[test]
fn tokens_agree_with_split_whitespace() {
    for f in ["", "a", " a  b ", "\u{a0}x\u{2003}y\u{85}", "10\r\n2\t+", "1\u{200b}2"] {
        let expected: Vec<&str> = f.split_whitespace().collect();
        assert_eq!(tokens(f), expected, "{:?}", f);
    }
}

#[test]
fn literals_agree_with_std_parse() {
    let samples = [
        "0", "-0", "+0", "12", "-12", "+12", "0012", "2147483647", "2147483648",
        "-2147483648", "-2147483649", "4294967296", "", "-", "+", "+-1", "1-", "1 ", "١٢",
        "12a", "abc", "%", "00000000000000000000000000042",
    ];
    for s in samples {
        assert_eq!(ints(s), s.parse::<i32>().ok(), "{:?}", s);
    }
}
