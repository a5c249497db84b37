use mfni::{InputError, InputState, Interpreter};

fn feed(it: &mut Interpreter, line: &str) -> Result<InputState, InputError> {
    let mut bytes = line.as_bytes().to_vec();
    bytes.push(0);
    it.input(&bytes)
}

fn eval(it: &mut Interpreter, line: &str) -> f64 {
    let r = feed(it, line);
    assert!(matches!(r, Ok(InputState::Expression)), "{:?}", r);
    f64::from_bits(it.last_result())
}

fn define(it: &mut Interpreter, line: &str) {
    let r = feed(it, line);
    assert!(matches!(r, Ok(InputState::Assignment)), "{:?}", r);
}

#[test]
fn idempotent_constant_evaluation() {
    let mut it = Interpreter::new();
    define(&mut it, "k = 7");
    define(&mut it, "f:x = x + k");
    let first = eval(&mut it, "2 + 3 * 4 - f(1)");
    let second = eval(&mut it, "2 + 3 * 4 - f(1)");
    assert_eq!(first, second);
    assert_eq!(first, 6.0);
    // the environment still holds what it held before
    assert_eq!(eval(&mut it, "k"), 7.0);
    assert_eq!(eval(&mut it, "f(2)"), 9.0);
}

#[test]
fn precedence_mul_before_add() {
    let mut it = Interpreter::new();
    assert_eq!(eval(&mut it, "2+3*4"), 14.0);
}

#[test]
fn precedence_unary_sign_outside_exponent() {
    let mut it = Interpreter::new();
    assert_eq!(eval(&mut it, "-2^2"), -4.0);
}

#[test]
fn precedence_exponent_right_associative() {
    let mut it = Interpreter::new();
    assert_eq!(eval(&mut it, "2^3^2"), 512.0);
}

#[test]
fn precedence_compare_and_logic() {
    let mut it = Interpreter::new();
    assert_eq!(eval(&mut it, "1<2&&0"), 0.0);
    assert_eq!(eval(&mut it, "1<2||0&&0"), 1.0);
}

#[test]
fn ternary_dead_branch_pruning() {
    let mut it = Interpreter::new();
    assert_eq!(eval(&mut it, "1 ? 5 : undefined_name"), 5.0);
    assert_eq!(eval(&mut it, "0 ? undefined_name : 7"), 7.0);
}

#[test]
fn ternary_live_branch_undefined_fails() {
    let mut it = Interpreter::new();
    let r = feed(&mut it, "0 ? 5 : undefined_name");
    assert_eq!(
        r,
        Err(InputError::UndefinedIdentifier { ident: b"undefined_name".to_vec() })
    );
}

#[test]
fn self_recursion_factorial() {
    let mut it = Interpreter::new();
    define(&mut it, "f:n = n<=1 ? 1 : n*f(n-1)");
    assert_eq!(eval(&mut it, "f(5)"), 120.0);
    assert_eq!(eval(&mut it, "f(0)"), 1.0);
}

#[test]
fn redefinition_safety() {
    let mut it = Interpreter::new();
    define(&mut it, "g:x = x+1");
    define(&mut it, "h:x = g(x)");
    define(&mut it, "g:x = x+2");
    assert_eq!(eval(&mut it, "h(1)"), 2.0);
    assert_eq!(eval(&mut it, "g(1)"), 3.0);
}

#[test]
fn protected_value_assignment_fails() {
    let mut it = Interpreter::new();
    let r = feed(&mut it, "pi = 3");
    assert_eq!(r, Err(InputError::BuiltinIdentifier { ident: b"pi".to_vec() }));
}

#[test]
fn protected_function_redefinition_fails() {
    let mut it = Interpreter::new();
    let r = feed(&mut it, "sin:x = x");
    assert_eq!(r, Err(InputError::BuiltinIdentifier { ident: b"sin".to_vec() }));
}

#[test]
fn protected_parameter_name_fails() {
    let mut it = Interpreter::new();
    let r = feed(&mut it, "x:pi = pi");
    assert_eq!(r, Err(InputError::BuiltinIdentifier { ident: b"pi".to_vec() }));
}

#[test]
fn plain_value_may_shadow_builtin_function_name() {
    // only builtin values protect a plain assignment; a builtin function
    // name may hold a value while the function keeps working
    let mut it = Interpreter::new();
    define(&mut it, "sin = 3");
    assert_eq!(eval(&mut it, "sin + 1"), 4.0);
    assert_eq!(eval(&mut it, "sin(0)"), 0.0);
}

#[test]
fn arity_mismatch_fails() {
    let mut it = Interpreter::new();
    define(&mut it, "f:a,b = a+b");
    assert_eq!(
        feed(&mut it, "f(1)"),
        Err(InputError::InconsistentVariablesCount { ident: b"f".to_vec() })
    );
    assert_eq!(
        feed(&mut it, "f(1,2,3)"),
        Err(InputError::InconsistentVariablesCount { ident: b"f".to_vec() })
    );
    assert_eq!(eval(&mut it, "f(1,2)"), 3.0);
}

#[test]
fn self_recursive_arity_mismatch_fails() {
    let mut it = Interpreter::new();
    assert_eq!(
        feed(&mut it, "g:n = g(n,1)"),
        Err(InputError::InconsistentVariablesCount { ident: b"g".to_vec() })
    );
}

#[test]
fn continuation_completes_statement() {
    let mut it = Interpreter::new();
    assert!(matches!(feed(&mut it, "1 + ..."), Ok(InputState::Incomplete)));
    let r = feed(&mut it, "2");
    assert!(matches!(r, Ok(InputState::Expression)));
    assert_eq!(f64::from_bits(it.last_result()), 3.0);
}

#[test]
fn continuation_error_discards_pending_parse() {
    let mut it = Interpreter::new();
    assert!(matches!(feed(&mut it, "1 + ..."), Ok(InputState::Incomplete)));
    assert!(matches!(feed(&mut it, ")"), Err(InputError::SyntaxError { .. })));
    // a later fresh statement parses independently
    assert_eq!(eval(&mut it, "5"), 5.0);
}

#[test]
fn duplicate_parameters_fail() {
    let mut it = Interpreter::new();
    assert_eq!(
        feed(&mut it, "f:a,a = a"),
        Err(InputError::RepeatVariable { ident: b"a".to_vec() })
    );
}

#[test]
fn empty_and_whitespace_lines() {
    let mut it = Interpreter::new();
    assert!(matches!(feed(&mut it, ""), Ok(InputState::Empty)));
    assert!(matches!(feed(&mut it, "   \t "), Ok(InputState::Empty)));
}

#[test]
fn lexical_errors() {
    let mut it = Interpreter::new();
    assert!(matches!(feed(&mut it, "1 | 2"), Err(InputError::InvalidToken(_))));
    assert!(matches!(feed(&mut it, "1 & 2"), Err(InputError::InvalidToken(_))));
    assert!(matches!(feed(&mut it, "2e+"), Err(InputError::InvalidToken(_))));
    assert!(matches!(feed(&mut it, "1 @ 2"), Err(InputError::InvalidToken(_))));
    assert!(matches!(feed(&mut it, "1 .. 2"), Err(InputError::InvalidToken(_))));
}

#[test]
fn syntax_errors() {
    let mut it = Interpreter::new();
    assert!(matches!(feed(&mut it, "1 +"), Err(InputError::SyntaxError { .. })));
    assert!(matches!(feed(&mut it, "(1"), Err(InputError::SyntaxError { .. })));
    assert!(matches!(feed(&mut it, "* 3"), Err(InputError::SyntaxError { .. })));
}

#[test]
fn undefined_identifiers() {
    let mut it = Interpreter::new();
    assert_eq!(
        feed(&mut it, "nope"),
        Err(InputError::UndefinedIdentifier { ident: b"nope".to_vec() })
    );
    assert_eq!(
        feed(&mut it, "nope(1)"),
        Err(InputError::UndefinedIdentifier { ident: b"nope".to_vec() })
    );
}

#[test]
fn failed_statement_leaves_bindings_untouched() {
    let mut it = Interpreter::new();
    define(&mut it, "x = 1");
    assert!(feed(&mut it, "x = undefined_name").is_err());
    assert_eq!(eval(&mut it, "x"), 1.0);
}

#[test]
fn numeric_literals() {
    let mut it = Interpreter::new();
    assert_eq!(eval(&mut it, "42"), 42.0);
    assert_eq!(eval(&mut it, "2.5"), 2.5);
    assert_eq!(eval(&mut it, "2.5e2"), 250.0);
    assert_eq!(eval(&mut it, "2.5E+2"), 250.0);
    assert_eq!(eval(&mut it, "25e-1"), 2.5);
    assert_eq!(eval(&mut it, "0.1 + 0.2"), 0.1f64 + 0.2f64);
}

#[test]
fn division_follows_binary64_convention() {
    let mut it = Interpreter::new();
    assert_eq!(eval(&mut it, "1/0"), f64::INFINITY);
    assert_eq!(eval(&mut it, "-1/0"), f64::NEG_INFINITY);
    assert!(eval(&mut it, "0/0").is_nan());
}

#[test]
fn nan_results_are_canonical() {
    // every NaN an operation produces is stored as the one canonical quiet
    // pattern, whatever NaN the machine chose
    let mut it = Interpreter::new();
    let canonical: u64 = 0x7FF8_0000_0000_0000;
    assert!(matches!(feed(&mut it, "0/0"), Ok(InputState::Expression)));
    assert_eq!(it.last_result(), canonical);
    assert!(matches!(feed(&mut it, "sqrt(0-1)"), Ok(InputState::Expression)));
    assert_eq!(it.last_result(), canonical);
    assert!(matches!(feed(&mut it, "asin(2)"), Ok(InputState::Expression)));
    assert_eq!(it.last_result(), canonical);
    assert!(matches!(feed(&mut it, "ln(0-1)"), Ok(InputState::Expression)));
    assert_eq!(it.last_result(), canonical);
    assert!(matches!(feed(&mut it, "sgn(0/0)"), Ok(InputState::Expression)));
    assert_eq!(it.last_result(), canonical);
    assert!(matches!(feed(&mut it, "1/0 - 1/0"), Ok(InputState::Expression)));
    assert_eq!(it.last_result(), canonical);
}

#[test]
fn logical_not_and_three_way_compare() {
    let mut it = Interpreter::new();
    assert_eq!(eval(&mut it, "!0"), 1.0);
    assert_eq!(eval(&mut it, "!5"), 0.0);
    assert_eq!(eval(&mut it, "2<=>1"), 1.0);
    assert_eq!(eval(&mut it, "1<=>2"), -1.0);
    assert_eq!(eval(&mut it, "2<=>2"), 0.0);
}

#[test]
fn comparison_operators() {
    let mut it = Interpreter::new();
    assert_eq!(eval(&mut it, "1 < 2"), 1.0);
    assert_eq!(eval(&mut it, "2 > 3"), 0.0);
    assert_eq!(eval(&mut it, "2 >= 2"), 1.0);
    assert_eq!(eval(&mut it, "2 <= 1"), 0.0);
    assert_eq!(eval(&mut it, "2 == 2"), 1.0);
    assert_eq!(eval(&mut it, "2 != 2"), 0.0);
}

#[test]
fn builtin_constants() {
    let mut it = Interpreter::new();
    assert_eq!(eval(&mut it, "pi"), std::f64::consts::PI);
    assert_eq!(eval(&mut it, "e"), std::f64::consts::E);
}

#[test]
fn builtin_functions_compute() {
    let mut it = Interpreter::new();
    assert_eq!(eval(&mut it, "abs(-3)"), 3.0);
    assert_eq!(eval(&mut it, "floor(2.7)"), 2.0);
    assert_eq!(eval(&mut it, "ceil(2.1)"), 3.0);
    assert_eq!(eval(&mut it, "round(2.5)"), 3.0);
    assert_eq!(eval(&mut it, "sgn(-5)"), -1.0);
    assert_eq!(eval(&mut it, "sgn(5)"), 1.0);
    assert_eq!(eval(&mut it, "sqrt(9)"), 3.0);
    assert_eq!(eval(&mut it, "cbrt(27)"), 3.0);
    assert_eq!(eval(&mut it, "sin(0)"), 0.0);
    assert_eq!(eval(&mut it, "cos(0)"), 1.0);
    assert_eq!(eval(&mut it, "tan(0)"), 0.0);
    assert_eq!(eval(&mut it, "asin(1)"), std::f64::consts::FRAC_PI_2);
    assert_eq!(eval(&mut it, "acos(1)"), 0.0);
    assert_eq!(eval(&mut it, "atan(0)"), 0.0);
    assert_eq!(eval(&mut it, "ln(1)"), 0.0);
    assert_eq!(eval(&mut it, "log(1000)"), 3.0);
}

#[test]
fn atan2_takes_ordinate_first() {
    let mut it = Interpreter::new();
    assert_eq!(eval(&mut it, "atan2(1, 0)"), std::f64::consts::FRAC_PI_2);
    assert_eq!(eval(&mut it, "atan2(0, 1)"), 0.0);
    assert_eq!(eval(&mut it, "atan2(1, 1)"), std::f64::consts::FRAC_PI_4);
}

#[test]
fn power_operator() {
    let mut it = Interpreter::new();
    assert_eq!(eval(&mut it, "2^10"), 1024.0);
    assert_eq!(eval(&mut it, "9^0.5"), 3.0);
    assert_eq!(eval(&mut it, "2^-1"), 0.5);
}

#[test]
fn result_identifier_reads_last_value() {
    let mut it = Interpreter::new();
    assert_eq!(eval(&mut it, "2+2"), 4.0);
    assert_eq!(eval(&mut it, "_ * 2"), 8.0);
}

#[test]
fn value_rebinding() {
    let mut it = Interpreter::new();
    define(&mut it, "x = 1");
    define(&mut it, "x = 2");
    assert_eq!(eval(&mut it, "x + 1"), 3.0);
}

#[test]
fn functions_fold_at_definition_time() {
    let mut it = Interpreter::new();
    define(&mut it, "f:x = x + 2*3");
    assert_eq!(eval(&mut it, "f(1)"), 7.0);
    // a call with constant arguments folds inside a later definition
    define(&mut it, "g:y = y + f(1)");
    assert_eq!(eval(&mut it, "g(0)"), 7.0);
}

#[test]
fn parenthesized_grouping() {
    let mut it = Interpreter::new();
    assert_eq!(eval(&mut it, "(2+3)*4"), 20.0);
    assert_eq!(eval(&mut it, "-(2+3)"), -5.0);
}

#[test]
fn ternary_at_call_time() {
    let mut it = Interpreter::new();
    define(&mut it, "m:a,b = a > b ? a : b");
    assert_eq!(eval(&mut it, "m(3, 5)"), 5.0);
    assert_eq!(eval(&mut it, "m(5, 3)"), 5.0);
}

#[test]
fn assignment_reports_assignment_state() {
    let mut it = Interpreter::new();
    let before = it.last_result();
    let r = feed(&mut it, "x = 5");
    assert!(matches!(r, Ok(InputState::Assignment)));
    assert_eq!(it.last_result(), before);
}

#[test]
fn lone_continuation_marker_is_empty() {
    let mut it = Interpreter::new();
    assert!(matches!(feed(&mut it, "..."), Ok(InputState::Empty)));
}

#[test]
fn multiline_definition() {
    let mut it = Interpreter::new();
    assert!(matches!(feed(&mut it, "f:x = x + ..."), Ok(InputState::Incomplete)));
    define(&mut it, "1");
    assert_eq!(eval(&mut it, "f(4)"), 5.0);
}
