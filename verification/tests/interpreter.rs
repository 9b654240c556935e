use rlisp::ast::{Atom, Exp};
use rlisp::env::{standard_environment, Env};
use rlisp::err::{EvalError, ParseError};
use rlisp::eval::{eval, evaluate, DEFAULT_FUEL};
use rlisp::parser::parse;

fn num(x: f64) -> Exp {
    Exp::Atom(Atom::Number(x.to_bits()))
}

fn run(program: &str, env: &mut Env) -> Result<Exp, EvalError> {
    let parsed = parse(program).expect("program should parse");
    evaluate(&parsed, env)
}

fn run_num(program: &str, env: &mut Env) -> f64 {
    match run(program, env).expect("program should evaluate") {
        Exp::Atom(Atom::Number(b)) => f64::from_bits(b),
        other => panic!("expected a number, got {:?}", other),
    }
}

#[test]
fn parses_integer_literal() {
    assert_eq!(parse("42").unwrap(), num(42.0));
}

#[test]
fn parses_negative_fraction() {
    assert_eq!(parse("-3.5").unwrap(), num(-3.5));
}

#[test]
fn parses_leading_dot_literal() {
    assert_eq!(parse("+.5").unwrap(), num(0.5));
    assert_eq!(parse(".25").unwrap(), num(0.25));
}

#[test]
fn parses_exactly_like_ieee() {
    // a value with no short binary representation still converts exactly
    assert_eq!(parse("0.1").unwrap(), num(0.1));
    assert_eq!(parse("2.5").unwrap(), num(2.5));
}

#[test]
fn addition_of_one_and_two_is_three() {
    let mut env = standard_environment();
    assert_eq!(run("(+ 1 2)", &mut env).unwrap(), num(3.0));
}

#[test]
fn four_pi_from_standard_environment() {
    let mut env = standard_environment();
    let got = run_num("(* pi (* 2 2))", &mut env);
    assert!((got - 4.0 * std::f64::consts::PI).abs() < 1e-12);
}

#[test]
fn define_binds_and_returns_true() {
    let mut env = standard_environment();
    assert_eq!(run("(define x 5)", &mut env).unwrap(), Exp::Atom(Atom::Bool(true)));
    assert_eq!(run("x", &mut env).unwrap(), num(5.0));
}

#[test]
fn define_overwrites_prior_binding() {
    let mut env = standard_environment();
    run("(define x 5)", &mut env).unwrap();
    run("(define x 7)", &mut env).unwrap();
    assert_eq!(run("x", &mut env).unwrap(), num(7.0));
}

#[test]
fn division_by_zero_fails() {
    let mut env = standard_environment();
    assert_eq!(run("(/ 1 0)", &mut env), Err(EvalError::DivisionByZero));
}

#[test]
fn division_by_tiny_divisor_fails() {
    // 1e-13 lies below the 1e-12 threshold
    let mut env = standard_environment();
    assert_eq!(run("(/ 1 0.0000000000001)", &mut env), Err(EvalError::DivisionByZero));
}

#[test]
fn division_at_threshold_succeeds() {
    // 1e-12 itself is not below the threshold
    let mut env = standard_environment();
    let got = run_num("(/ 1 0.000000000001)", &mut env);
    assert!((got - 1e12).abs() < 1.0);
}

#[test]
fn conditional_takes_consequent_on_true() {
    let mut env = standard_environment();
    assert_eq!(run("(if (> 3 2) 1 2)", &mut env).unwrap(), num(1.0));
}

#[test]
fn conditional_takes_alternative_on_false() {
    let mut env = standard_environment();
    assert_eq!(run("(if (> 2 3) 1 2)", &mut env).unwrap(), num(2.0));
}

#[test]
fn conditional_requires_exact_true() {
    // a number is not the boolean true: the alternative is taken
    let mut env = standard_environment();
    assert_eq!(run("(if 1 1 2)", &mut env).unwrap(), num(2.0));
}

#[test]
fn lambda_applies_with_parameter_binding() {
    let mut env = standard_environment();
    assert_eq!(run("(begin (define sq (lambda r (* r r))) (sq 4))", &mut env).unwrap(), num(16.0));
}

#[test]
fn lambda_bindings_do_not_escape_the_call() {
    let mut env = standard_environment();
    run("(define y 1)", &mut env).unwrap();
    run("(begin (define f (lambda z (begin (define y 99) z))) (f 5))", &mut env).unwrap();
    assert_eq!(run("y", &mut env).unwrap(), num(1.0));
}

#[test]
fn lambda_extra_arguments_are_ignored() {
    let mut env = standard_environment();
    assert_eq!(run("(begin (define f (lambda r (* r r))) (f 3 4))", &mut env).unwrap(), num(9.0));
}

#[test]
fn open_paren_alone_fails_at_parser() {
    assert_eq!(parse("("), Err(ParseError::UnexpectedEof));
}

#[test]
fn close_paren_alone_fails_at_parser() {
    assert_eq!(parse(")"), Err(ParseError::NoToken));
}

#[test]
fn unterminated_form_fails_at_parser() {
    assert_eq!(parse("(+ 1"), Err(ParseError::UnexpectedEof));
}

#[test]
fn unknown_character_fails_at_lexer_layer() {
    assert_eq!(parse("(+ 1 #)"), Err(ParseError::Lex(String::from("#"))));
}

#[test]
fn trailing_tokens_after_first_form_are_ignored() {
    assert_eq!(parse("(+ 1 2) extra"), parse("(+ 1 2)"));
    // even an unscannable character after the first form does not matter
    assert_eq!(parse("(+ 1 2) #"), parse("(+ 1 2)"));
}

#[test]
fn power_builtin() {
    let mut env = standard_environment();
    assert_eq!(run("(^ 2 10)", &mut env).unwrap(), num(1024.0));
}

#[test]
fn subtraction_and_multiplication_builtins() {
    let mut env = standard_environment();
    assert_eq!(run("(- 5 3)", &mut env).unwrap(), num(2.0));
    assert_eq!(run("(* 6 7)", &mut env).unwrap(), num(42.0));
}

#[test]
fn division_builtin_computes_quotient() {
    let mut env = standard_environment();
    assert_eq!(run("(/ 7 2)", &mut env).unwrap(), num(3.5));
}

#[test]
fn comparison_builtins() {
    let mut env = standard_environment();
    assert_eq!(run("(< 1 2)", &mut env).unwrap(), Exp::Atom(Atom::Bool(true)));
    assert_eq!(run("(> 1 2)", &mut env).unwrap(), Exp::Atom(Atom::Bool(false)));
    assert_eq!(run("(>= 2 2)", &mut env).unwrap(), Exp::Atom(Atom::Bool(true)));
    assert_eq!(run("(<= 3 2)", &mut env).unwrap(), Exp::Atom(Atom::Bool(false)));
    assert_eq!(run("(= 2 2)", &mut env).unwrap(), Exp::Atom(Atom::Bool(true)));
    assert_eq!(run("(= 2 3)", &mut env).unwrap(), Exp::Atom(Atom::Bool(false)));
}

#[test]
fn negative_zero_equals_zero() {
    let mut env = standard_environment();
    assert_eq!(run("(= -0.0 0)", &mut env).unwrap(), Exp::Atom(Atom::Bool(true)));
    assert_eq!(run("(< -0.0 0)", &mut env).unwrap(), Exp::Atom(Atom::Bool(false)));
}

#[test]
fn absolute_value_builtin() {
    let mut env = standard_environment();
    assert_eq!(run("(abs -3)", &mut env).unwrap(), num(3.0));
    assert_eq!(run("(abs 3)", &mut env).unwrap(), num(3.0));
}

#[test]
fn transcendental_builtins_match_their_doubles() {
    let mut env = standard_environment();
    assert!((run_num("(sin 1)", &mut env) - 1.0f64.sin()).abs() < 1e-12);
    assert!((run_num("(cos 1)", &mut env) - 1.0f64.cos()).abs() < 1e-12);
    assert!((run_num("(tan 1)", &mut env) - 1.0f64.tan()).abs() < 1e-12);
    assert!((run_num("(sinh 1)", &mut env) - 1.0f64.sinh()).abs() < 1e-12);
    assert!((run_num("(cosh 1)", &mut env) - 1.0f64.cosh()).abs() < 1e-12);
    assert!((run_num("(tanh 1)", &mut env) - 1.0f64.tanh()).abs() < 1e-12);
    assert!((run_num("(exp 1)", &mut env) - 1.0f64.exp()).abs() < 1e-12);
    assert!((run_num("(ln 2)", &mut env) - 2.0f64.ln()).abs() < 1e-12);
}

#[test]
fn exponential_of_zero_is_one() {
    let mut env = standard_environment();
    assert_eq!(run("(exp 0)", &mut env).unwrap(), num(1.0));
}

#[test]
fn begin_returns_last_operand() {
    let mut env = standard_environment();
    assert_eq!(run("(begin 1 2 3)", &mut env).unwrap(), num(3.0));
}

#[test]
fn car_returns_first_operand() {
    let mut env = standard_environment();
    assert_eq!(run("(car 1 2 3)", &mut env).unwrap(), num(1.0));
}

#[test]
fn unknown_procedure_name_fails() {
    let mut env = standard_environment();
    assert_eq!(run("(foo 1)", &mut env), Err(EvalError::Name(String::from("foo"))));
}

#[test]
fn missing_operand_is_an_arity_failure() {
    let mut env = standard_environment();
    assert_eq!(run("(+ 1)", &mut env), Err(EvalError::Arity));
    assert_eq!(run("(begin)", &mut env), Err(EvalError::Arity));
}

#[test]
fn non_numeric_operand_is_a_type_failure() {
    let mut env = standard_environment();
    assert_eq!(run("(+ 1 nosuch)", &mut env), Err(EvalError::Type));
}

#[test]
fn empty_list_is_a_syntax_failure() {
    let mut env = standard_environment();
    assert_eq!(run("()", &mut env), Err(EvalError::Syntax));
}

#[test]
fn conditional_with_wrong_operand_count_is_a_syntax_failure() {
    let mut env = standard_environment();
    assert_eq!(run("(if 1 2)", &mut env), Err(EvalError::Syntax));
}

#[test]
fn define_of_a_non_symbol_is_a_type_failure() {
    let mut env = standard_environment();
    assert_eq!(run("(define 1 2)", &mut env), Err(EvalError::Type));
}

#[test]
fn exhausted_fuel_reports_depth() {
    let mut env = standard_environment();
    let parsed = parse("(+ 1 2)").unwrap();
    assert_eq!(eval(&parsed, &mut env, 0), Err(EvalError::Depth));
    assert_eq!(eval(&parsed, &mut env, DEFAULT_FUEL), Ok(num(3.0)));
}

#[test]
fn unbound_symbol_evaluates_to_itself() {
    let mut env = standard_environment();
    assert_eq!(
        run("nosuch", &mut env).unwrap(),
        Exp::Atom(Atom::Symbol(String::from("nosuch")))
    );
}

#[test]
fn constants_of_the_standard_environment() {
    let mut env = standard_environment();
    assert_eq!(run("pi", &mut env).unwrap(), num(std::f64::consts::PI));
    assert_eq!(run("e", &mut env).unwrap(), num(std::f64::consts::E));
}

#[test]
fn error_messages_name_the_failure() {
    assert_eq!(parse(")").unwrap_err().message(), "no token found");
    let mut env = standard_environment();
    assert_eq!(run("(foo 1)", &mut env).unwrap_err().message(), "foo, not in env");
}

#[test]
fn rendering_produces_canonical_text() {
    let e = rlisp::parser::parse("( +  1   2 )").unwrap();
    assert_eq!(rlisp::render::render(&e), "(+ 1 2)");
}

#[test]
fn reparsing_a_rendered_tree_reproduces_it() {
    let e = parse("(begin (define sq (lambda r (* r r))) (sq 4))").unwrap();
    let text = rlisp::render::render(&e);
    assert_eq!(parse(&text).unwrap(), e);
}

#[test]
fn reparsing_rendered_numbers_reproduces_them() {
    for src in ["0.1", "-3.5", "(+ 1 2.5)", "(* 0.000000000001 3)", "12345678901234567890"] {
        let e = parse(src).unwrap();
        let text = rlisp::render::render(&e);
        assert_eq!(parse(&text).unwrap(), e, "round trip of {}", src);
    }
}

#[test]
fn sign_followed_by_digits_is_a_number() {
    assert_eq!(parse("+5").unwrap(), num(5.0));
    assert_eq!(parse("-2").unwrap(), num(-2.0));
}

#[test]
fn sign_alone_is_a_symbol() {
    assert_eq!(parse("+").unwrap(), Exp::Atom(Atom::Symbol(String::from("+"))));
}

#[test]
fn negative_literal_operand() {
    let mut env = standard_environment();
    assert_eq!(run("(- 5 -2)", &mut env).unwrap(), num(7.0));
}
