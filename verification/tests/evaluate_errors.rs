use calculator::errors::{ErrorKind, ParserError};
use calculator::evaluate;

fn eval_err(text: &str) -> ParserError {
    match evaluate(text.to_string()) {
        Ok(v) => panic!(
            "evaluation of {:?} unexpectedly succeeded with {}/{}",
            text,
            v.numerator(),
            v.denominator()
        ),
        Err(e) => e,
    }
}

#[test]
fn division_by_zero_points_at_the_divisor() {
    let e = eval_err("1 / 0");
    assert_eq!(e.error_kind(), ErrorKind::DivisionByZero);
    assert_eq!(e.current_position(), 4);
}

#[test]
fn division_by_parenthesized_zero() {
    let e = eval_err("4 / (3 - 3)");
    assert_eq!(e.error_kind(), ErrorKind::DivisionByZero);
    assert_eq!(e.current_position(), 4);
}

#[test]
fn unbalanced_parenthesis_at_end_of_input() {
    let e = eval_err("(1 + 2");
    assert_eq!(e.error_kind(), ErrorKind::UnbalancedParenthesis);
    assert_eq!(e.current_position(), 6);
}

#[test]
fn unbalanced_parenthesis_at_unexpected_token() {
    // After the inner expression `1 + 2`, the next token must close the
    // parenthesis; the number `3` at offset 7 does not.
    let e = eval_err("(1 + 2 3");
    assert_eq!(e.error_kind(), ErrorKind::UnbalancedParenthesis);
    assert_eq!(e.current_position(), 7);
}

#[test]
fn invalid_character_points_at_it() {
    let e = eval_err("2 $ 3");
    assert_eq!(e.error_kind(), ErrorKind::InvalidCharacter('$'));
    assert_eq!(e.current_position(), 2);
}

#[test]
fn empty_input_is_rejected() {
    let e = eval_err("");
    assert_eq!(e.error_kind(), ErrorKind::EmptyInput);
    assert_eq!(e.current_position(), 0);
}

#[test]
fn all_space_input_is_rejected() {
    let e = eval_err("   ");
    assert_eq!(e.error_kind(), ErrorKind::EmptyInput);
    assert_eq!(e.current_position(), 0);
}

#[test]
fn bare_exponent_marker_is_a_number_format_error() {
    let e = eval_err("1e");
    assert_eq!(e.error_kind(), ErrorKind::NumberFormat);
    assert_eq!(e.current_position(), 2);
}

#[test]
fn second_dot_is_a_number_format_error() {
    let e = eval_err("1.2.3");
    assert_eq!(e.error_kind(), ErrorKind::NumberFormat);
    assert_eq!(e.current_position(), 5);
}

#[test]
fn dangling_exponent_sign_is_a_number_format_error() {
    let e = eval_err("1e-");
    assert_eq!(e.error_kind(), ErrorKind::NumberFormat);
}

#[test]
fn huge_literal_overflows() {
    let e = eval_err("1e300");
    assert_eq!(e.error_kind(), ErrorKind::NumericOverflow);
    assert_eq!(e.current_position(), 0);
}

#[test]
fn product_overflow_points_at_the_operator() {
    let e = eval_err("4000000000 * 4000000000");
    assert_eq!(e.error_kind(), ErrorKind::NumericOverflow);
    assert_eq!(e.current_position(), 11);
}

#[test]
fn operator_cannot_start_an_expression() {
    let e = eval_err("+");
    assert_eq!(e.error_kind(), ErrorKind::PrimaryExpected);
    assert_eq!(e.current_position(), 0);
}

#[test]
fn missing_right_operand() {
    let e = eval_err("2 +");
    assert_eq!(e.error_kind(), ErrorKind::PrimaryExpected);
    assert_eq!(e.current_position(), 3);
}

#[test]
fn empty_parentheses_expect_a_primary() {
    let e = eval_err("()");
    assert_eq!(e.error_kind(), ErrorKind::PrimaryExpected);
    assert_eq!(e.current_position(), 1);
}

#[test]
fn close_parenthesis_cannot_start_an_expression() {
    let e = eval_err(")");
    assert_eq!(e.error_kind(), ErrorKind::PrimaryExpected);
    assert_eq!(e.current_position(), 0);
}

#[test]
fn lexing_error_inside_parentheses_propagates() {
    let e = eval_err("(2 + #)");
    assert_eq!(e.error_kind(), ErrorKind::InvalidCharacter('#'));
    assert_eq!(e.current_position(), 5);
}

#[test]
fn error_message_texts() {
    assert_eq!(eval_err("2 $ 3").message(), "Invalid character");
    assert_eq!(eval_err("1 / 0").message(), "Division by zero");
    assert_eq!(eval_err("").message(), "Empty input");
    assert_eq!(eval_err("(1").message(), "Expected ')'");
    assert_eq!(eval_err("1e").message(), "Error while reading number");
    assert_eq!(eval_err("*").message(), "Primary expected");
    assert_eq!(eval_err("1e300").message(), "Number too large to represent");
}

#[test]
fn render_puts_a_caret_under_the_column() {
    let e = eval_err("2 $ 3");
    assert_eq!(e.render(), "  ^\n 'Invalid character'");
}

#[test]
fn error_constructor_keeps_position_and_kind() {
    let e = ParserError::new(7, ErrorKind::NumberFormat);
    assert_eq!(e.current_position(), 7);
    assert_eq!(e.error_kind(), ErrorKind::NumberFormat);
}
