use calculator::evaluate;
use calculator::rational::Rational;

fn eval_ok(text: &str) -> Rational {
    match evaluate(text.to_string()) {
        Ok(v) => v,
        Err(e) => panic!("evaluation of {:?} failed: {:?}", text, e),
    }
}

fn assert_value(text: &str, num: i64, den: i64) {
    let v = eval_ok(text);
    let expected = Rational::new(num, den);
    assert!(
        v.same_value(&expected),
        "{:?} gave {}/{}, expected {}/{}",
        text,
        v.numerator(),
        v.denominator(),
        num,
        den
    );
}

#[test]
fn precedence_product_binds_tighter() {
    assert_value("2 + 3 * 4", 14, 1);
}

#[test]
fn parentheses_override_precedence() {
    assert_value("(2 + 3) * 4", 20, 1);
}

#[test]
fn division_is_left_associative() {
    assert_value("10 / 2 / 5", 1, 1);
}

#[test]
fn subtraction_is_left_associative() {
    assert_value("3 - 1 - 1", 1, 1);
}

#[test]
fn single_number() {
    let v = eval_ok("42");
    assert_eq!(v.numerator(), 42);
    assert_eq!(v.denominator(), 1);
}

#[test]
fn spaces_are_skipped() {
    assert_value("  2  ", 2, 1);
}

#[test]
fn nested_parentheses() {
    assert_value("((2 + 3)) * (1 + 1)", 10, 1);
}

#[test]
fn decimal_literal() {
    assert_value("3.5 + 1", 9, 2);
}

#[test]
fn decimal_below_one() {
    assert_value("0.5", 1, 2);
}

#[test]
fn trailing_dot_literal() {
    let v = eval_ok("1.");
    assert_eq!(v.numerator(), 1);
    assert_eq!(v.denominator(), 1);
}

#[test]
fn exponent_literal() {
    let v = eval_ok("2e3");
    assert_eq!(v.numerator(), 2000);
    assert_eq!(v.denominator(), 1);
}

#[test]
fn negative_exponent_literal() {
    let v = eval_ok("1e-2");
    assert_eq!(v.numerator(), 1);
    assert_eq!(v.denominator(), 100);
}

#[test]
fn exponent_after_fraction() {
    // 1.5e1 == 15
    assert_value("1.5e1", 15, 1);
}

#[test]
fn division_keeps_exact_fractions() {
    assert_value("1 / 3", 1, 3);
}

#[test]
fn negative_intermediate_value() {
    assert_value("(3 - 5) / 2", -1, 1);
}

#[test]
fn negative_divisor_normalizes_sign() {
    let v = eval_ok("4 / (0 - 2)");
    assert!(v.same_value(&Rational::new(-2, 1)));
    assert!(v.denominator() > 0);
}

#[test]
fn zero_dividend_is_fine() {
    assert_value("0 / 5", 0, 1);
}

#[test]
fn minus_without_spaces_is_subtraction() {
    assert_value("2-3", -1, 1);
}

#[test]
fn minus_after_exponent_digits_is_subtraction() {
    // The `-` right after `e` belongs to the exponent; the next one is the
    // operator: 1e-2 - 3 == -299/100.
    assert_value("1e-2-3", -299, 100);
}

#[test]
fn tokens_after_a_complete_expression_are_left_unread() {
    // The parser returns the first expression and puts the next token back.
    assert_value("1 2", 1, 1);
    assert_value("1) + 2", 1, 1);
}

#[test]
fn reevaluation_gives_identical_results() {
    let first = evaluate("2 + 3 * 4".to_string());
    let second = evaluate("2 + 3 * 4".to_string());
    assert_eq!(first, second);
    let first_err = evaluate("1 / 0".to_string());
    let second_err = evaluate("1 / 0".to_string());
    assert_eq!(first_err, second_err);
}
