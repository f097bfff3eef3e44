use calculator::charstream::CharStream;
use calculator::rational::Rational;
use calculator::tokens::{Token, TokenKind, TokenStream};

#[test]
fn charstream_rejects_empty_input() {
    assert!(CharStream::new(String::new()).is_err());
}

#[test]
fn charstream_yields_characters_in_order() {
    let mut cs = CharStream::new("abc".to_string()).ok().unwrap();
    assert_eq!(cs.current_pos(), 0);
    assert_eq!(cs.next_char(), Some('a'));
    assert_eq!(cs.current_pos(), 1);
    assert_eq!(cs.next_char(), Some('b'));
    assert_eq!(cs.next_char(), Some('c'));
    assert_eq!(cs.current_pos(), 3);
    assert_eq!(cs.next_char(), None);
    // The cursor does not move past the end.
    assert_eq!(cs.current_pos(), 3);
}

#[test]
fn charstream_putback_steps_back_one_character() {
    let mut cs = CharStream::new("xy".to_string()).ok().unwrap();
    assert_eq!(cs.next_char(), Some('x'));
    cs.putback();
    assert_eq!(cs.current_pos(), 0);
    assert_eq!(cs.next_char(), Some('x'));
    assert_eq!(cs.next_char(), Some('y'));
}

#[test]
fn tokenstream_rejects_empty_input() {
    assert!(TokenStream::new(String::new()).is_none());
}

#[test]
fn tokenstream_accepts_blank_input() {
    // A line of spaces holds characters, so the stream is built; it just
    // yields no token.
    let mut ts = TokenStream::new("   ".to_string()).unwrap();
    assert_eq!(ts.get_token().unwrap(), None);
}

#[test]
fn tokenstream_lexes_kinds_and_positions() {
    let mut ts = TokenStream::new("2 + (30)".to_string()).unwrap();
    let t0 = ts.get_token().unwrap().unwrap();
    assert_eq!(t0.kind, TokenKind::Number(Rational::new(2, 1)));
    assert_eq!(t0.position, 0);
    let t1 = ts.get_token().unwrap().unwrap();
    assert_eq!(t1.kind, TokenKind::Plus);
    assert_eq!(t1.position, 2);
    let t2 = ts.get_token().unwrap().unwrap();
    assert_eq!(t2.kind, TokenKind::OpenParenthesis);
    assert_eq!(t2.position, 4);
    let t3 = ts.get_token().unwrap().unwrap();
    assert_eq!(t3.kind, TokenKind::Number(Rational::new(30, 1)));
    assert_eq!(t3.position, 5);
    let t4 = ts.get_token().unwrap().unwrap();
    assert_eq!(t4.kind, TokenKind::CloseParenthesis);
    assert_eq!(t4.position, 7);
    assert_eq!(ts.get_token().unwrap(), None);
}

#[test]
fn tokenstream_reports_invalid_characters() {
    let mut ts = TokenStream::new("%".to_string()).unwrap();
    let e = ts.get_token().unwrap_err();
    assert_eq!(
        e.error_kind(),
        calculator::errors::ErrorKind::InvalidCharacter('%')
    );
    assert_eq!(e.current_position(), 0);
}

#[test]
fn putback_roundtrip_returns_the_same_token() {
    let mut ts = TokenStream::new("2 + 3".to_string()).unwrap();
    let t = ts.get_token().unwrap().unwrap();
    let cursor_before = ts.current_pos();
    ts.putback(t);
    // Token-level putback does not move the character cursor.
    assert_eq!(ts.current_pos(), cursor_before);
    let again = ts.get_token().unwrap().unwrap();
    assert_eq!(again, t);
    assert_eq!(ts.current_pos(), cursor_before);
}

#[test]
fn putback_stacks_tokens_last_in_first_out() {
    let mut ts = TokenStream::new("1".to_string()).unwrap();
    let a = Token {
        kind: TokenKind::Plus,
        position: 10,
    };
    let b = Token {
        kind: TokenKind::Minus,
        position: 11,
    };
    ts.putback(a);
    ts.putback(b);
    assert_eq!(ts.get_token().unwrap().unwrap(), b);
    assert_eq!(ts.get_token().unwrap().unwrap(), a);
    let one = ts.get_token().unwrap().unwrap();
    assert_eq!(one.kind, TokenKind::Number(Rational::new(1, 1)));
}

#[test]
fn token_kind_symbols() {
    assert_eq!(TokenKind::Plus.symbol(), "+");
    assert_eq!(TokenKind::Minus.symbol(), "-");
    assert_eq!(TokenKind::Times.symbol(), "*");
    assert_eq!(TokenKind::Divide.symbol(), "/");
    assert_eq!(TokenKind::OpenParenthesis.symbol(), "(");
    assert_eq!(TokenKind::CloseParenthesis.symbol(), ")");
    assert_eq!(TokenKind::Number(Rational::from_integer(5)).symbol(), "number");
}

#[test]
fn rational_arithmetic_is_exact() {
    let half = Rational::new(1, 2);
    let third = Rational::new(1, 3);
    let sum = half.checked_add(&third).unwrap();
    assert!(sum.same_value(&Rational::new(5, 6)));
    let diff = half.checked_sub(&third).unwrap();
    assert!(diff.same_value(&Rational::new(1, 6)));
    let prod = half.checked_mul(&third).unwrap();
    assert!(prod.same_value(&Rational::new(1, 6)));
    let quot = half.checked_div(&third).unwrap();
    assert!(quot.same_value(&Rational::new(3, 2)));
}

#[test]
fn rational_overflow_is_detected() {
    let big = Rational::new(i64::MAX, 1);
    assert!(big.checked_add(&big).is_none());
    assert!(big.checked_mul(&big).is_none());
}

#[test]
fn rational_same_value_ignores_representation() {
    assert!(Rational::new(2, 4).same_value(&Rational::new(1, 2)));
    assert!(!Rational::new(2, 4).same_value(&Rational::new(2, 3)));
    assert!(Rational::new(0, 7).is_zero());
}
