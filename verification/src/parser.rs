//! Recursive-descent parser and evaluator.
//!
//! Grammar (after B. Stroustrup's calculator grammar):
//!
//! ```text
//! Expression: Term | Expression "+" Term | Expression "-" Term
//! Term:       Primary | Term "*" Primary | Term "/" Primary
//! Primary:    Number | "(" Expression ")"
//! ```
//!
//! No syntax tree is built: each level folds its operands left to right as it
//! parses.  The behaviour is specified against `sp_expression`, a
//! mathematical recursive descent over the token sequence.  The `bounded`
//! flag of the specification selects between the exact machine semantics
//! (arithmetic fails once a value leaves the 64-bit rational range) and the
//! ideal semantics over unbounded rationals; the executable code implements
//! the bounded one exactly.

use vstd::prelude::*;

use crate::errors::{ErrorKind, ParserError};
use crate::rational::{rat_add, rat_div, rat_fits, rat_mul, rat_sub, Rat, Rational};
use crate::tokens::{LexTail, Token, TokenKind, TokenStream};

verus! {

/// The outcome of parsing one grammar unit from a token suffix: the unit's
/// value and the tokens left over, or a failure with its position.
pub enum Parsed {
    Value { v: Rat, rest: Seq<Token> },
    Fail { pos: int, kind: ErrorKind },
}

/// The failure reported when the tokens run out: the tail's own failure,
/// or the given kind at the end position.
pub open spec fn exhausted(tail: LexTail, kind: ErrorKind) -> Parsed {
    match tail {
        LexTail::End { pos } => Parsed::Fail { pos, kind },
        LexTail::Fail { pos, kind: k } => Parsed::Fail { pos, kind: k },
    }
}

/// Parses one primary: a number, or a parenthesized expression.
pub open spec fn sp_primary(toks: Seq<Token>, tail: LexTail, bounded: bool) -> Parsed
    decreases toks.len(), 0int,
{
    if toks.len() == 0 {
        exhausted(tail, ErrorKind::PrimaryExpected)
    } else {
        let t = toks[0];
        match t.kind {
            TokenKind::Number(v) => Parsed::Value { v: v@, rest: toks.subrange(1, toks.len() as int) },
            TokenKind::OpenParenthesis => {
                match sp_expression(toks.subrange(1, toks.len() as int), tail, bounded) {
                    Parsed::Value { v, rest } => {
                        if rest.len() > 0 {
                            if rest[0].kind == TokenKind::CloseParenthesis {
                                Parsed::Value { v, rest: rest.subrange(1, rest.len() as int) }
                            } else {
                                Parsed::Fail {
                                    pos: rest[0].position as int,
                                    kind: ErrorKind::UnbalancedParenthesis,
                                }
                            }
                        } else {
                            exhausted(tail, ErrorKind::UnbalancedParenthesis)
                        }
                    },
                    fail => fail,
                }
            },
            _ => Parsed::Fail { pos: t.position as int, kind: ErrorKind::PrimaryExpected },
        }
    }
}

/// Parses one term: a primary folded with any `*` and `/` that follow.
pub open spec fn sp_term(toks: Seq<Token>, tail: LexTail, bounded: bool) -> Parsed
    decreases toks.len(), 1int,
{
    match sp_primary(toks, tail, bounded) {
        Parsed::Value { v, rest } => {
            if rest.len() < toks.len() {
                sp_term_rest(rest, tail, v, bounded)
            } else {
                Parsed::Fail { pos: 0, kind: ErrorKind::PrimaryExpected }
            }
        },
        fail => fail,
    }
}

/// Folds `* Primary` and `/ Primary` onto an accumulated term value.  A
/// divisor that evaluates to zero fails at the divisor's position; any other
/// token stops the fold and is left for the caller.
pub open spec fn sp_term_rest(toks: Seq<Token>, tail: LexTail, acc: Rat, bounded: bool) -> Parsed
    decreases toks.len(), 3int,
{
    if toks.len() == 0 {
        match tail {
            LexTail::End { .. } => Parsed::Value { v: acc, rest: toks },
            LexTail::Fail { pos, kind } => Parsed::Fail { pos, kind },
        }
    } else {
        let t = toks[0];
        match t.kind {
            TokenKind::Times => {
                match sp_primary(toks.subrange(1, toks.len() as int), tail, bounded) {
                    Parsed::Value { v: v2, rest } => {
                        let prod = rat_mul(acc, v2);
                        if bounded && !rat_fits(prod) {
                            Parsed::Fail { pos: t.position as int, kind: ErrorKind::NumericOverflow }
                        } else if rest.len() < toks.len() {
                            sp_term_rest(rest, tail, prod, bounded)
                        } else {
                            Parsed::Fail { pos: 0, kind: ErrorKind::PrimaryExpected }
                        }
                    },
                    fail => fail,
                }
            },
            TokenKind::Divide => {
                match sp_primary(toks.subrange(1, toks.len() as int), tail, bounded) {
                    Parsed::Value { v: v2, rest } => {
                        if v2.n == 0 {
                            let dpos = if toks.len() >= 2 {
                                toks[1].position as int
                            } else {
                                0
                            };
                            Parsed::Fail { pos: dpos, kind: ErrorKind::DivisionByZero }
                        } else {
                            let quot = rat_div(acc, v2);
                            if bounded && !rat_fits(quot) {
                                Parsed::Fail {
                                    pos: t.position as int,
                                    kind: ErrorKind::NumericOverflow,
                                }
                            } else if rest.len() < toks.len() {
                                sp_term_rest(rest, tail, quot, bounded)
                            } else {
                                Parsed::Fail { pos: 0, kind: ErrorKind::PrimaryExpected }
                            }
                        }
                    },
                    fail => fail,
                }
            },
            _ => Parsed::Value { v: acc, rest: toks },
        }
    }
}

/// Parses one expression: a term folded with any `+` and `-` that follow.
pub open spec fn sp_expression(toks: Seq<Token>, tail: LexTail, bounded: bool) -> Parsed
    decreases toks.len(), 2int,
{
    match sp_term(toks, tail, bounded) {
        Parsed::Value { v, rest } => {
            if rest.len() < toks.len() {
                sp_expr_rest(rest, tail, v, bounded)
            } else {
                Parsed::Fail { pos: 0, kind: ErrorKind::PrimaryExpected }
            }
        },
        fail => fail,
    }
}

/// Folds `+ Term` and `- Term` onto an accumulated expression value.  Any
/// other token stops the fold and is left for the caller.
pub open spec fn sp_expr_rest(toks: Seq<Token>, tail: LexTail, acc: Rat, bounded: bool) -> Parsed
    decreases toks.len(), 4int,
{
    if toks.len() == 0 {
        match tail {
            LexTail::End { .. } => Parsed::Value { v: acc, rest: toks },
            LexTail::Fail { pos, kind } => Parsed::Fail { pos, kind },
        }
    } else {
        let t = toks[0];
        match t.kind {
            TokenKind::Plus => {
                match sp_term(toks.subrange(1, toks.len() as int), tail, bounded) {
                    Parsed::Value { v: v2, rest } => {
                        let sum = rat_add(acc, v2);
                        if bounded && !rat_fits(sum) {
                            Parsed::Fail { pos: t.position as int, kind: ErrorKind::NumericOverflow }
                        } else if rest.len() < toks.len() {
                            sp_expr_rest(rest, tail, sum, bounded)
                        } else {
                            Parsed::Fail { pos: 0, kind: ErrorKind::PrimaryExpected }
                        }
                    },
                    fail => fail,
                }
            },
            TokenKind::Minus => {
                match sp_term(toks.subrange(1, toks.len() as int), tail, bounded) {
                    Parsed::Value { v: v2, rest } => {
                        let diff = rat_sub(acc, v2);
                        if bounded && !rat_fits(diff) {
                            Parsed::Fail { pos: t.position as int, kind: ErrorKind::NumericOverflow }
                        } else if rest.len() < toks.len() {
                            sp_expr_rest(rest, tail, diff, bounded)
                        } else {
                            Parsed::Fail { pos: 0, kind: ErrorKind::PrimaryExpected }
                        }
                    },
                    fail => fail,
                }
            },
            _ => Parsed::Value { v: acc, rest: toks },
        }
    }
}

/// A primary that evaluates under the machine semantics evaluates to the
/// same value, with the same leftover tokens, under the ideal unbounded
/// semantics: the bound only turns out-of-range values into failures.
pub proof fn lemma_bounded_sound_primary(toks: Seq<Token>, tail: LexTail)
    ensures
        sp_primary(toks, tail, true) matches Parsed::Value { .. } ==> sp_primary(toks, tail, false)
            == sp_primary(toks, tail, true),
    decreases toks.len(), 0int,
{
    if toks.len() > 0 && toks[0].kind is OpenParenthesis {
        lemma_bounded_sound_expression(toks.subrange(1, toks.len() as int), tail);
    }
}

/// As `lemma_bounded_sound_primary`, for a whole term.
pub proof fn lemma_bounded_sound_term(toks: Seq<Token>, tail: LexTail)
    ensures
        sp_term(toks, tail, true) matches Parsed::Value { .. } ==> sp_term(toks, tail, false)
            == sp_term(toks, tail, true),
    decreases toks.len(), 1int,
{
    lemma_bounded_sound_primary(toks, tail);
    match sp_primary(toks, tail, true) {
        Parsed::Value { v, rest } => {
            if rest.len() < toks.len() {
                lemma_bounded_sound_term_rest(rest, tail, v);
            }
        },
        _ => {},
    }
}

/// As `lemma_bounded_sound_primary`, for the `* /` fold.
pub proof fn lemma_bounded_sound_term_rest(toks: Seq<Token>, tail: LexTail, acc: Rat)
    ensures
        sp_term_rest(toks, tail, acc, true) matches Parsed::Value { .. } ==> sp_term_rest(
            toks,
            tail,
            acc,
            false,
        ) == sp_term_rest(toks, tail, acc, true),
    decreases toks.len(), 3int,
{
    if toks.len() > 0 && (toks[0].kind is Times || toks[0].kind is Divide) {
        let sub = toks.subrange(1, toks.len() as int);
        lemma_bounded_sound_primary(sub, tail);
        match sp_primary(sub, tail, true) {
            Parsed::Value { v: v2, rest } => {
                if rest.len() < toks.len() {
                    if toks[0].kind is Times {
                        lemma_bounded_sound_term_rest(rest, tail, rat_mul(acc, v2));
                    } else if v2.n != 0 {
                        lemma_bounded_sound_term_rest(rest, tail, rat_div(acc, v2));
                    }
                }
            },
            _ => {},
        }
    }
}

/// As `lemma_bounded_sound_primary`, for a whole expression.
pub proof fn lemma_bounded_sound_expression(toks: Seq<Token>, tail: LexTail)
    ensures
        sp_expression(toks, tail, true) matches Parsed::Value { .. } ==> sp_expression(
            toks,
            tail,
            false,
        ) == sp_expression(toks, tail, true),
    decreases toks.len(), 2int,
{
    lemma_bounded_sound_term(toks, tail);
    match sp_term(toks, tail, true) {
        Parsed::Value { v, rest } => {
            if rest.len() < toks.len() {
                lemma_bounded_sound_expr_rest(rest, tail, v);
            }
        },
        _ => {},
    }
}

/// As `lemma_bounded_sound_primary`, for the `+ -` fold.
pub proof fn lemma_bounded_sound_expr_rest(toks: Seq<Token>, tail: LexTail, acc: Rat)
    ensures
        sp_expr_rest(toks, tail, acc, true) matches Parsed::Value { .. } ==> sp_expr_rest(
            toks,
            tail,
            acc,
            false,
        ) == sp_expr_rest(toks, tail, acc, true),
    decreases toks.len(), 4int,
{
    if toks.len() > 0 && (toks[0].kind is Plus || toks[0].kind is Minus) {
        let sub = toks.subrange(1, toks.len() as int);
        lemma_bounded_sound_term(sub, tail);
        match sp_term(sub, tail, true) {
            Parsed::Value { v: v2, rest } => {
                if rest.len() < toks.len() {
                    if toks[0].kind is Plus {
                        lemma_bounded_sound_expr_rest(rest, tail, rat_add(acc, v2));
                    } else {
                        lemma_bounded_sound_expr_rest(rest, tail, rat_sub(acc, v2));
                    }
                }
            },
            _ => {},
        }
    }
}

/// Evaluates one expression from the stream: pulls a term, then folds `+`
/// and `-` onto it, and leaves the first token that belongs to no expression
/// in the stream for the caller.
#[verifier::loop_isolation(false)]
pub fn expression(ts: &mut TokenStream) -> (r: Result<Rational, ParserError>)
    requires
        old(ts).wf(),
    ensures
        final(ts).wf(),
        final(ts).text() == old(ts).text(),
        r is Ok ==> final(ts).toks().len() < old(ts).toks().len(),
        match sp_expression(old(ts).toks(), old(ts).tail(), true) {
            Parsed::Value { v, rest } => r matches Ok(val) && val.wf() && val@ == v
                && final(ts).toks() == rest && final(ts).tail() == old(ts).tail(),
            Parsed::Fail { pos, kind } => r matches Err(e) && e.position() as int == pos && e.kind()
                == kind,
        },
    decreases old(ts).toks().len(), 2int,
{
    let ghost toks0 = old(ts).toks();
    let ghost tail0 = old(ts).tail();
    let mut left = match term(ts) {
        Ok(v) => v,
        Err(e) => {
            return Err(e);
        },
    };
    loop
        invariant
            ts.wf(),
            ts.text() == old(ts).text(),
            ts.tail() == tail0,
            left.wf(),
            ts.toks().len() < toks0.len(),
            sp_expr_rest(ts.toks(), tail0, left@, true) == sp_expression(toks0, tail0, true),
        decreases ts.toks().len(),
    {
        let ghost cur = ts.toks();
        let t = match ts.get_token() {
            Ok(v) => v,
            Err(e) => {
                return Err(e);
            },
        };
        match t {
            None => {
                return Ok(left);
            },
            Some(tok) => {
                match tok.kind {
                    TokenKind::Plus => {
                        let right = match term(ts) {
                            Ok(v) => v,
                            Err(e) => {
                                return Err(e);
                            },
                        };
                        match left.checked_add(&right) {
                            Some(v) => {
                                left = v;
                            },
                            None => {
                                return Err(
                                    ParserError::new(tok.position, ErrorKind::NumericOverflow),
                                );
                            },
                        }
                    },
                    TokenKind::Minus => {
                        let right = match term(ts) {
                            Ok(v) => v,
                            Err(e) => {
                                return Err(e);
                            },
                        };
                        match left.checked_sub(&right) {
                            Some(v) => {
                                left = v;
                            },
                            None => {
                                return Err(
                                    ParserError::new(tok.position, ErrorKind::NumericOverflow),
                                );
                            },
                        }
                    },
                    _ => {
                        ts.putback(tok);
                        proof {
                            assert(ts.toks() =~= cur);
                        }
                        return Ok(left);
                    },
                }
            },
        }
    }
}

/// Evaluates one term from the stream: pulls a primary, then folds `*` and
/// `/` onto it.  A divisor that evaluates to zero is reported at the
/// divisor's position.
#[verifier::loop_isolation(false)]
pub fn term(ts: &mut TokenStream) -> (r: Result<Rational, ParserError>)
    requires
        old(ts).wf(),
    ensures
        final(ts).wf(),
        final(ts).text() == old(ts).text(),
        r is Ok ==> final(ts).toks().len() < old(ts).toks().len(),
        match sp_term(old(ts).toks(), old(ts).tail(), true) {
            Parsed::Value { v, rest } => r matches Ok(val) && val.wf() && val@ == v
                && final(ts).toks() == rest && final(ts).tail() == old(ts).tail(),
            Parsed::Fail { pos, kind } => r matches Err(e) && e.position() as int == pos && e.kind()
                == kind,
        },
    decreases old(ts).toks().len(), 1int,
{
    let ghost toks0 = old(ts).toks();
    let ghost tail0 = old(ts).tail();
    let mut left = match primary(ts) {
        Ok(v) => v,
        Err(e) => {
            return Err(e);
        },
    };
    loop
        invariant
            ts.wf(),
            ts.text() == old(ts).text(),
            ts.tail() == tail0,
            left.wf(),
            ts.toks().len() < toks0.len(),
            sp_term_rest(ts.toks(), tail0, left@, true) == sp_term(toks0, tail0, true),
        decreases ts.toks().len(),
    {
        let ghost cur = ts.toks();
        let t = match ts.get_token() {
            Ok(v) => v,
            Err(e) => {
                return Err(e);
            },
        };
        match t {
            None => {
                return Ok(left);
            },
            Some(tok) => {
                match tok.kind {
                    TokenKind::Times => {
                        let right = match primary(ts) {
                            Ok(v) => v,
                            Err(e) => {
                                return Err(e);
                            },
                        };
                        match left.checked_mul(&right) {
                            Some(v) => {
                                left = v;
                            },
                            None => {
                                return Err(
                                    ParserError::new(tok.position, ErrorKind::NumericOverflow),
                                );
                            },
                        }
                    },
                    TokenKind::Divide => {
                        // Look one token ahead for the divisor's position, so
                        // a division by zero can point at the divisor.
                        let dtok = match ts.get_token() {
                            Ok(v) => v,
                            Err(e) => {
                                proof {
                                    assert(cur.subrange(1, cur.len() as int).len() == 0);
                                    assert(sp_term_rest(cur, tail0, left@, true) == sp_primary(
                                        cur.subrange(1, cur.len() as int),
                                        tail0,
                                        true,
                                    ));
                                }
                                return Err(e);
                            },
                        };
                        let dpos = match dtok {
                            Some(d2) => {
                                let p = d2.position;
                                ts.putback(d2);
                                proof {
                                    assert(ts.toks() =~= cur.subrange(1, cur.len() as int));
                                }
                                p
                            },
                            None => {
                                proof {
                                    assert(ts.toks() =~= cur.subrange(1, cur.len() as int));
                                }
                                ts.current_pos()
                            },
                        };
                        let right = match primary(ts) {
                            Ok(v) => v,
                            Err(e) => {
                                return Err(e);
                            },
                        };
                        if right.is_zero() {
                            return Err(ParserError::new(dpos, ErrorKind::DivisionByZero));
                        }
                        match left.checked_div(&right) {
                            Some(v) => {
                                left = v;
                            },
                            None => {
                                return Err(
                                    ParserError::new(tok.position, ErrorKind::NumericOverflow),
                                );
                            },
                        }
                    },
                    _ => {
                        ts.putback(tok);
                        proof {
                            assert(ts.toks() =~= cur);
                        }
                        return Ok(left);
                    },
                }
            },
        }
    }
}

/// Evaluates one primary from the stream: a number token yields its value;
/// an opening parenthesis yields the parenthesized expression's value and
/// requires the very next token to close it.
pub fn primary(ts: &mut TokenStream) -> (r: Result<Rational, ParserError>)
    requires
        old(ts).wf(),
    ensures
        final(ts).wf(),
        final(ts).text() == old(ts).text(),
        r is Ok ==> final(ts).toks().len() < old(ts).toks().len(),
        match sp_primary(old(ts).toks(), old(ts).tail(), true) {
            Parsed::Value { v, rest } => r matches Ok(val) && val.wf() && val@ == v
                && final(ts).toks() == rest && final(ts).tail() == old(ts).tail(),
            Parsed::Fail { pos, kind } => r matches Err(e) && e.position() as int == pos && e.kind()
                == kind,
        },
    decreases old(ts).toks().len(), 0int,
{
    let t = match ts.get_token() {
        Ok(v) => v,
        Err(e) => {
            return Err(e);
        },
    };
    let t = match t {
        Some(v) => v,
        None => {
            return Err(ParserError::new(ts.current_pos(), ErrorKind::PrimaryExpected));
        },
    };
    match t.kind {
        TokenKind::Number(v) => Ok(v),
        TokenKind::OpenParenthesis => {
            let d = match expression(ts) {
                Ok(v) => v,
                Err(e) => {
                    return Err(e);
                },
            };
            let t2 = match ts.get_token() {
                Ok(v) => v,
                Err(e) => {
                    return Err(e);
                },
            };
            let t2 = match t2 {
                Some(v) => v,
                None => {
                    return Err(
                        ParserError::new(ts.current_pos(), ErrorKind::UnbalancedParenthesis),
                    );
                },
            };
            match t2.kind {
                TokenKind::CloseParenthesis => Ok(d),
                _ => Err(ParserError::new(t2.position, ErrorKind::UnbalancedParenthesis)),
            }
        },
        _ => Err(ParserError::new(t.position, ErrorKind::PrimaryExpected)),
    }
}

} // verus!
