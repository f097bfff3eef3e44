//! An interactive-calculator core: a character stream with putback, a lazy
//! tokenizer with one-token lookahead, and a recursive-descent parser that
//! evaluates `+ - * /` expressions with parenthesized grouping, `*` and `/`
//! binding tighter than `+` and `-`, left to right within a level.
//!
//! Arithmetic is exact: values are rational numbers with a 64-bit numerator
//! and denominator.  A literal or an intermediate result whose exact
//! representation would leave that range is reported as a numeric overflow
//! rather than rounded.  An unmatched parenthesis is a hard failure: no
//! partial value is returned.  Errors carry the 0-based character offset
//! they point at.
//!
//! The caller is expected to read lines, hand each line to [`evaluate`], and
//! format the resulting value or error; nothing is shared between lines.

pub mod charstream;
pub mod errors;
pub mod numeric;
pub mod parser;
pub mod rational;
pub mod tokens;

use vstd::prelude::*;
use vstd::string::StrSliceExecFns;

use crate::errors::{ErrorKind, ParserError};
use crate::parser::{expression, sp_expression, Parsed};
use crate::rational::Rational;
use crate::tokens::{sp_lex, TokenStream};

verus! {

/// The line holds no characters, or only spaces.
pub open spec fn all_blank(chars: Seq<char>) -> bool {
    forall|i: int| 0 <= i < chars.len() ==> chars[i] == ' '
}

/// The specified outcome of evaluating one line under the machine
/// semantics: lex the whole line, then parse one expression.  Tokens that
/// follow a complete expression are left unread, as the parser leaves them
/// for the caller.
pub open spec fn sp_evaluate(chars: Seq<char>) -> Parsed {
    sp_expression(sp_lex(chars, 0).toks, sp_lex(chars, 0).tail, true)
}

/// The same evaluation under the ideal semantics: exact rational arithmetic
/// with no range limit.
pub open spec fn sp_evaluate_ideal(chars: Seq<char>) -> Parsed {
    sp_expression(sp_lex(chars, 0).toks, sp_lex(chars, 0).tail, false)
}

/// Whenever evaluation under the machine semantics produces a value, it is
/// exactly the value of the ideal, unbounded rational semantics: standard
/// infix evaluation with `*` and `/` binding tighter than `+` and `-`, left
/// to right within a level.  The bounded semantics differs only in turning
/// out-of-range values into overflow failures.
pub proof fn lemma_evaluate_matches_ideal(chars: Seq<char>)
    ensures
        sp_evaluate(chars) matches Parsed::Value { .. } ==> sp_evaluate_ideal(chars) == sp_evaluate(
            chars,
        ),
{
    crate::parser::lemma_bounded_sound_expression(sp_lex(chars, 0).toks, sp_lex(chars, 0).tail);
}

fn is_blank(s: &str) -> (b: bool)
    ensures
        b == all_blank(s@),
{
    let n = s.unicode_len();
    let mut i: usize = 0;
    while i < n
        invariant
            i <= n,
            n == s@.len(),
            forall|k: int| 0 <= k < i ==> s@[k] == ' ',
        decreases n - i,
    {
        let c = s.get_char(i);
        if c != ' ' {
            return false;
        }
        i = i + 1;
    }
    true
}

/// Evaluates one line of input.
///
/// An empty or all-space line is rejected with `EmptyInput` before any
/// stream is built.  Otherwise the line is lexed and parsed as one
/// expression and the result is exactly what the specification
/// [`sp_evaluate`] assigns to the text — in particular, two evaluations of
/// the same text return the same result, as no state outlives a call.
pub fn evaluate(input: String) -> (r: Result<Rational, ParserError>)
    ensures
        all_blank(input@) ==> (r matches Err(e) && e.kind() == ErrorKind::EmptyInput && e.position()
            == 0),
        !all_blank(input@) ==> match sp_evaluate(input@) {
            Parsed::Value { v, rest } => r matches Ok(val) && val.wf() && val@ == v,
            Parsed::Fail { pos, kind } => r matches Err(e) && e.position() as int == pos && e.kind()
                == kind,
        },
{
    let ghost iv = input@;
    if is_blank(input.as_str()) {
        return Err(ParserError::new(0, ErrorKind::EmptyInput));
    }
    let mut ts = match TokenStream::new(input) {
        Some(v) => v,
        None => {
            // An all-blank line was already rejected, so the line has at
            // least one character and the stream construction succeeds.
            proof {
                assert(all_blank(iv));
                assert(false);
            }
            return Err(ParserError::new(0, ErrorKind::EmptyInput));
        },
    };
    expression(&mut ts)
}

} // verus!
