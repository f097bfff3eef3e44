//! Structured evaluation errors: a kind and the 0-based character offset at
//! which the problem was found.

use vstd::prelude::*;
use vstd::string::StringExecFns;

verus! {

/// What went wrong while lexing or parsing an expression.
#[derive(Clone, Copy, Debug, PartialEq, Eq, Structural)]
pub enum ErrorKind {
    /// The input line was empty or held only spaces; nothing was evaluated.
    EmptyInput,
    /// A character that is neither a space, an operator, a parenthesis, nor
    /// part of a numeric literal.  Carries the offending character.
    InvalidCharacter(char),
    /// A numeric literal whose accumulated text does not form a number
    /// (for example a bare `e` or a second `.`).
    NumberFormat,
    /// An opening parenthesis without a matching closing parenthesis at the
    /// expected point.
    UnbalancedParenthesis,
    /// A token that cannot start a primary (an operator or `)` where a number
    /// or `(` was expected), or a premature end of input.
    PrimaryExpected,
    /// A divisor that evaluated to zero.
    DivisionByZero,
    /// A literal or an intermediate result whose exact rational representation
    /// does not fit the 64-bit numerator/denominator range.
    NumericOverflow,
}

/// An error produced while evaluating one input line.
#[derive(Clone, Copy, Debug, PartialEq, Eq, Structural)]
pub struct ParserError {
    position: usize,
    kind: ErrorKind,
}

impl ParserError {
    /// Builds an error for the given character offset.
    pub fn new(position: usize, kind: ErrorKind) -> (e: ParserError)
        ensures
            e.position() == position,
            e.kind() == kind,
    {
        ParserError { position, kind }
    }

    /// The 0-based character offset the error points at.
    pub closed spec fn position(&self) -> usize {
        self.position
    }

    #[verifier::when_used_as_spec(position)]
    pub fn current_position(&self) -> (p: usize)
        ensures
            p == self.position(),
    {
        self.position
    }

    /// Which failure this is.
    pub closed spec fn kind(&self) -> ErrorKind {
        self.kind
    }

    #[verifier::when_used_as_spec(kind)]
    pub fn error_kind(&self) -> (k: ErrorKind)
        ensures
            k == self.kind(),
    {
        self.kind
    }

    /// A short description of the failure.
    pub fn message(&self) -> (m: &'static str)
        ensures
            m@ == spec_message(self.kind()),
    {
        match self.kind {
            ErrorKind::EmptyInput => "Empty input",
            ErrorKind::InvalidCharacter(_) => "Invalid character",
            ErrorKind::NumberFormat => "Error while reading number",
            ErrorKind::UnbalancedParenthesis => "Expected ')'",
            ErrorKind::PrimaryExpected => "Primary expected",
            ErrorKind::DivisionByZero => "Division by zero",
            ErrorKind::NumericOverflow => "Number too large to represent",
        }
    }

    /// Renders the error for display: a caret under the offending column,
    /// then the description, quoted on the following line.
    pub fn render(&self) -> (m: String)
        ensures
            m@ == spec_render(self.position(), self.kind()),
    {
        let mut out = String::new();
        let mut i: usize = 0;
        proof {
            reveal_strlit(" ");
            assert(out@ =~= Seq::new(0nat, |k: int| ' '));
        }
        while i < self.position
            invariant
                i <= self.position,
                " "@ == seq![' '],
                out@ == Seq::new(i as nat, |k: int| ' '),
            decreases self.position - i,
        {
            out.append(" ");
            i = i + 1;
            proof {
                assert(out@ =~= Seq::new(i as nat, |k: int| ' '));
            }
        }
        out.append("^\n '");
        out.append(self.message());
        out.append("'");
        out
    }
}

/// The rendering of an error: spaces up to the offending column, a caret,
/// and the description on the next line.
pub open spec fn spec_render(position: usize, kind: ErrorKind) -> Seq<char> {
    Seq::new(position as nat, |i: int| ' ') + "^\n '"@ + spec_message(kind) + "'"@
}

/// The description text that belongs to each error kind.
pub open spec fn spec_message(kind: ErrorKind) -> Seq<char> {
    match kind {
        ErrorKind::EmptyInput => "Empty input"@,
        ErrorKind::InvalidCharacter(_) => "Invalid character"@,
        ErrorKind::NumberFormat => "Error while reading number"@,
        ErrorKind::UnbalancedParenthesis => "Expected ')'"@,
        ErrorKind::PrimaryExpected => "Primary expected"@,
        ErrorKind::DivisionByZero => "Division by zero"@,
        ErrorKind::NumericOverflow => "Number too large to represent"@,
    }
}

} // verus!
