//! Lexical tokens and the token stream.
//!
//! The token stream wraps a character stream and groups characters into
//! tokens on demand: spaces are skipped, the six symbols map directly, and a
//! digit starts a numeric literal.  A putback buffer replays tokens for the
//! parser's one-token lookahead.
//!
//! The stream's behaviour is specified against `sp_lex`, the mathematical
//! lexing of the remaining text: a sequence of tokens followed by a tail
//! (orderly end of input, or the first lexing failure).

use vstd::prelude::*;

use crate::charstream::CharStream;
use crate::errors::{ErrorKind, ParserError};
use crate::numeric::{
    is_digit, is_digit_exec, lit_rat, parse_literal, valid_literal,
};
use crate::rational::{rat_fits, Rational};

verus! {

/// The lexical classes.  Only a number carries a payload: its exact value.
#[derive(Clone, Copy, Debug, PartialEq, Eq, Structural)]
pub enum TokenKind {
    Plus,
    Minus,
    Times,
    Divide,
    OpenParenthesis,
    CloseParenthesis,
    Number(Rational),
}

/// A token, with the 0-based offset of the character that starts it.
#[derive(Clone, Copy, Debug, PartialEq, Eq, Structural)]
pub struct Token {
    pub kind: TokenKind,
    pub position: usize,
}

impl TokenKind {
    /// A short text for the kind: the operator or parenthesis character
    /// itself, or the word `number`.
    pub fn symbol(&self) -> (s: &'static str)
        ensures
            s@ == spec_symbol(*self),
    {
        match self {
            TokenKind::Plus => "+",
            TokenKind::Minus => "-",
            TokenKind::Times => "*",
            TokenKind::Divide => "/",
            TokenKind::OpenParenthesis => "(",
            TokenKind::CloseParenthesis => ")",
            TokenKind::Number(_) => "number",
        }
    }
}

/// The display text of each token kind.
pub open spec fn spec_symbol(k: TokenKind) -> Seq<char> {
    match k {
        TokenKind::Plus => "+"@,
        TokenKind::Minus => "-"@,
        TokenKind::Times => "*"@,
        TokenKind::Divide => "/"@,
        TokenKind::OpenParenthesis => "("@,
        TokenKind::CloseParenthesis => ")"@,
        TokenKind::Number(_) => "number"@,
    }
}

/// A token whose numeric payload, if it has one, is well-formed.
pub open spec fn token_wf(t: Token) -> bool {
    match t.kind {
        TokenKind::Number(v) => v.wf(),
        _ => true,
    }
}

/// The kind a single-symbol character lexes to.
pub open spec fn symbol_kind(c: char) -> Option<TokenKind> {
    if c == '+' {
        Some(TokenKind::Plus)
    } else if c == '-' {
        Some(TokenKind::Minus)
    } else if c == '*' {
        Some(TokenKind::Times)
    } else if c == '/' {
        Some(TokenKind::Divide)
    } else if c == '(' {
        Some(TokenKind::OpenParenthesis)
    } else if c == ')' {
        Some(TokenKind::CloseParenthesis)
    } else {
        None
    }
}

/// Whether the character at `i` continues a numeric literal begun at an
/// earlier index: a digit, `.`, `e`, or a `-` directly after an `e`.
pub open spec fn num_continues(s: Seq<char>, i: int) -> bool {
    i < s.len() && (is_digit(s[i]) || s[i] == '.' || s[i] == 'e' || (s[i] == '-' && 0 <= i - 1
        && s[i - 1] == 'e'))
}

/// One past the last character of the numeric literal that starts at `i`.
pub open spec fn num_end(s: Seq<char>, i: int) -> int
    decreases s.len() - i,
{
    if 0 <= i < s.len() && num_continues(s, i) {
        num_end(s, i + 1)
    } else {
        i
    }
}

/// One step of lexing: the token starting at the scanned position, the end
/// of input, or a failure.
pub enum LexStep {
    /// A token, and the index the next token would be scanned from.
    Lexed { t: Token, next: int },
    /// No characters remain.
    End,
    /// Lexing fails at `pos`.
    Fail { pos: int, kind: ErrorKind },
}

/// Lexes the numeric literal that starts at `i` (which must hold a digit).
pub open spec fn number_step(s: Seq<char>, i: int) -> LexStep {
    let j = num_end(s, i);
    let lit = s.subrange(i, j);
    if !valid_literal(lit) {
        LexStep::Fail { pos: j, kind: ErrorKind::NumberFormat }
    } else if !rat_fits(lit_rat(lit)) {
        LexStep::Fail { pos: i, kind: ErrorKind::NumericOverflow }
    } else {
        LexStep::Lexed {
            t: Token {
                kind: TokenKind::Number(
                    Rational { num: lit_rat(lit).n as i64, den: lit_rat(lit).d as i64 },
                ),
                position: i as usize,
            },
            next: j,
        }
    }
}

/// The next token of `chars` scanned from index `i`, skipping spaces.
pub open spec fn sp_next(chars: Seq<char>, i: int) -> LexStep
    decreases chars.len() - i,
{
    if !(0 <= i < chars.len()) {
        LexStep::End
    } else if chars[i] == ' ' {
        sp_next(chars, i + 1)
    } else {
        match symbol_kind(chars[i]) {
            Some(k) => LexStep::Lexed {
                t: Token { kind: k, position: i as usize },
                next: i + 1,
            },
            None => {
                if is_digit(chars[i]) {
                    number_step(chars, i)
                } else {
                    LexStep::Fail { pos: i, kind: ErrorKind::InvalidCharacter(chars[i]) }
                }
            },
        }
    }
}

/// What follows the tokens of a stream: the end of the input, or the first
/// lexing failure.
pub enum LexTail {
    /// All characters lex; `pos` is the input length.
    End { pos: int },
    /// Lexing fails at `pos`.
    Fail { pos: int, kind: ErrorKind },
}

/// The complete lexing of `chars` from index `i`.
pub struct Lexed {
    pub toks: Seq<Token>,
    pub tail: LexTail,
}

/// Lexes `chars` from `i` to the end or to the first failure.
pub open spec fn sp_lex(chars: Seq<char>, i: int) -> Lexed
    decreases chars.len() - i,
{
    match sp_next(chars, i) {
        LexStep::End => Lexed {
            toks: Seq::empty(),
            tail: LexTail::End { pos: chars.len() as int },
        },
        LexStep::Fail { pos, kind } => Lexed { toks: Seq::empty(), tail: LexTail::Fail { pos, kind } },
        LexStep::Lexed { t, next } => {
            if i < next <= chars.len() {
                let rest = sp_lex(chars, next);
                Lexed { toks: seq![t] + rest.toks, tail: rest.tail }
            } else {
                Lexed { toks: Seq::empty(), tail: LexTail::End { pos: chars.len() as int } }
            }
        },
    }
}

pub proof fn lemma_num_end_bounds(s: Seq<char>, i: int)
    requires
        0 <= i <= s.len(),
    ensures
        i <= num_end(s, i) <= s.len(),
    decreases s.len() - i,
{
    if i < s.len() && num_continues(s, i) {
        lemma_num_end_bounds(s, i + 1);
    }
}

/// A successfully lexed token starts at or after the scan position, ends
/// before `next`, makes progress, and carries a well-formed payload.
pub proof fn lemma_sp_next(chars: Seq<char>, i: int)
    requires
        0 <= i,
        chars.len() <= usize::MAX,
    ensures
        match sp_next(chars, i) {
            LexStep::Lexed { t, next } => i < next <= chars.len() && i <= t.position < next
                && token_wf(t),
            LexStep::End => true,
            LexStep::Fail { pos, kind } => 0 <= pos <= chars.len(),
        },
    decreases chars.len() - i,
{
    if 0 <= i < chars.len() {
        if chars[i] == ' ' {
            lemma_sp_next(chars, i + 1);
        } else if symbol_kind(chars[i]) is None && is_digit(chars[i]) {
            lemma_num_end_bounds(chars, i);
            let j = num_end(chars, i);
            assert(num_continues(chars, i));
            assert(j == num_end(chars, i + 1));
            lemma_num_end_bounds(chars, i + 1);
            let lit = chars.subrange(i, j);
            if valid_literal(lit) && rat_fits(lit_rat(lit)) {
                crate::numeric::lemma_lit_rat_wf(lit);
                let v = Rational { num: lit_rat(lit).n as i64, den: lit_rat(lit).d as i64 };
                assert(v@ == lit_rat(lit));
                assert(v.wf());
            }
        }
    }
}

/// The putback round trip: a put-back token is the next one yielded, and
/// the tokens after it are exactly those the stream held before.  `putback`
/// turns a stream with tokens `toks` into one with `[t] + toks` (its
/// contract), and `get_token` yields the head and keeps the rest, which
/// this lemma spells out for the composed sequence.  The character cursor
/// is untouched throughout, as `putback`'s contract states.
pub proof fn lemma_putback_roundtrip(t: Token, toks: Seq<Token>)
    ensures
        (seq![t] + toks)[0] == t,
        (seq![t] + toks).subrange(1, (seq![t] + toks).len() as int) == toks,
{
    assert((seq![t] + toks).subrange(1, (seq![t] + toks).len() as int) =~= toks);
}

/// A lazy stream of tokens over one line of input, with a putback buffer
/// for the parser's lookahead.
pub struct TokenStream {
    cs: CharStream,
    reserve_tokens: Vec<Token>,
}

impl TokenStream {
    /// The text of the line.
    pub closed spec fn text(self) -> Seq<char> {
        self.cs.text()
    }

    /// The character cursor of the underlying stream.
    pub closed spec fn cur(self) -> int {
        self.cs.cursor()
    }

    /// The tokens waiting in the putback buffer, next to be yielded first.
    pub closed spec fn pending(self) -> Seq<Token> {
        self.reserve_tokens@.reverse()
    }

    /// The lexing of the characters not yet consumed.
    pub closed spec fn rest(self) -> Lexed {
        sp_lex(self.text(), self.cur())
    }

    /// Every token this stream will still yield, in order.
    pub open spec fn toks(self) -> Seq<Token> {
        self.pending() + self.rest().toks
    }

    /// What follows those tokens: end of input, or a lexing failure.
    pub open spec fn tail(self) -> LexTail {
        self.rest().tail
    }

    pub closed spec fn inv(self) -> bool {
        self.cs.wf() && forall|k: int|
            0 <= k < self.reserve_tokens@.len() ==> token_wf(#[trigger] self.reserve_tokens@[k])
    }

    /// Well-formed stream.
    pub open spec fn wf(self) -> bool {
        self.inv()
    }

    /// Builds a token stream over one line; `None` when the line is empty.
    pub fn new(input: String) -> (r: Option<TokenStream>)
        ensures
            input@.len() == 0 ==> r is None,
            input@.len() > 0 ==> (r matches Some(ts) && ts.wf() && ts.text() == input@ && ts.cur()
                == 0 && ts.toks() == sp_lex(input@, 0).toks && ts.tail() == sp_lex(input@, 0).tail),
    {
        let ghost iv = input@;
        let cs = match CharStream::new(input) {
            Ok(v) => v,
            Err(_) => {
                return None;
            },
        };
        let ts = TokenStream { cs, reserve_tokens: Vec::new() };
        proof {
            assert(ts.toks() =~= sp_lex(iv, 0).toks);
        }
        Some(ts)
    }

    /// The character cursor, forwarded for diagnostics.
    pub fn current_pos(&self) -> (p: usize)
        ensures
            p as int == self.cur(),
    {
        self.cs.current_pos()
    }

    /// Stores one token to be replayed by the next `get_token` call.  Tokens
    /// stack: the one stored last is replayed first, and the character
    /// stream is not touched.
    pub fn putback(&mut self, t: Token)
        requires
            old(self).wf(),
            token_wf(t),
        ensures
            final(self).wf(),
            final(self).text() == old(self).text(),
            final(self).cur() == old(self).cur(),
            final(self).toks() == seq![t] + old(self).toks(),
            final(self).tail() == old(self).tail(),
    {
        self.reserve_tokens.push(t);
        proof {
            assert(self.pending() =~= seq![t] + old(self).pending());
            assert(self.toks() =~= seq![t] + old(self).toks());
        }
    }

    /// Yields the next token: the most recently put-back token if one is
    /// buffered, otherwise the next token lexed from the characters.  At the
    /// orderly end of the input it yields nothing; a lexing failure is
    /// returned as the error the failure describes.
    pub fn get_token(&mut self) -> (r: Result<Option<Token>, ParserError>)
        requires
            old(self).wf(),
        ensures
            final(self).wf(),
            final(self).text() == old(self).text(),
            old(self).toks().len() > 0 ==> (r == Ok::<Option<Token>, ParserError>(
                Some(old(self).toks()[0]),
            ) && token_wf(old(self).toks()[0]) && final(self).toks() == old(self).toks().subrange(
                1,
                old(self).toks().len() as int,
            ) && final(self).tail() == old(self).tail()),
            old(self).toks().len() == 0 ==> match old(self).tail() {
                LexTail::End { pos } => r == Ok::<Option<Token>, ParserError>(None)
                    && final(self).toks().len() == 0 && final(self).tail() == old(self).tail()
                    && final(self).cur() == pos,
                LexTail::Fail { pos, kind } => r matches Err(e) && e.position() as int == pos
                    && e.kind() == kind,
            },
    {
        if self.reserve_tokens.len() > 0 {
            let t = self.reserve_tokens.pop().unwrap();
            proof {
                assert(old(self).pending()[0] == t);
                assert(self.pending() =~= old(self).pending().subrange(
                    1,
                    old(self).pending().len() as int,
                ));
                assert(old(self).toks()[0] == t);
                assert(self.toks() =~= old(self).toks().subrange(1, old(self).toks().len() as int));
            }
            Ok(Some(t))
        } else {
            self.read_token()
        }
    }

    /// Lexes the next token from the character stream.
    #[verifier::loop_isolation(false)]
    fn read_token(&mut self) -> (r: Result<Option<Token>, ParserError>)
        requires
            old(self).wf(),
            old(self).pending().len() == 0,
        ensures
            final(self).wf(),
            final(self).text() == old(self).text(),
            old(self).toks().len() > 0 ==> (r == Ok::<Option<Token>, ParserError>(
                Some(old(self).toks()[0]),
            ) && token_wf(old(self).toks()[0]) && final(self).toks() == old(self).toks().subrange(
                1,
                old(self).toks().len() as int,
            ) && final(self).tail() == old(self).tail()),
            old(self).toks().len() == 0 ==> match old(self).tail() {
                LexTail::End { pos } => r == Ok::<Option<Token>, ParserError>(None)
                    && final(self).toks().len() == 0 && final(self).tail() == old(self).tail()
                    && final(self).cur() == pos,
                LexTail::Fail { pos, kind } => r matches Err(e) && e.position() as int == pos
                    && e.kind() == kind,
            },
    {
        let ghost orig = *self;
        loop
            invariant
                self.inv(),
                self.reserve_tokens@.len() == 0,
                orig.pending().len() == 0,
                self.text() == orig.text(),
                0 <= self.cur() <= self.text().len(),
                sp_lex(self.text(), self.cur()) == sp_lex(orig.text(), orig.cur()),
            decreases self.text().len() - self.cur(),
        {
            let ghost text = self.text();
            let ghost pre = self.cur();
            let p = self.cs.current_pos();
            match self.cs.next_char() {
                None => {
                    proof {
                        assert(sp_next(text, pre) is End);
                        assert(orig.toks() =~= Seq::<Token>::empty());
                    }
                    return Ok(None);
                },
                Some(c) => {
                    if c == ' ' {
                        proof {
                            lemma_sp_next(text, pre + 1);
                            assert(sp_next(text, pre) == sp_next(text, pre + 1));
                            assert(sp_lex(text, pre) == sp_lex(text, pre + 1));
                        }
                    } else {
                        match Self::symbol_exec(c) {
                            Some(k) => {
                                let t = Token { kind: k, position: p };
                                proof {
                                    assert(sp_next(text, pre) == LexStep::Lexed {
                                        t,
                                        next: pre + 1,
                                    });
                                    assert(orig.toks() =~= seq![t] + sp_lex(text, pre + 1).toks);
                                    assert(self.toks() =~= orig.toks().subrange(
                                        1,
                                        orig.toks().len() as int,
                                    ));
                                }
                                return Ok(Some(t));
                            },
                            None => {
                                if is_digit_exec(c) {
                                    self.cs.putback();
                                    proof {
                                        lemma_sp_next(text, pre);
                                        lemma_num_end_bounds(text, pre);
                                    }
                                    let ghost j = num_end(text, pre);
                                    let ghost lit = text.subrange(pre, j);
                                    match Self::handle_numeric_tokens(&mut self.cs) {
                                        Err(e) => {
                                            proof {
                                                assert(sp_next(text, pre) == number_step(
                                                    text,
                                                    pre,
                                                ));
                                                assert(orig.toks() =~= Seq::<Token>::empty());
                                            }
                                            return Err(e);
                                        },
                                        Ok(v) => {
                                            let t = Token {
                                                kind: TokenKind::Number(v),
                                                position: p,
                                            };
                                            proof {
                                                assert(valid_literal(lit) && rat_fits(
                                                    lit_rat(lit),
                                                ));
                                                assert(v == Rational {
                                                    num: lit_rat(lit).n as i64,
                                                    den: lit_rat(lit).d as i64,
                                                });
                                                assert(sp_next(text, pre) == LexStep::Lexed {
                                                    t,
                                                    next: j,
                                                });
                                                assert(orig.toks() =~= seq![t] + sp_lex(
                                                    text,
                                                    j,
                                                ).toks);
                                                assert(self.toks() =~= orig.toks().subrange(
                                                    1,
                                                    orig.toks().len() as int,
                                                ));
                                            }
                                            return Ok(Some(t));
                                        },
                                    }
                                } else {
                                    proof {
                                        assert(sp_next(text, pre) == LexStep::Fail {
                                            pos: pre,
                                            kind: ErrorKind::InvalidCharacter(c),
                                        });
                                        assert(orig.toks() =~= Seq::<Token>::empty());
                                    }
                                    return Err(ParserError::new(p, ErrorKind::InvalidCharacter(c)));
                                }
                            },
                        }
                    }
                },
            }
        }
    }

    /// Maps a single-symbol character to its token kind.
    fn symbol_exec(c: char) -> (k: Option<TokenKind>)
        ensures
            k == symbol_kind(c),
    {
        if c == '+' {
            Some(TokenKind::Plus)
        } else if c == '-' {
            Some(TokenKind::Minus)
        } else if c == '*' {
            Some(TokenKind::Times)
        } else if c == '/' {
            Some(TokenKind::Divide)
        } else if c == '(' {
            Some(TokenKind::OpenParenthesis)
        } else if c == ')' {
            Some(TokenKind::CloseParenthesis)
        } else {
            None
        }
    }

    /// Accumulates the numeric literal that starts at the cursor and turns
    /// it into its exact value.  The cursor ends one past the literal.
    fn handle_numeric_tokens(cs: &mut CharStream) -> (r: Result<Rational, ParserError>)
        requires
            old(cs).wf(),
            old(cs).cursor() < old(cs).text().len(),
            is_digit(old(cs).text()[old(cs).cursor()]),
        ensures
            final(cs).wf(),
            final(cs).text() == old(cs).text(),
            final(cs).cursor() == num_end(old(cs).text(), old(cs).cursor()),
            ({
                let j = num_end(old(cs).text(), old(cs).cursor());
                let lit = old(cs).text().subrange(old(cs).cursor(), j);
                &&& (!valid_literal(lit) ==> (r matches Err(e) && e.position() as int == j
                    && e.kind() == ErrorKind::NumberFormat))
                &&& (valid_literal(lit) && !rat_fits(lit_rat(lit)) ==> (r matches Err(e)
                    && e.position() as int == old(cs).cursor() && e.kind()
                    == ErrorKind::NumericOverflow))
                &&& (valid_literal(lit) && rat_fits(lit_rat(lit)) ==> (r matches Ok(v) && v.wf()
                    && v@ == lit_rat(lit)))
            }),
    {
        let spos = cs.current_pos();
        let ghost text = old(cs).text();
        let ghost start = old(cs).cursor();
        let mut lit: Vec<char> = Vec::new();
        loop
            invariant
                cs.wf(),
                cs.text() == text,
                0 <= start < text.len(),
                start <= cs.cursor() <= text.len(),
                is_digit(text[start]),
                spos as int == start,
                lit@ == text.subrange(start, cs.cursor()),
                num_end(text, start) == num_end(text, cs.cursor()),
            ensures
                cs.wf(),
                cs.text() == text,
                cs.cursor() == num_end(text, start),
                lit@ == text.subrange(start, num_end(text, start)),
            decreases text.len() - cs.cursor(),
        {
            let ghost pre = cs.cursor();
            match cs.next_char() {
                None => {
                    proof {
                        assert(num_end(text, pre) == pre);
                    }
                    break ;
                },
                Some(c) => {
                    let mut take = false;
                    if is_digit_exec(c) || c == '.' || c == 'e' {
                        take = true;
                    } else if c == '-' && lit.len() > 0 {
                        let last = lit[lit.len() - 1];
                        if last == 'e' {
                            take = true;
                        }
                    }
                    if take {
                        lit.push(c);
                        proof {
                            assert(num_continues(text, pre));
                            assert(lit@ =~= text.subrange(start, cs.cursor()));
                        }
                    } else {
                        cs.putback();
                        proof {
                            assert(!num_continues(text, pre));
                            assert(num_end(text, pre) == pre);
                        }
                        break ;
                    }
                },
            }
        }
        match parse_literal(&lit) {
            Ok(v) => Ok(v),
            Err(k) => {
                match k {
                    ErrorKind::NumberFormat => Err(ParserError::new(cs.current_pos(), k)),
                    _ => Err(ParserError::new(spos, k)),
                }
            },
        }
    }
}

} // verus!
