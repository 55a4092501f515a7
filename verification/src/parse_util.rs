//! Cursor primitives of the parser: consuming, peeking and expecting tokens.
use vstd::prelude::*;

verus! {

use crate::parser::{Parser, ParseError};
use crate::token::{Token, TokenType, TokenV};

/// The model of `expect`: what holds of the token at position `i`.
pub open spec fn spec_expect(toks: Seq<TokenV>, i: int, expected: TokenType) -> Result<
    (),
    ParseError,
> {
    if i >= toks.len() {
        Err(ParseError::UnexpectedEnd)
    } else if toks[i].token_type == expected {
        Ok(())
    } else {
        Err(ParseError::UnexpectedToken { expected, found: toks[i].token_type })
    }
}

impl Parser {
    /// Advances past the current token.
    pub fn consume(&mut self)
        requires
            old(self).token_index < old(self).token_stream@.len(),
        ensures
            final(self).token_index == old(self).token_index + 1,
            final(self).token_stream == old(self).token_stream,
            final(self).symbol_table == old(self).symbol_table,
    {
        let n = self.token_stream.len();
        self.token_index = self.token_index + 1;
    }

    /// The token `offset` places past the current one, without advancing.
    pub fn peek(&self, offset: usize) -> (r: Option<&Token>)
        requires
            self.token_index + offset <= usize::MAX,
        ensures
            match r {
                Some(t) => self.token_index + offset < self.token_stream@.len() && *t
                    == self.token_stream@[self.token_index + offset],
                None => self.token_index + offset >= self.token_stream@.len(),
            },
    {
        if self.token_index + offset >= self.token_stream.len() {
            return None;
        }
        Some(&self.token_stream[self.token_index + offset])
    }

    /// Checks that the current token has the expected kind, reporting what
    /// was found instead, or that the stream ended early.
    pub fn expect(&self, expected: TokenType) -> (r: Result<(), ParseError>)
        ensures
            r == spec_expect(self.toks(), self.token_index as int, expected),
    {
        if self.token_index >= self.token_stream.len() {
            return Err(ParseError::UnexpectedEnd);
        }
        let found = self.token_stream[self.token_index].token_type;
        if found == expected {
            Ok(())
        } else {
            Err(ParseError::UnexpectedToken { expected, found })
        }
    }
}

} // verus!
