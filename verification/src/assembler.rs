//! The assembler: reads tokens from a [`Lexer`] and checks them against
//! what each place of a statement expects.
use vstd::prelude::*;

use crate::lexer::Lexer;
use crate::token::{Token, TokenError, TokenErrorView, TokenView};

verus! {

/// A label of the program: its name and address.
pub struct Label {
    pub name: String,
    pub addr: u16,
}

impl Label {
    /// The label `name` at address `addr`.
    pub fn new(name: String, addr: u16) -> (l: Self)
        ensures
            l.name == name,
            l.addr == addr,
    {
        Self { name, addr }
    }
}

/// Errors of the assembler.
pub enum AssemblerError<'a> {
    /// A token other than the expected ones, or none, was read.
    UnexpectedToken { expected: Option<&'a [Token]>, received: Option<Token> },
    /// The text read is no valid token.
    InvalidToken(TokenError),
}

/// Whether two tokens are equal.
pub fn token_eq(a: &Token, b: &Token) -> (r: bool)
    ensures
        r == (a@ == b@),
{
    match (a, b) {
        (Token::Instruction(x), Token::Instruction(y)) => *x == *y,
        (Token::Identifier(x), Token::Identifier(y)) => *x == *y,
        (Token::Number(x), Token::Number(y)) => *x == *y,
        (Token::LiteralChar(x), Token::LiteralChar(y)) => *x == *y,
        (Token::LiteralStr(x), Token::LiteralStr(y)) => *x == *y,
        (Token::String, Token::String) => true,
        (Token::Static, Token::Static) => true,
        (Token::Var, Token::Var) => true,
        (Token::R0, Token::R0) => true,
        (Token::R1, Token::R1) => true,
        (Token::R2, Token::R2) => true,
        (Token::R3, Token::R3) => true,
        (Token::R4, Token::R4) => true,
        (Token::R5, Token::R5) => true,
        (Token::R6, Token::R6) => true,
        (Token::R7, Token::R7) => true,
        (Token::SP, Token::SP) => true,
        (Token::FR, Token::FR) => true,
        (Token::Pound, Token::Pound) => true,
        (Token::Comma, Token::Comma) => true,
        (Token::Colon, Token::Colon) => true,
        (Token::Plus, Token::Plus) => true,
        _ => false,
    }
}

/// Whether `t` is one of `tokens`.
pub fn contains_token(tokens: &[Token], t: &Token) -> (r: bool)
    ensures
        r == (exists|j: int| 0 <= j < tokens@.len() && #[trigger] tokens@[j]@ == t@),
{
    let mut k: usize = 0;
    while k < tokens.len()
        invariant
            k <= tokens@.len(),
            forall|j: int| 0 <= j < k ==> #[trigger] tokens@[j]@ != t@,
        decreases tokens.len() - k,
    {
        if token_eq(&tokens[k], t) {
            return true;
        }
        k += 1;
    }
    false
}

/// The assembler's state: the address being written, the labels seen, the
/// lexer over the source and the words written.
pub struct Assembler {
    current_address: usize,
    labels: std::collections::HashMap<String, usize>,
    lex: Lexer,
    stream_in: String,
    stream_out: Vec<usize>,
}

impl Assembler {
    /// Reads the next token and accepts it when it is one of `token`. At the
    /// end of the text, or for another token, the error names what was
    /// expected (and no token received); an invalid token is passed on.
    fn expected_token<'a>(&mut self, token: &'a [Token]) -> (r: Result<Token, AssemblerError<'a>>)
        requires
            old(self).lex.wf(),
            old(self).lex@.next_token_safe(),
        ensures
            final(self).lex.wf(),
            final(self).lex@ == old(self).lex@.next_token().0,
            match old(self).lex@.next_token().1 {
                Some(Ok(tv)) => if exists|j: int| 0 <= j < token@.len() && #[trigger] token@[j]@ == tv {
                    r matches Ok(t) && t@ == tv
                } else {
                    r matches Err(AssemblerError::UnexpectedToken { expected: Some(e), received: None }) && e == token
                },
                Some(Err(ev)) => r matches Err(AssemblerError::InvalidToken(e)) && e@ == ev,
                None => r matches Err(AssemblerError::UnexpectedToken { expected: Some(e), received: None }) && e == token,
            },
    {
        match self.lex.next_token() {
            Some(r) => match r {
                Ok(t) => if contains_token(token, &t) {
                    Ok(t)
                } else {
                    Err(AssemblerError::UnexpectedToken { expected: Some(token), received: None })
                },
                Err(e) => Err(AssemblerError::InvalidToken(e)),
            },
            None => Err(AssemblerError::UnexpectedToken { expected: Some(token), received: None }),
        }
    }
}

} // verus!
