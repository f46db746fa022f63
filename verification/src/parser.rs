//! The statement parser of the assembler: it reads items from the source,
//! classifies them into coarse tokens (keywords, instructions, identifiers,
//! literals and punctuation) and checks the operands of an instruction
//! against its rule.
use vstd::prelude::*;
use vstd::slice::slice_subrange;

use crate::isa::{lookup_name, Instruction};
use crate::lexer::first_newline;
use crate::number::{parse_radix, parse_radix_chars};
use crate::text::{
    ascii_digit, ascii_punctuation, byte_len, chars_eq_ignore_case, chars_of, chars_of_string,
    eq_ignore_case, is_alphabetic, is_alphanumeric, is_ascii_punctuation, is_whitespace, len_utf8,
    lemma_byte_len_encoded, lemma_byte_len_prefix, lemma_byte_len_split, string_of,
    unicode_alphabetic, unicode_numeric, unicode_whitespace, utf8_len,
};

verus! {

/// Errors of the parser.
#[derive(Debug, Clone, Copy, PartialEq, Eq, Structural)]
pub enum ParserError {
    CharBadFormat,
    StringBadFormat,
    NumberBadFormat,
    Empty,
    InvalidCharacter,
    InvalidRule,
}

impl ParserError {
    /// The message of the error.
    pub open spec fn message(self) -> Seq<char> {
        match self {
            ParserError::CharBadFormat => "Formato do char inválido!"@,
            ParserError::StringBadFormat => "Formato da string inválido!"@,
            ParserError::NumberBadFormat => "Formato do número inválido!"@,
            ParserError::Empty => "Entrada de dados vazia."@,
            ParserError::InvalidCharacter => "Caracter inválido!"@,
            ParserError::InvalidRule => "Regra inválida!"@,
        }
    }

    /// The message of the error, as `Display` shows it.
    pub fn to_string(&self) -> (s: String)
        ensures
            s@ == self.message(),
    {
        let text: &str = match self {
            ParserError::CharBadFormat => "Formato do char inválido!",
            ParserError::StringBadFormat => "Formato da string inválido!",
            ParserError::NumberBadFormat => "Formato do número inválido!",
            ParserError::Empty => "Entrada de dados vazia.",
            ParserError::InvalidCharacter => "Caracter inválido!",
            ParserError::InvalidRule => "Regra inválida!",
        };
        String::from_str(text)
    }
}

/// Reserved words: the `string` and `var` declarations and the registers.
#[derive(Debug, Clone, Copy, PartialEq, Eq, Structural)]
pub enum Keyword {
    String,
    Var,
    R0,
    R1,
    R2,
    R3,
    R4,
    R5,
    R6,
    R7,
    FR,
    SP,
}

/// The text of each keyword, in the order in which they are tried.
pub open spec fn keyword_text(k: Keyword) -> Seq<char> {
    match k {
        Keyword::String => "string"@,
        Keyword::Var => "var"@,
        Keyword::R0 => "R0"@,
        Keyword::R1 => "R1"@,
        Keyword::R2 => "R2"@,
        Keyword::R3 => "R3"@,
        Keyword::R4 => "R4"@,
        Keyword::R5 => "R5"@,
        Keyword::R6 => "R6"@,
        Keyword::R7 => "R7"@,
        Keyword::FR => "FR"@,
        Keyword::SP => "SP"@,
    }
}

/// The first keyword (in declaration order) whose text equals `s` without
/// ASCII case.
pub open spec fn keyword_of(s: Seq<char>) -> Option<Keyword> {
    if eq_ignore_case(s, "string"@) {
        Some(Keyword::String)
    } else if eq_ignore_case(s, "var"@) {
        Some(Keyword::Var)
    } else if eq_ignore_case(s, "R0"@) {
        Some(Keyword::R0)
    } else if eq_ignore_case(s, "R1"@) {
        Some(Keyword::R1)
    } else if eq_ignore_case(s, "R2"@) {
        Some(Keyword::R2)
    } else if eq_ignore_case(s, "R3"@) {
        Some(Keyword::R3)
    } else if eq_ignore_case(s, "R4"@) {
        Some(Keyword::R4)
    } else if eq_ignore_case(s, "R5"@) {
        Some(Keyword::R5)
    } else if eq_ignore_case(s, "R6"@) {
        Some(Keyword::R6)
    } else if eq_ignore_case(s, "R7"@) {
        Some(Keyword::R7)
    } else if eq_ignore_case(s, "FR"@) {
        Some(Keyword::FR)
    } else if eq_ignore_case(s, "SP"@) {
        Some(Keyword::SP)
    } else {
        None
    }
}

/// `a` and `b` compared without ASCII case.
fn same_text(a: &Vec<char>, b: &str) -> (r: bool)
    ensures
        r == eq_ignore_case(a@, b@),
{
    let bc = chars_of(b);
    chars_eq_ignore_case(a.as_slice(), bc.as_slice())
}

impl Keyword {
    /// The keyword written `s`, without ASCII case (see [`keyword_of`]).
    pub fn from_str(s: &str) -> (r: Option<Keyword>)
        ensures
            r == keyword_of(s@),
    {
        let c = chars_of(s);
        if same_text(&c, "string") {
            Some(Keyword::String)
        } else if same_text(&c, "var") {
            Some(Keyword::Var)
        } else if same_text(&c, "R0") {
            Some(Keyword::R0)
        } else if same_text(&c, "R1") {
            Some(Keyword::R1)
        } else if same_text(&c, "R2") {
            Some(Keyword::R2)
        } else if same_text(&c, "R3") {
            Some(Keyword::R3)
        } else if same_text(&c, "R4") {
            Some(Keyword::R4)
        } else if same_text(&c, "R5") {
            Some(Keyword::R5)
        } else if same_text(&c, "R6") {
            Some(Keyword::R6)
        } else if same_text(&c, "R7") {
            Some(Keyword::R7)
        } else if same_text(&c, "FR") {
            Some(Keyword::FR)
        } else if same_text(&c, "SP") {
            Some(Keyword::SP)
        } else {
            None
        }
    }

    /// The text of the keyword.
    pub fn to_string(&self) -> (s: String)
        ensures
            s@ == keyword_text(*self),
    {
        let text: &str = match self {
            Keyword::String => "string",
            Keyword::Var => "var",
            Keyword::R0 => "R0",
            Keyword::R1 => "R1",
            Keyword::R2 => "R2",
            Keyword::R3 => "R3",
            Keyword::R4 => "R4",
            Keyword::R5 => "R5",
            Keyword::R6 => "R6",
            Keyword::R7 => "R7",
            Keyword::FR => "FR",
            Keyword::SP => "SP",
        };
        String::from_str(text)
    }
}

/// Punctuation signs.
#[derive(Debug, Clone, Copy, PartialEq, Eq, Structural)]
pub enum Punctuation {
    Comma,
    Pound,
}

/// The punctuation sign written `s`, without ASCII case.
pub open spec fn punctuation_of(s: Seq<char>) -> Option<Punctuation> {
    if eq_ignore_case(s, ","@) {
        Some(Punctuation::Comma)
    } else if eq_ignore_case(s, "#"@) {
        Some(Punctuation::Pound)
    } else {
        None
    }
}

impl Punctuation {
    /// The punctuation sign written `s` (see [`punctuation_of`]).
    pub fn from_str(s: &str) -> (r: Option<Punctuation>)
        ensures
            r == punctuation_of(s@),
    {
        let c = chars_of(s);
        if same_text(&c, ",") {
            Some(Punctuation::Comma)
        } else if same_text(&c, "#") {
            Some(Punctuation::Pound)
        } else {
            None
        }
    }

    /// The text of the sign.
    pub fn to_string(&self) -> (s: String)
        ensures
            s@ == (match *self {
                Punctuation::Comma => ","@,
                Punctuation::Pound => "#"@,
            }),
    {
        match self {
            Punctuation::Comma => String::from_str(","),
            Punctuation::Pound => String::from_str("#"),
        }
    }
}

/// Kinds of literals.
#[derive(Debug, Clone, Copy, PartialEq, Eq, Structural)]
pub enum Literal {
    Char,
    String,
    BinNumber,
    DecNumber,
    HexNumber,
}

/// The kind of an item of the source.
#[derive(Debug, Clone, Copy, PartialEq, Eq, Structural)]
pub enum Token {
    Keyword(Keyword),
    Instruction(Instruction),
    Identifier,
    Literal(Literal),
    Punctuation(Punctuation),
}

/// What may stand at one place of an instruction's operands.
#[derive(Debug, Clone, Copy, PartialEq, Eq, Structural)]
pub enum Operand {
    /// One of the registers `R0` to `R7`.
    Register,
    /// One of the registers `R0` to `R7`, or `FR`.
    RegisterOrFlags,
    /// A comma.
    Comma,
    /// A pound sign.
    Pound,
    /// A binary, decimal or hexadecimal number, or an identifier.
    Address,
    /// An address or a character literal.
    Value,
}

/// One of the registers `R0` to `R7`.
pub open spec fn is_register(t: Token) -> bool {
    t matches Token::Keyword(k) && (k == Keyword::R0 || k == Keyword::R1 || k == Keyword::R2 || k
        == Keyword::R3 || k == Keyword::R4 || k == Keyword::R5 || k == Keyword::R6 || k
        == Keyword::R7)
}

/// A binary, decimal or hexadecimal number, or an identifier.
pub open spec fn is_address(t: Token) -> bool {
    t == Token::Literal(Literal::DecNumber) || t == Token::Literal(Literal::BinNumber) || t
        == Token::Literal(Literal::HexNumber) || t == Token::Identifier
}

/// `t` may stand where `o` is expected.
pub open spec fn accepts(o: Operand, t: Token) -> bool {
    match o {
        Operand::Register => is_register(t),
        Operand::RegisterOrFlags => is_register(t) || t == Token::Keyword(Keyword::FR),
        Operand::Comma => t == Token::Punctuation(Punctuation::Comma),
        Operand::Pound => t == Token::Punctuation(Punctuation::Pound),
        Operand::Address => is_address(t),
        Operand::Value => is_address(t) || t == Token::Literal(Literal::Char),
    }
}

/// The operands that follow an instruction, for the instructions whose
/// rule is written down.
pub open spec fn rule_of(i: Instruction) -> Option<Seq<Operand>> {
    match i {
        Instruction::LOAD => Some(seq![Operand::Register, Operand::Comma, Operand::Address]),
        Instruction::LOADN => Some(
            seq![Operand::Register, Operand::Comma, Operand::Pound, Operand::Value],
        ),
        Instruction::LOADI => Some(seq![Operand::Register, Operand::Register]),
        Instruction::STORE => Some(seq![Operand::Address, Operand::Register]),
        Instruction::STOREN => Some(seq![Operand::Address, Operand::Value]),
        Instruction::STOREI => Some(seq![Operand::Register, Operand::Register]),
        _ => None,
    }
}

/// A character that `consume_left_whitespaces` passes over: space, tab,
/// carriage return or line break.
pub open spec fn layout(c: char) -> bool {
    c == ' ' || c == '\t' || c == '\r' || c == '\n'
}

/// The number of [`layout`] characters at the start of `s`.
pub open spec fn layout_len(s: Seq<char>) -> nat
    decreases s.len(),
{
    if s.len() > 0 && layout(s[0]) {
        1 + layout_len(s.skip(1))
    } else {
        0
    }
}

/// The number of line breaks in `s`.
pub open spec fn newlines(s: Seq<char>) -> nat
    decreases s.len(),
{
    if s.len() == 0 {
        0
    } else {
        newlines(s.drop_last()) + if s.last() == '\n' { 1nat } else { 0nat }
    }
}

/// The position of the first `sep` after the first character of `s`,
/// scanning from `i`: a backslash marks the next `sep` as escaped.
pub open spec fn closing_from(s: Seq<char>, sep: char, i: nat, escaped: bool) -> Option<nat>
    decreases s.len() - i,
{
    if i >= s.len() {
        None
    } else if s[i as int] == '\\' {
        closing_from(s, sep, i + 1, true)
    } else if s[i as int] == sep {
        if escaped {
            closing_from(s, sep, i + 1, false)
        } else {
            Some(i)
        }
    } else {
        closing_from(s, sep, i + 1, false)
    }
}

/// The number of characters of an item enclosed by `sep`: up to and with
/// the closing `sep`, or the whole text when there is none.
pub open spec fn enclosed_len(s: Seq<char>, sep: char) -> nat {
    match closing_from(s, sep, 1, false) {
        Some(i) => i + 1,
        None => s.len(),
    }
}

/// A character of a word: neither white space nor ASCII punctuation other
/// than `_`.
pub open spec fn word_char(c: char) -> bool {
    !unicode_whitespace(c) && (c == '_' || !ascii_punctuation(c))
}

/// The number of word characters at the start of `s`.
pub open spec fn word_len(s: Seq<char>) -> nat
    decreases s.len(),
{
    if s.len() > 0 && word_char(s[0]) {
        1 + word_len(s.skip(1))
    } else {
        0
    }
}

/// A decimal, binary (`0b`) or hexadecimal (`0x`) number, with the text
/// that is kept of it (without the prefix).
pub open spec fn number_class(s: Seq<char>) -> Result<(Token, Seq<char>), ParserError> {
    if parse_radix(s, 10) is Some {
        Ok((Token::Literal(Literal::DecNumber), s))
    } else if s.len() > 0 && s[0] == '0' && byte_len(s) > 2 {
        if s[1] == 'b' || s[1] == 'B' {
            if parse_radix(s.skip(2), 2) is Some {
                Ok((Token::Literal(Literal::BinNumber), s.skip(2)))
            } else {
                Err(ParserError::NumberBadFormat)
            }
        } else if s[1] == 'x' || s[1] == 'X' {
            if parse_radix(s.skip(2), 16) is Some {
                Ok((Token::Literal(Literal::HexNumber), s.skip(2)))
            } else {
                Err(ParserError::NumberBadFormat)
            }
        } else {
            Err(ParserError::NumberBadFormat)
        }
    } else {
        Err(ParserError::NumberBadFormat)
    }
}

/// A keyword, else an instruction, else an identifier.
pub open spec fn word_class(s: Seq<char>) -> Result<(Token, Seq<char>), ParserError> {
    match keyword_of(s) {
        Some(k) => Ok((Token::Keyword(k), s)),
        None => match lookup_name(s) {
            Some(i) => Ok((Token::Instruction(i), s)),
            None => Ok((Token::Identifier, s)),
        },
    }
}

/// A punctuation sign, else an invalid character.
pub open spec fn punctuation_class(s: Seq<char>) -> Result<(Token, Seq<char>), ParserError> {
    match punctuation_of(s) {
        Some(p) => Ok((Token::Punctuation(p), s)),
        None => Err(ParserError::InvalidCharacter),
    }
}

/// The token of an item, by its first character: a digit starts a number,
/// a letter a word, quotes a character or string literal (a string keeps
/// the text between its first and last characters); anything else is
/// punctuation.
pub open spec fn classify(s: Seq<char>) -> Result<(Token, Seq<char>), ParserError> {
    let c = s[0];
    if ascii_digit(c) {
        number_class(s)
    } else if unicode_alphabetic(c) {
        word_class(s)
    } else if c == '\'' {
        Ok((Token::Literal(Literal::Char), s))
    } else if c == '"' {
        Ok((Token::Literal(Literal::String), s.subrange(1, s.len() - 1)))
    } else {
        punctuation_class(s)
    }
}

/// Classifying `s` does not panic: it is not empty, and a string literal
/// has at least two characters.
pub open spec fn classify_safe(s: Seq<char>) -> bool {
    &&& s.len() > 0
    &&& (!ascii_digit(s[0]) && !unicode_alphabetic(s[0]) && s[0] != '\'' && s[0] == '"' ==> s.len()
        >= 2)
}

/// The state of a [`Parser`]: the text still to read, the tokens accepted
/// by the rule check, the position, the line and the column.
pub struct ParserView {
    pub input: Seq<char>,
    pub stream: Seq<(Token, Seq<char>)>,
    pub pos: usize,
    pub line: usize,
    pub col: usize,
}

impl ParserView {
    /// The state after `consume_left_whitespaces`: when the text starts with
    /// white space, the leading spaces, tabs, carriage returns and line
    /// breaks are passed over (each line break counts a line and resets the
    /// column); the text is cut there and the column becomes the number of
    /// bytes passed, unless the whole text is of those characters, in which
    /// case the text stays.
    pub open spec fn consume_ws(self) -> ParserView {
        if self.input.len() > 0 && unicode_whitespace(self.input[0]) {
            let k = layout_len(self.input);
            let n = newlines(self.input.take(k as int));
            let line = (self.line + n) as usize;
            if k < self.input.len() {
                ParserView {
                    input: self.input.skip(k as int),
                    line,
                    col: byte_len(self.input.take(k as int)) as usize,
                    ..self
                }
            } else {
                ParserView { line, col: if n > 0 { 0 } else { self.col }, ..self }
            }
        } else {
            self
        }
    }

    /// `consume_ws` does not overflow the line count.
    pub open spec fn consume_ws_safe(self) -> bool {
        self.line + newlines(self.input.take(layout_len(self.input) as int)) <= usize::MAX
    }

    /// The state after `skip_next_line`.
    pub open spec fn skip_next_line(self) -> ParserView {
        match first_newline(self.input) {
            Some(k) => ParserView {
                input: self.input.skip(k + 1int),
                line: (self.line + 1) as usize,
                col: 0,
                ..self
            },
            None => ParserView { input: Seq::empty(), ..self },
        }
    }

    /// `skip_next_line` does not overflow the line count.
    pub open spec fn skip_next_line_safe(self) -> bool {
        first_newline(self.input) is Some ==> self.line + 1 <= usize::MAX
    }

    /// The commentary loop: while the text starts with `;`, skip the line
    /// and the white space after it.
    pub open spec fn commentary_loop(self) -> ParserView
        decreases self.input.len(),
    {
        if self.input.len() > 0 && self.input[0] == ';' {
            let next = self.skip_next_line().consume_ws();
            if next.input.len() < self.input.len() {
                next.commentary_loop()
            } else {
                self
            }
        } else {
            self
        }
    }

    /// The commentary loop does not overflow the line count.
    pub open spec fn commentary_loop_safe(self) -> bool
        decreases self.input.len(),
    {
        if self.input.len() > 0 && self.input[0] == ';' {
            let next = self.skip_next_line().consume_ws();
            &&& self.skip_next_line_safe()
            &&& self.skip_next_line().consume_ws_safe()
            &&& (next.input.len() < self.input.len() ==> next.commentary_loop_safe())
        } else {
            true
        }
    }

    /// The state after `consume_commentary`.
    pub open spec fn consume_commentary(self) -> ParserView {
        self.consume_ws().commentary_loop()
    }

    /// `consume_commentary` does not overflow the line count.
    pub open spec fn consume_commentary_safe(self) -> bool {
        self.consume_ws_safe() && self.consume_ws().commentary_loop_safe()
    }

    /// The state after reading the next item, and the item: after white
    /// space, a character or string literal (see [`enclosed_len`]), a word
    /// starting with a letter or digit (see [`word_len`]), or any other
    /// single character; [`ParserError::Empty`] at the end of the text.
    pub open spec fn next_item(self) -> (ParserView, Result<Seq<char>, ParserError>) {
        let w = self.consume_ws();
        let s = w.input;
        if s.len() == 0 {
            (w, Err(ParserError::Empty))
        } else {
            let k = if s[0] == '\'' || s[0] == '"' {
                enclosed_len(s, s[0])
            } else if unicode_alphabetic(s[0]) || unicode_numeric(s[0]) {
                word_len(s)
            } else {
                1
            };
            (ParserView { input: s.skip(k as int), ..w }, Ok(s.take(k as int)))
        }
    }

    /// Reading the next item does not panic: the line count does not
    /// overflow, an unclosed literal ends in a one-byte character, and a
    /// single-character item is one byte.
    pub open spec fn next_item_safe(self) -> bool {
        let s = self.consume_ws().input;
        &&& self.consume_ws_safe()
        &&& (s.len() > 0 && (s[0] == '\'' || s[0] == '"') && closing_from(s, s[0], 1, false) is None
            ==> utf8_len(s.last()) == 1)
        &&& (s.len() > 0 && s[0] != '\'' && s[0] != '"' && !unicode_alphabetic(s[0])
            && !unicode_numeric(s[0]) ==> utf8_len(s[0]) == 1)
    }

    /// The state after reading the next token, and the token with its text.
    pub open spec fn next_token(self) -> (ParserView, Result<(Token, Seq<char>), ParserError>) {
        let (w, r) = self.next_item();
        match r {
            Ok(s) => (w, classify(s)),
            Err(e) => (w, Err(e)),
        }
    }

    /// Reading the next token does not panic.
    pub open spec fn next_token_safe(self) -> bool {
        &&& self.next_item_safe()
        &&& (self.next_item().1 matches Ok(s) ==> classify_safe(s))
    }

    /// The state after checking the operands `ops` in turn: each token read
    /// is kept when accepted; the first refused one gives
    /// [`ParserError::InvalidRule`], and an error in reading is passed on.
    pub open spec fn check_operands(self, ops: Seq<Operand>) -> (ParserView, Result<(), ParserError>)
        decreases ops.len(),
    {
        if ops.len() == 0 {
            (self, Ok(()))
        } else {
            let (w, r) = self.next_token();
            match r {
                Err(e) => (w, Err(e)),
                Ok(t) => if accepts(ops[0], t.0) {
                    ParserView { stream: w.stream.push(t), ..w }.check_operands(ops.drop_first())
                } else {
                    (w, Err(ParserError::InvalidRule))
                },
            }
        }
    }

    /// Checking the operands `ops` does not panic.
    pub open spec fn check_operands_safe(self, ops: Seq<Operand>) -> bool
        decreases ops.len(),
    {
        if ops.len() == 0 {
            true
        } else {
            let (w, r) = self.next_token();
            &&& self.next_token_safe()
            &&& match r {
                Ok(t) => accepts(ops[0], t.0) ==> ParserView {
                    stream: w.stream.push(t),
                    ..w
                }.check_operands_safe(ops.drop_first()),
                Err(_) => true,
            }
        }
    }

    /// The state after the rule check, and its result: the first token is
    /// kept, and the operands of its rule are checked.
    pub open spec fn ruler_check(self) -> (ParserView, Result<(), ParserError>) {
        let (w, r) = self.next_token();
        match r {
            Err(e) => (w, Err(e)),
            // the rule of any other first token is left open (see `ruler_check_safe`)
            Ok(t) => {
                let w2 = ParserView { stream: w.stream.push(t), ..w };
                match t.0 {
                    Token::Instruction(i) => match rule_of(i) {
                        Some(ops) => w2.check_operands(ops),
                        None => (w2, Ok(())),
                    },
                    _ => (w2, Ok(())),
                }
            }
        }
    }

    /// The rule check does not panic: reading does not, and the first
    /// token, when there is one, is an instruction whose rule is written
    /// down.
    pub open spec fn ruler_check_safe(self) -> bool {
        let (w, r) = self.next_token();
        &&& self.next_token_safe()
        &&& (r matches Ok(t) ==> match t.0 {
            Token::Instruction(i) => match rule_of(i) {
                Some(ops) => ParserView { stream: w.stream.push(t), ..w }.check_operands_safe(ops),
                None => false,
            },
            _ => false,
        })
    }
}

/// The tokens kept by the parser, seen through views.
pub open spec fn stream_view(s: Seq<(Token, String)>) -> Seq<(Token, Seq<char>)> {
    s.map_values(|p: (Token, String)| (p.0, p.1@))
}

/// An item result seen through views.
pub open spec fn item_view(r: Result<String, ParserError>) -> Result<Seq<char>, ParserError> {
    match r {
        Ok(s) => Ok(s@),
        Err(e) => Err(e),
    }
}

/// A token result seen through views.
pub open spec fn pair_view(r: Result<(Token, String), ParserError>) -> Result<(Token, Seq<char>), ParserError> {
    match r {
        Ok(p) => Ok((p.0, p.1@)),
        Err(e) => Err(e),
    }
}

/// Parser over a source text.
pub struct Parser {
    chars: Vec<char>,
    at: usize,
    stream: Vec<(Token, String)>,
    curr_pos: usize,
    curr_line: usize,
    curr_col: usize,
}

impl View for Parser {
    type V = ParserView;

    closed spec fn view(&self) -> ParserView {
        ParserView {
            input: self.chars@.skip(self.at as int),
            stream: stream_view(self.stream@),
            pos: self.curr_pos,
            line: self.curr_line,
            col: self.curr_col,
        }
    }
}

/// Exec form of [`is_register`].
fn register_token(t: Token) -> (b: bool)
    ensures
        b == is_register(t),
{
    match t {
        Token::Keyword(k) => k == Keyword::R0 || k == Keyword::R1 || k == Keyword::R2 || k
            == Keyword::R3 || k == Keyword::R4 || k == Keyword::R5 || k == Keyword::R6 || k
            == Keyword::R7,
        _ => false,
    }
}

/// Exec form of [`is_address`].
fn address_token(t: Token) -> (b: bool)
    ensures
        b == is_address(t),
{
    t == Token::Literal(Literal::DecNumber) || t == Token::Literal(Literal::BinNumber) || t
        == Token::Literal(Literal::HexNumber) || t == Token::Identifier
}

/// Exec form of [`accepts`].
fn operand_accepts(o: Operand, t: Token) -> (b: bool)
    ensures
        b == accepts(o, t),
{
    match o {
        Operand::Register => register_token(t),
        Operand::RegisterOrFlags => register_token(t) || t == Token::Keyword(Keyword::FR),
        Operand::Comma => t == Token::Punctuation(Punctuation::Comma),
        Operand::Pound => t == Token::Punctuation(Punctuation::Pound),
        Operand::Address => address_token(t),
        Operand::Value => address_token(t) || t == Token::Literal(Literal::Char),
    }
}

/// Exec form of [`rule_of`], for an instruction that has a rule.
fn operands_of(i: Instruction) -> (ops: Vec<Operand>)
    requires
        rule_of(i) is Some,
    ensures
        ops@ == rule_of(i)->0,
{
    let ops = match i {
        Instruction::LOAD => vec![Operand::Register, Operand::Comma, Operand::Address],
        Instruction::LOADN => vec![Operand::Register, Operand::Comma, Operand::Pound, Operand::Value],
        Instruction::STORE => vec![Operand::Address, Operand::Register],
        Instruction::STOREN => vec![Operand::Address, Operand::Value],
        _ => vec![Operand::Register, Operand::Register],
    };
    assert(ops@ =~= rule_of(i)->0);
    ops
}

impl Parser {
    /// The position is inside the text, whose UTF-8 bytes fit in a `usize`.
    pub closed spec fn wf(&self) -> bool {
        &&& self.at <= self.chars@.len()
        &&& byte_len(self.chars@) <= usize::MAX
    }

    /// Creates a parser over `input`, at line 0 and column 0, with no token kept.
    pub fn new(input: &str) -> (p: Self)
        ensures
            p.wf(),
            p@ == (ParserView { input: input@, stream: Seq::empty(), pos: 0, line: 0, col: 0 }),
    {
        let chars = chars_of(input);
        let bytes = input.as_bytes();
        let _n = bytes.len();
        proof {
            lemma_byte_len_encoded(input@);
        }
        let p = Parser { chars, at: 0, stream: Vec::new(), curr_pos: 0, curr_line: 0, curr_col: 0 };
        assert(p.chars@.skip(0) =~= input@);
        assert(stream_view(p.stream@) =~= Seq::<(Token, Seq<char>)>::empty());
        p
    }

    /// The text still to read.
    pub fn input(&self) -> (s: String)
        requires
            self.wf(),
        ensures
            s@ == self@.input,
    {
        let rest = slice_subrange(self.chars.as_slice(), self.at, self.chars.len());
        assert(rest@ =~= self.chars@.skip(self.at as int));
        string_of(rest)
    }

    /// Counts a line and resets the column.
    fn inc_line(&mut self)
        requires
            old(self).curr_line + 1 <= usize::MAX,
        ensures
            final(self).curr_line == old(self).curr_line + 1,
            final(self).curr_col == 0,
            final(self).chars == old(self).chars,
            final(self).at == old(self).at,
            final(self).stream == old(self).stream,
            final(self).curr_pos == old(self).curr_pos,
    {
        self.curr_line += 1;
        self.curr_col = 0;
    }

    /// The number of UTF-8 bytes of the characters from `from` to `to`.
    fn bytes_between(&self, from: usize, to: usize) -> (b: usize)
        requires
            self.wf(),
            from <= to <= self.chars@.len(),
        ensures
            b == byte_len(self.chars@.subrange(from as int, to as int)),
    {
        let mut total: usize = 0;
        let mut k = from;
        assert(self.chars@.subrange(from as int, from as int) =~= Seq::<char>::empty());
        while k < to
            invariant
                self.wf(),
                from <= k <= to <= self.chars@.len(),
                total == byte_len(self.chars@.subrange(from as int, k as int)),
            decreases to - k,
        {
            proof {
                let t = self.chars@.subrange(from as int, k + 1);
                assert(t.drop_last() =~= self.chars@.subrange(from as int, k as int));
                assert(t.last() == self.chars@[k as int]);
                lemma_subrange_bytes(self.chars@, from as nat, (k + 1) as nat);
            }
            total = total + len_utf8(self.chars[k]);
            k += 1;
        }
        total
    }

    /// Skips the rest of the line (see [`ParserView::skip_next_line`]).
    fn skip_next_line(&mut self)
        requires
            old(self).wf(),
            old(self)@.skip_next_line_safe(),
        ensures
            final(self).wf(),
            final(self)@ == old(self)@.skip_next_line(),
    {
        let ghost s = self@.input;
        let mut i = self.at;
        while i < self.chars.len()
            invariant
                self.at == old(self).at,
                self.chars == old(self).chars,
                self.stream == old(self).stream,
                self.curr_line == old(self).curr_line,
                self.curr_col == old(self).curr_col,
                self.curr_pos == old(self).curr_pos,
                old(self)@.skip_next_line_safe(),
                old(self).wf(),
                s == old(self)@.input,
                self.at <= i <= self.chars@.len(),
                s == self.chars@.skip(self.at as int),
                forall|j: int| self.at <= j < i ==> #[trigger] self.chars@[j] != '\n',
            decreases self.chars.len() - i,
        {
            if self.chars[i] == '\n' {
                proof {
                    assert forall|j: int| 0 <= j < i - self.at implies #[trigger] s[j] != '\n' by {
                        assert(s[j] == self.chars@[self.at + j]);
                    }
                    assert(s[i - self.at] == self.chars@[i as int]);
                    crate::lexer::lemma_first_newline(s, (i - self.at) as nat);
                }
                self.at = i + 1;
                self.inc_line();
                assert(self.chars@.skip(self.at as int) =~= s.skip(i - old(self).at + 1));
                return;
            }
            i += 1;
        }
        proof {
            assert forall|j: int| 0 <= j < s.len() implies #[trigger] s[j] != '\n' by {
                assert(s[j] == self.chars@[self.at + j]);
            }
            crate::lexer::lemma_no_newline(s);
        }
        self.at = self.chars.len();
        assert(self.chars@.skip(self.at as int) =~= Seq::<char>::empty());
    }

    /// Passes over the white space at the start of the text (see
    /// [`ParserView::consume_ws`]).
    pub fn consume_left_whitespaces(&mut self)
        requires
            old(self).wf(),
            old(self)@.consume_ws_safe(),
        ensures
            final(self).wf(),
            final(self)@ == old(self)@.consume_ws(),
    {
        if self.at < self.chars.len() && is_whitespace(self.chars[self.at]) {
            let ghost s = self@.input;
            let ghost line0 = self.curr_line;
            let ghost col0 = self.curr_col;
            assert(s[0] == self.chars@[self.at as int]);
            let start = self.at;
            let mut i = start;
            let mut stopped = false;
            while i < self.chars.len() && !stopped
                invariant
                    self.wf(),
                    self.chars == old(self).chars,
                    self.stream == old(self).stream,
                    self.curr_pos == old(self).curr_pos,
                    self.at == start,
                    start == old(self).at,
                    line0 == old(self).curr_line,
                    col0 == old(self).curr_col,
                    start <= i <= self.chars@.len(),
                    s == self.chars@.skip(start as int),
                    forall|j: int| start <= j < i ==> layout(#[trigger] self.chars@[j]),
                    stopped ==> i < self.chars@.len() && !layout(self.chars@[i as int]),
                    self.curr_line == line0 + newlines(s.take(i - start)),
                    self.curr_col == (if newlines(s.take(i - start)) > 0 { 0 } else { col0 as int }),
                    line0 + newlines(s.take(layout_len(s) as int)) <= usize::MAX,
                decreases self.chars.len() - i + (if stopped { 0int } else { 1int }),
            {
                let c = self.chars[i];
                assert(s[i - start] == c);
                proof {
                    assert(s.take(i + 1 - start).drop_last() =~= s.take(i - start));
                    assert(s.take(i + 1 - start).last() == c);
                }
                if c == ' ' || c == '\t' || c == '\r' {
                    i += 1;
                } else if c == '\n' {
                    proof {
                        assert forall|j: int| 0 <= j < i + 1 - start implies layout(#[trigger] s[j]) by {
                            assert(s[j] == self.chars@[start + j]);
                        }
                        lemma_layout_prefix(s, (i + 1 - start) as nat);
                        lemma_layout_len_bound(s);
                        lemma_newlines_mono(s, (i + 1 - start) as nat, layout_len(s));
                    }
                    self.inc_line();
                    i += 1;
                } else {
                    stopped = true;
                }
            }
            proof {
                assert forall|j: int| 0 <= j < i - start implies layout(#[trigger] s[j]) by {
                    assert(s[j] == self.chars@[start + j]);
                }
                if stopped {
                    assert(s[i - start] == self.chars@[i as int]);
                } else {
                    assert(i - start == s.len());
                    assert(s.take(i - start) =~= s);
                }
                lemma_layout_len(s, (i - start) as nat);
            }
            if stopped {
                let b = self.bytes_between(start, i);
                assert(self.chars@.subrange(start as int, i as int) =~= s.take(i - start));
                self.at = i;
                self.curr_col = b;
                assert(self.chars@.skip(i as int) =~= s.skip(i - start));
            }
        }
    }

    /// Passes over white space and commentaries (see
    /// [`ParserView::consume_commentary`]).
    pub fn consume_commentary(&mut self)
        requires
            old(self).wf(),
            old(self)@.consume_commentary_safe(),
        ensures
            final(self).wf(),
            final(self)@ == old(self)@.consume_commentary(),
    {
        self.consume_left_whitespaces();
        while self.at < self.chars.len() && self.chars[self.at] == ';'
            invariant
                self.wf(),
                self@.commentary_loop() == old(self)@.consume_commentary(),
                self@.commentary_loop_safe(),
            decreases self@.input.len(),
        {
            assert(self@.input[0] == self.chars@[self.at as int]);
            let ghost before = self@;
            self.skip_next_line();
            self.consume_left_whitespaces();
            proof {
                lemma_commentary_shrinks(before);
            }
        }
        proof {
            if self@.input.len() > 0 {
                assert(self@.input[0] == self.chars@[self.at as int]);
            }
        }
    }
}

impl Parser {
    /// The number of characters of the literal enclosed by `sep` that starts
    /// the text (see [`enclosed_len`]).
    fn enclosed_end(&self, sep: char) -> (k: usize)
        requires
            self.wf(),
            self.at < self.chars@.len(),
            self.chars@[self.at as int] == sep,
        ensures
            k == enclosed_len(self@.input, sep),
            k <= self@.input.len(),
    {
        let ghost s = self@.input;
        let len = self.chars.len();
        let mut i = self.at + 1;
        let mut escaped = false;
        while i < self.chars.len()
            invariant
                self.wf(),
                self.at < i <= self.chars@.len(),
                s == self.chars@.skip(self.at as int),
                closing_from(s, sep, 1, false) == closing_from(s, sep, (i - self.at) as nat, escaped),
            decreases self.chars.len() - i,
        {
            let c = self.chars[i];
            assert(s[i - self.at] == c);
            if c == '\\' {
                escaped = true;
            } else if c == sep {
                if escaped {
                    escaped = false;
                } else {
                    return i - self.at + 1;
                }
            } else {
                escaped = false;
            }
            i += 1;
        }
        self.chars.len() - self.at
    }

    /// The number of word characters that start the text (see [`word_len`]).
    fn word_end(&self) -> (k: usize)
        requires
            self.wf(),
        ensures
            k == word_len(self@.input),
            k <= self@.input.len(),
    {
        let ghost s = self@.input;
        let start = self.at;
        let mut i = start;
        while i < self.chars.len() && !is_whitespace(self.chars[i]) && (self.chars[i] == '_'
            || !is_ascii_punctuation(self.chars[i]))
            invariant
                self.wf(),
                start == self.at,
                start <= i <= self.chars@.len(),
                s == self.chars@.skip(start as int),
                forall|j: int| start <= j < i ==> word_char(#[trigger] self.chars@[j]),
            decreases self.chars.len() - i,
        {
            i += 1;
        }
        proof {
            assert forall|j: int| 0 <= j < i - start implies word_char(#[trigger] s[j]) by {
                assert(s[j] == self.chars@[start + j]);
            }
            if i < self.chars@.len() {
                assert(s[i - start] == self.chars@[i as int]);
            }
            lemma_word_len(s, (i - start) as nat);
        }
        i - start
    }

    /// Reads the next item (see [`ParserView::next_item`]).
    pub fn next_item(&mut self) -> (r: Result<String, ParserError>)
        requires
            old(self).wf(),
            old(self)@.next_item_safe(),
        ensures
            final(self).wf(),
            final(self)@ == old(self)@.next_item().0,
            item_view(r) == old(self)@.next_item().1,
    {
        self.consume_left_whitespaces();
        if self.at >= self.chars.len() {
            return Err(ParserError::Empty);
        }
        let ghost s = self@.input;
        let c = self.chars[self.at];
        assert(s[0] == c);
        let k: usize = if c == '\'' || c == '"' {
            self.enclosed_end(c)
        } else if is_alphanumeric(c) {
            self.word_end()
        } else {
            1
        };
        let item = slice_subrange(self.chars.as_slice(), self.at, self.at + k);
        assert(item@ =~= s.take(k as int));
        assert(self.chars@.skip(self.at + k) =~= s.skip(k as int));
        self.at = self.at + k;
        Ok(string_of(item))
    }

    /// Classifies an item that starts with a digit (see [`number_class`]).
    fn next_number(s: String) -> (r: Result<(Token, String), ParserError>)
        ensures
            pair_view(r) == number_class(s@),
    {
        let c = chars_of_string(&s);
        if parse_radix_chars(c.as_slice(), 10).is_some() {
            return Ok((Token::Literal(Literal::DecNumber), s));
        }
        if c.len() > 0 && c[0] == '0' && (c.len() >= 3 || (c.len() == 2 && len_utf8(c[1]) > 1)) {
            proof {
                lemma_long_number(c@);
            }
            let rest = slice_subrange(c.as_slice(), 2, c.len());
            assert(rest@ =~= s@.skip(2));
            if c[1] == 'b' || c[1] == 'B' {
                match parse_radix_chars(rest, 2) {
                    Some(_) => Ok((Token::Literal(Literal::BinNumber), string_of(rest))),
                    None => Err(ParserError::NumberBadFormat),
                }
            } else if c[1] == 'x' || c[1] == 'X' {
                match parse_radix_chars(rest, 16) {
                    Some(_) => Ok((Token::Literal(Literal::HexNumber), string_of(rest))),
                    None => Err(ParserError::NumberBadFormat),
                }
            } else {
                Err(ParserError::NumberBadFormat)
            }
        } else {
            proof {
                if c@.len() > 0 && c@[0] == '0' {
                    lemma_long_number(c@);
                }
            }
            Err(ParserError::NumberBadFormat)
        }
    }

    /// Classifies an item that starts with a letter (see [`word_class`]).
    fn next_word(s: String) -> (r: Result<(Token, String), ParserError>)
        ensures
            pair_view(r) == word_class(s@),
    {
        match Keyword::from_str(s.as_str()) {
            Some(k) => Ok((Token::Keyword(k), s)),
            None => match Instruction::from_str(s.as_str()) {
                Ok(i) => Ok((Token::Instruction(i), s)),
                Err(_) => Ok((Token::Identifier, s)),
            },
        }
    }

    /// Classifies any other item (see [`punctuation_class`]).
    fn next_punctuation(s: String) -> (r: Result<(Token, String), ParserError>)
        ensures
            pair_view(r) == punctuation_class(s@),
    {
        match Punctuation::from_str(s.as_str()) {
            Some(p) => Ok((Token::Punctuation(p), s)),
            None => Err(ParserError::InvalidCharacter),
        }
    }

    /// Reads and classifies the next item (see [`ParserView::next_token`]).
    pub fn next_token(&mut self) -> (r: Result<(Token, String), ParserError>)
        requires
            old(self).wf(),
            old(self)@.next_token_safe(),
        ensures
            final(self).wf(),
            final(self)@ == old(self)@.next_token().0,
            pair_view(r) == old(self)@.next_token().1,
    {
        match self.next_item() {
            Ok(w) => {
                let cs = chars_of_string(&w);
                let c = cs[0];
                if '0' <= c && c <= '9' {
                    Self::next_number(w)
                } else if is_alphabetic(c) {
                    Self::next_word(w)
                } else if c == '\'' {
                    Ok((Token::Literal(Literal::Char), w))
                } else if c == '"' {
                    let inner = slice_subrange(cs.as_slice(), 1, cs.len() - 1);
                    Ok((Token::Literal(Literal::String), string_of(inner)))
                } else {
                    Self::next_punctuation(w)
                }
            },
            Err(e) => Err(e),
        }
    }

    /// Reads the operands `ops` in turn (see [`ParserView::check_operands`]).
    fn check_operands(&mut self, ops: Vec<Operand>) -> (r: Result<(), ParserError>)
        requires
            old(self).wf(),
            old(self)@.check_operands_safe(ops@),
        ensures
            final(self).wf(),
            final(self)@ == old(self)@.check_operands(ops@).0,
            r == old(self)@.check_operands(ops@).1,
    {
        let mut idx: usize = 0;
        assert(ops@.skip(0) =~= ops@);
        while idx < ops.len()
            invariant
                self.wf(),
                idx <= ops@.len(),
                self@.check_operands(ops@.skip(idx as int)) == old(self)@.check_operands(ops@),
                self@.check_operands_safe(ops@.skip(idx as int)),
            decreases ops.len() - idx,
        {
            let ghost rest = ops@.skip(idx as int);
            assert(rest[0] == ops@[idx as int]);
            assert(rest.drop_first() =~= ops@.skip(idx + 1));
            let t = match self.next_token() {
                Ok(t) => t,
                Err(e) => {
                    return Err(e);
                },
            };
            if operand_accepts(ops[idx], t.0) {
                let ghost before = self.stream@;
                self.stream.push(t);
                assert(stream_view(self.stream@) =~= stream_view(before).push((t.0, t.1@)));
            } else {
                return Err(ParserError::InvalidRule);
            }
            idx += 1;
        }
        assert(ops@.skip(idx as int) =~= Seq::<Operand>::empty());
        Ok(())
    }

    /// Reads an instruction and checks its operands against its rule (see
    /// [`ParserView::ruler_check`]).
    pub fn ruler_check(&mut self) -> (r: Result<(), ParserError>)
        requires
            old(self).wf(),
            old(self)@.ruler_check_safe(),
        ensures
            final(self).wf(),
            final(self)@ == old(self)@.ruler_check().0,
            r == old(self)@.ruler_check().1,
    {
        let token = match self.next_token() {
            Ok(t) => t,
            Err(e) => {
                return Err(e);
            },
        };
        let kind = token.0;
        let ghost before = self.stream@;
        self.stream.push(token);
        assert(stream_view(self.stream@) =~= stream_view(before).push((kind, token.1@)));
        match kind {
            Token::Instruction(i) => {
                let ops = operands_of(i);
                self.check_operands(ops)
            },
            _ => Ok(()),
        }
    }
}

/// The operand rules, token by token: `LOAD Rx, END`, `LOADN Rx, #NR`,
/// `LOADI Rx Ry`, `STORE END Rx`, `STOREN END NR` and `STOREI Rx Ry`, where a
/// register is one of `R0` to `R7`, an address a binary, decimal or
/// hexadecimal number or an identifier, and a value an address or a
/// character literal. So the value of `STOREN` is whatever `LOADN` takes
/// after `#`, and the address of `STORE` whatever `LOAD` takes as its
/// address.
pub proof fn law_operand_rules(t: Token)
    ensures
        ({
            let reg = t matches Token::Keyword(k) && (k == Keyword::R0 || k == Keyword::R1 || k
                == Keyword::R2 || k == Keyword::R3 || k == Keyword::R4 || k == Keyword::R5 || k
                == Keyword::R6 || k == Keyword::R7);
            let addr = t == Token::Literal(Literal::DecNumber) || t == Token::Literal(
                Literal::BinNumber,
            ) || t == Token::Literal(Literal::HexNumber) || t == Token::Identifier;
            let value = addr || t == Token::Literal(Literal::Char);
            let comma = t == Token::Punctuation(Punctuation::Comma);
            let pound = t == Token::Punctuation(Punctuation::Pound);
            let load = rule_of(Instruction::LOAD)->0;
            let loadn = rule_of(Instruction::LOADN)->0;
            let loadi = rule_of(Instruction::LOADI)->0;
            let store = rule_of(Instruction::STORE)->0;
            let storen = rule_of(Instruction::STOREN)->0;
            let storei = rule_of(Instruction::STOREI)->0;
            &&& load.len() == 3 && (accepts(load[0], t) == reg) && (accepts(load[1], t) == comma)
                && (accepts(load[2], t) == addr)
            &&& loadn.len() == 4 && (accepts(loadn[0], t) == reg) && (accepts(loadn[1], t)
                == comma) && (accepts(loadn[2], t) == pound) && (accepts(loadn[3], t) == value)
            &&& loadi.len() == 2 && (accepts(loadi[0], t) == reg) && (accepts(loadi[1], t) == reg)
            &&& store.len() == 2 && (accepts(store[0], t) == addr) && (accepts(store[1], t) == reg)
            &&& storen.len() == 2 && (accepts(storen[0], t) == addr) && (accepts(storen[1], t)
                == value)
            &&& storei.len() == 2 && (accepts(storei[0], t) == reg) && (accepts(storei[1], t)
                == reg)
            &&& accepts(storen[1], t) == accepts(loadn[3], t)
            &&& accepts(store[0], t) == accepts(load[2], t)
            &&& accepts(storen[1], Token::Literal(Literal::Char))
        }),
{
}

/// A successful operand check keeps one token per operand, each accepted
/// by its operand.
proof fn lemma_check_operands_keeps(v: ParserView, ops: Seq<Operand>)
    requires
        v.check_operands(ops).1 is Ok,
    ensures
        v.check_operands(ops).0.stream.len() == v.stream.len() + ops.len(),
        v.check_operands(ops).0.stream.take(v.stream.len() as int) == v.stream,
        forall|k: int| 0 <= k < ops.len() ==> accepts(
            #[trigger] ops[k],
            v.check_operands(ops).0.stream[v.stream.len() + k].0,
        ),
    decreases ops.len(),
{
    if ops.len() > 0 {
        let (w, r) = v.next_token();
        let t = r->Ok_0;
        let w2 = ParserView { stream: w.stream.push(t), ..w };
        let rest = ops.drop_first();
        lemma_check_operands_keeps(w2, rest);
        let fin = v.check_operands(ops).0;
        assert(fin == w2.check_operands(rest).0);
        assert(w.stream == v.stream) by {
            lemma_next_token_keeps_stream(v);
        }
        assert(fin.stream.take(w2.stream.len() as int) == w2.stream);
        assert(fin.stream[v.stream.len() as int] == w2.stream[v.stream.len() as int]);
        assert forall|k: int| 0 <= k < ops.len() implies accepts(
            #[trigger] ops[k],
            fin.stream[v.stream.len() + k].0,
        ) by {
            if k > 0 {
                assert(rest[k - 1] == ops[k]);
                assert(accepts(rest[k - 1], fin.stream[w2.stream.len() + (k - 1)].0));
            }
        }
        assert(fin.stream.take(v.stream.len() as int) =~= v.stream);
    }
}

/// Reading a token leaves the kept tokens as they are.
proof fn lemma_next_token_keeps_stream(v: ParserView)
    ensures
        v.next_token().0.stream == v.stream,
{
}

/// A successful rule check keeps the instruction read and, after it, one
/// token per operand of its rule, each of the kind that the rule asks for.
pub proof fn law_ruler_check_keeps_rule(v: ParserView)
    requires
        v.ruler_check().1 is Ok,
        v.next_token().1 matches Ok(t) && t.0 matches Token::Instruction(i) && rule_of(i) is Some,
    ensures
        ({
            let fin = v.ruler_check().0;
            let t = v.next_token().1->Ok_0;
            let ops = match t.0 {
                Token::Instruction(i) => rule_of(i)->0,
                _ => Seq::empty(),
            };
            &&& fin.stream.len() == v.stream.len() + 1 + ops.len()
            &&& fin.stream.take(v.stream.len() as int) == v.stream
            &&& fin.stream[v.stream.len() as int] == t
            &&& forall|k: int| 0 <= k < ops.len() ==> accepts(
                #[trigger] ops[k],
                fin.stream[v.stream.len() + 1 + k].0,
            )
        }),
{
    let (w, r) = v.next_token();
    let t = r->Ok_0;
    let w2 = ParserView { stream: w.stream.push(t), ..w };
    lemma_next_token_keeps_stream(v);
    match t.0 {
        Token::Instruction(i) => {
            let ops = rule_of(i)->0;
            lemma_check_operands_keeps(w2, ops);
            let fin = w2.check_operands(ops).0;
            assert(fin.stream.take(w2.stream.len() as int) == w2.stream);
            assert(fin.stream[v.stream.len() as int] == w2.stream[v.stream.len() as int]);
            assert(fin.stream.take(v.stream.len() as int) =~= v.stream);
        },
        _ => {},
    }
}

/// The word characters lead for `k` characters when the first `k` are word
/// characters and the next is not (or there is none).
proof fn lemma_word_len(s: Seq<char>, k: nat)
    requires
        k <= s.len(),
        forall|j: int| 0 <= j < k ==> word_char(#[trigger] s[j]),
        k == s.len() || !word_char(s[k as int]),
    ensures
        word_len(s) == k,
    decreases k,
{
    if k > 0 {
        let t = s.skip(1);
        assert forall|j: int| 0 <= j < k - 1 implies word_char(#[trigger] t[j]) by {
            assert(t[j] == s[j + 1]);
        }
        if k < s.len() {
            assert(t[k - 1] == s[k as int]);
        }
        lemma_word_len(t, (k - 1) as nat);
    }
}

/// A text that starts with `0` has more than two bytes exactly when it has
/// three characters or more, or two of which the second takes more than a
/// byte.
proof fn lemma_long_number(s: Seq<char>)
    requires
        s.len() > 0,
        s[0] == '0',
    ensures
        byte_len(s) > 2 <==> (s.len() >= 3 || (s.len() == 2 && utf8_len(s[1]) > 1)),
{
    lemma_byte_len_split(s, 1);
    crate::text::lemma_byte_len_single(s[0]);
    assert(s.take(1) =~= seq![s[0]]);
    let t = s.skip(1);
    if t.len() >= 2 {
        lemma_byte_len_split(t, 1);
        crate::text::lemma_byte_len_single(t[0]);
        assert(t.take(1) =~= seq![t[0]]);
        lemma_byte_len_at_least(t.skip(1));
    } else if t.len() == 1 {
        crate::text::lemma_byte_len_single(t[0]);
        assert(t =~= seq![t[0]]);
    } else {
        assert(byte_len(t) == 0);
    }
}

/// Each character takes at least one byte.
proof fn lemma_byte_len_at_least(s: Seq<char>)
    ensures
        byte_len(s) >= s.len(),
    decreases s.len(),
{
    if s.len() > 0 {
        lemma_byte_len_at_least(s.drop_last());
    }
}

/// The layout characters lead for `k` characters when the first `k` are
/// layout and the next is not (or there is none).
proof fn lemma_layout_len(s: Seq<char>, k: nat)
    requires
        k <= s.len(),
        forall|j: int| 0 <= j < k ==> layout(#[trigger] s[j]),
        k == s.len() || !layout(s[k as int]),
    ensures
        layout_len(s) == k,
    decreases k,
{
    if k > 0 {
        let t = s.skip(1);
        assert forall|j: int| 0 <= j < k - 1 implies layout(#[trigger] t[j]) by {
            assert(t[j] == s[j + 1]);
        }
        if k < s.len() {
            assert(t[k - 1] == s[k as int]);
        }
        lemma_layout_len(t, (k - 1) as nat);
    }
}

/// At least `k` layout characters lead when the first `k` are layout.
proof fn lemma_layout_prefix(s: Seq<char>, k: nat)
    requires
        k <= s.len(),
        forall|j: int| 0 <= j < k ==> layout(#[trigger] s[j]),
    ensures
        layout_len(s) >= k,
    decreases k,
{
    if k > 0 {
        let t = s.skip(1);
        assert forall|j: int| 0 <= j < k - 1 implies layout(#[trigger] t[j]) by {
            assert(t[j] == s[j + 1]);
        }
        lemma_layout_prefix(t, (k - 1) as nat);
    }
}

/// No more layout characters lead than there are characters.
proof fn lemma_layout_len_bound(s: Seq<char>)
    ensures
        layout_len(s) <= s.len(),
    decreases s.len(),
{
    if s.len() > 0 {
        lemma_layout_len_bound(s.skip(1));
    }
}

/// A longer prefix holds at least as many line breaks.
proof fn lemma_newlines_mono(s: Seq<char>, a: nat, b: nat)
    requires
        a <= b <= s.len(),
    ensures
        newlines(s.take(a as int)) <= newlines(s.take(b as int)),
    decreases b - a,
{
    if a < b {
        assert(s.take(b as int).drop_last() =~= s.take(b - 1));
        lemma_newlines_mono(s, a, (b - 1) as nat);
    }
}

/// The bytes of a stretch of a text are at most the bytes of the text.
proof fn lemma_subrange_bytes(s: Seq<char>, a: nat, b: nat)
    requires
        a <= b <= s.len(),
    ensures
        byte_len(s.subrange(a as int, b as int)) <= byte_len(s),
{
    lemma_byte_len_split(s, a);
    lemma_byte_len_split(s.skip(a as int), (b - a) as nat);
    assert(s.skip(a as int).take(b - a) =~= s.subrange(a as int, b as int));
}

/// A commentary step strictly shortens the text.
proof fn lemma_commentary_shrinks(v: ParserView)
    requires
        v.input.len() > 0,
        v.input[0] == ';',
    ensures
        v.skip_next_line().consume_ws().input.len() < v.input.len(),
{
    crate::lexer::lemma_first_newline_bound(v.input);
}

} // verus!
