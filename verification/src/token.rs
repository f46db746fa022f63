//! Tokens of the assembly language and how a piece of text is classified
//! into one.
use vstd::prelude::*;
use vstd::slice::slice_subrange;

use crate::isa::{law_name_round_trip, lookup_name, Instruction};
use crate::number::{parse_radix, parse_radix_chars};
use crate::text::{
    ascii_digit, ascii_hexdigit, byte_len, chars_eq_ignore_case, chars_of, decimal, decimal_chars,
    eq_ignore_case, is_alphabetic, is_numeric, string_of, unicode_alphabetic, unicode_numeric,
    utf8_len,
};

verus! {

/// Errors in classifying a piece of text as a token; each carries the text.
#[derive(Debug, PartialEq)]
pub enum TokenError {
    /// A string literal with a bad escape or without quotes.
    StringBadFormat(String),
    /// A character literal of bad shape.
    CharBadFormat(String),
    /// A number in no valid format.
    NumberBadFormat(String),
    /// An unknown punctuation sign.
    InvalidPunctuation(String),
    /// Anything else (including the empty text).
    Invalid(String),
}

/// [`TokenError`] with its text seen as a character sequence.
pub enum TokenErrorView {
    StringBadFormat(Seq<char>),
    CharBadFormat(Seq<char>),
    NumberBadFormat(Seq<char>),
    InvalidPunctuation(Seq<char>),
    Invalid(Seq<char>),
}

impl View for TokenError {
    type V = TokenErrorView;

    open spec fn view(&self) -> TokenErrorView {
        match self {
            TokenError::StringBadFormat(s) => TokenErrorView::StringBadFormat(s@),
            TokenError::CharBadFormat(s) => TokenErrorView::CharBadFormat(s@),
            TokenError::NumberBadFormat(s) => TokenErrorView::NumberBadFormat(s@),
            TokenError::InvalidPunctuation(s) => TokenErrorView::InvalidPunctuation(s@),
            TokenError::Invalid(s) => TokenErrorView::Invalid(s@),
        }
    }
}

impl TokenErrorView {
    /// The message of the error.
    pub open spec fn message(self) -> Seq<char> {
        match self {
            TokenErrorView::StringBadFormat(s) => "A string \""@ + s + "\" está mal formatada."@,
            TokenErrorView::CharBadFormat(s) => "O char \""@ + s + "\" está mal formatado."@,
            TokenErrorView::NumberBadFormat(s) => "O número \""@ + s
                + "\" não está em um formato válido."@,
            TokenErrorView::InvalidPunctuation(s) => "Pontuação \""@ + s + "\" inválida."@,
            TokenErrorView::Invalid(s) => "Token inválido: "@ + s,
        }
    }
}

/// `before`, then `s`, then `after`.
fn surround(before: &str, s: &String, after: &str) -> (r: String)
    ensures
        r@ == before@ + s@ + after@,
{
    let mut r = String::from_str(before);
    r.append(s.as_str());
    r.append(after);
    r
}

impl TokenError {
    /// The message of the error, as it is displayed.
    pub fn to_string(&self) -> (s: String)
        ensures
            s@ == self@.message(),
    {
        match self {
            TokenError::StringBadFormat(s) => surround("A string \"", s, "\" está mal formatada."),
            TokenError::CharBadFormat(s) => surround("O char \"", s, "\" está mal formatado."),
            TokenError::NumberBadFormat(s) => surround(
                "O número \"",
                s,
                "\" não está em um formato válido.",
            ),
            TokenError::InvalidPunctuation(s) => surround("Pontuação \"", s, "\" inválida."),
            TokenError::Invalid(s) => {
                let r = surround("Token inválido: ", s, "");
                proof {
                    reveal_strlit("");
                }
                assert(r@ =~= "Token inválido: "@ + s@);
                r
            },
        }
    }
}

/// Something with a kind of token.
pub trait TokenType: Sized {
    /// Whether `self` and `other` have the same type.
    fn same_type(&self, other: Self) -> (b: bool)
        ensures
            b,
    ;
}

/// A token of the assembly language.
#[derive(Debug, Clone, PartialEq)]
pub enum Token {
    Instruction(Instruction),
    Identifier(String),
    Number(usize),
    LiteralChar(char),
    LiteralStr(String),
    String,
    Static,
    Var,
    R0,
    R1,
    R2,
    R3,
    R4,
    R5,
    R6,
    R7,
    SP,
    FR,
    Pound,
    Comma,
    Colon,
    Plus,
}

/// [`Token`] with its texts seen as character sequences.
pub enum TokenView {
    Instruction(Instruction),
    Identifier(Seq<char>),
    Number(usize),
    LiteralChar(char),
    LiteralStr(Seq<char>),
    String,
    Static,
    Var,
    R0,
    R1,
    R2,
    R3,
    R4,
    R5,
    R6,
    R7,
    SP,
    FR,
    Pound,
    Comma,
    Colon,
    Plus,
}

impl View for Token {
    type V = TokenView;

    open spec fn view(&self) -> TokenView {
        match self {
            Token::Instruction(i) => TokenView::Instruction(*i),
            Token::Identifier(s) => TokenView::Identifier(s@),
            Token::Number(n) => TokenView::Number(*n),
            Token::LiteralChar(c) => TokenView::LiteralChar(*c),
            Token::LiteralStr(s) => TokenView::LiteralStr(s@),
            Token::String => TokenView::String,
            Token::Static => TokenView::Static,
            Token::Var => TokenView::Var,
            Token::R0 => TokenView::R0,
            Token::R1 => TokenView::R1,
            Token::R2 => TokenView::R2,
            Token::R3 => TokenView::R3,
            Token::R4 => TokenView::R4,
            Token::R5 => TokenView::R5,
            Token::R6 => TokenView::R6,
            Token::R7 => TokenView::R7,
            Token::SP => TokenView::SP,
            Token::FR => TokenView::FR,
            Token::Pound => TokenView::Pound,
            Token::Comma => TokenView::Comma,
            Token::Colon => TokenView::Colon,
            Token::Plus => TokenView::Plus,
        }
    }
}

impl TokenType for Token {
    fn same_type(&self, other: Self) -> (b: bool) {
        true
    }
}

/// The result of classifying a text, seen through views.
pub type TokenResult = Result<TokenView, TokenErrorView>;

/// `r` seen through views.
pub open spec fn token_result(r: Result<Token, TokenError>) -> TokenResult {
    match r {
        Ok(t) => Ok(t@),
        Err(e) => Err(e@),
    }
}

/// A word that is the name of an instruction is that instruction: reading
/// back the text of an instruction token gives the token.
pub proof fn law_word_of_instruction_name(i: Instruction)
    ensures
        word_spec(i.name_spec()) == Ok::<TokenView, TokenErrorView>(TokenView::Instruction(i)),
{
    law_name_round_trip(i);
}


/// A character literal with an escape, `'\\c'`, stands for the character
/// that the escape `\\c` means in Rust: `n` a line feed, `r` a carriage
/// return, `t` a tab, a backslash or a quote themselves; any other escape
/// is a bad character literal. The escapes of string literals mean the same
/// characters.
pub proof fn law_char_escapes(c: char)
    ensures
        char_spec(seq!['\'', '\\', c, '\'']) == (if c == 'n' {
            Ok::<TokenView, TokenErrorView>(TokenView::LiteralChar('\u{a}'))
        } else if c == 'r' {
            Ok(TokenView::LiteralChar('\u{d}'))
        } else if c == 't' {
            Ok(TokenView::LiteralChar('\u{9}'))
        } else if c == '\\' {
            Ok(TokenView::LiteralChar('\u{5c}'))
        } else if c == '\'' {
            Ok(TokenView::LiteralChar('\u{27}'))
        } else {
            Err(TokenErrorView::CharBadFormat(seq!['\'', '\\', c, '\'']))
        }),
        (c == 'n' || c == 'r' || c == 't' || c == '\\' || c == '\'') ==> string_escape(c)
            == char_escape(c),
{
    let s = seq!['\'', '\\', c, '\''];
    let inner = s.subrange(1, s.len() - 1);
    assert(inner =~= seq!['\\', c]);
    assert(inner.drop_last() =~= seq!['\\']);
    assert(seq!['\\'].drop_last() =~= Seq::<char>::empty());
    assert(byte_len(Seq::<char>::empty()) == 0);
    assert(byte_len(seq!['\\']) == 1);
    assert(inner.last() == c);
    assert(byte_len(inner) == 1 + utf8_len(c));
    assert(s.last() == '\'' && s[0] == '\'' && s.len() == 4);
    assert(inner[0] == '\\' && inner[1] == c && inner.len() == 2);
}

/// The signs that are tokens on their own: `+`, `#`, `,` and `:`.
pub open spec fn punctuation_char(c: char) -> bool {
    c == '+' || c == '#' || c == ',' || c == ':'
}

/// Exec form of [`punctuation_char`].
pub fn is_punctuation(c: char) -> (b: bool)
    ensures
        b == punctuation_char(c),
{
    c == '+' || c == '#' || c == ',' || c == ':'
}

/// The text of a token, as it is displayed.
pub open spec fn token_text(t: TokenView) -> Seq<char> {
    match t {
        TokenView::Instruction(i) => i.name_spec(),
        TokenView::Identifier(id) => id,
        TokenView::Number(n) => decimal(n as nat),
        TokenView::LiteralChar(c) => seq!['\'', c, '\''],
        TokenView::LiteralStr(s) => seq!['"'] + s + seq!['"'],
        TokenView::String => "string"@,
        TokenView::Static => "static"@,
        TokenView::Var => "var"@,
        TokenView::R0 => "R0"@,
        TokenView::R1 => "R1"@,
        TokenView::R2 => "R2"@,
        TokenView::R3 => "R3"@,
        TokenView::R4 => "R4"@,
        TokenView::R5 => "R5"@,
        TokenView::R6 => "R6"@,
        TokenView::R7 => "R7"@,
        TokenView::SP => "SP"@,
        TokenView::FR => "FR"@,
        TokenView::Pound => "#"@,
        TokenView::Comma => ","@,
        TokenView::Colon => ":"@,
        TokenView::Plus => "+"@,
    }
}

// ---------------------------------------------------------------- specifications

/// A word: an instruction name, one of the keywords `string`, `var` and
/// `static` (ASCII case ignored), or else an identifier.
pub open spec fn word_spec(s: Seq<char>) -> TokenResult {
    if s.len() == 0 {
        Err(TokenErrorView::Invalid("Tamanho nulo."@))
    } else {
        match lookup_name(s) {
            Some(i) => Ok(TokenView::Instruction(i)),
            None => if eq_ignore_case(s, "string"@) {
                Ok(TokenView::String)
            } else if eq_ignore_case(s, "var"@) {
                Ok(TokenView::Var)
            } else if eq_ignore_case(s, "static"@) {
                Ok(TokenView::Static)
            } else {
                Ok(TokenView::Identifier(s))
            },
        }
    }
}

/// The characters that the third number pattern accepts after `0b`: the
/// class `[[0-1]{1,16}$]` holds `0`, `1`, `{`, `,`, `6`, `}` and `$`.
pub open spec fn binary_class(c: char) -> bool {
    c == '0' || c == '1' || c == '{' || c == ',' || c == '6' || c == '}' || c == '$'
}

/// The text matches one of the number patterns `^[[:digit:]]{1,6}$`,
/// `^0[xX][[:xdigit:]]{1,4}$` and `^0[bB][[0-1]{1,16}$]` (the last one has
/// no end anchor and reads one character of a class after `0b`).
pub open spec fn number_syntax(s: Seq<char>) -> bool {
    ||| 1 <= s.len() <= 6 && forall|k: int| 0 <= k < s.len() ==> ascii_digit(#[trigger] s[k])
    ||| 3 <= s.len() <= 6 && s[0] == '0' && (s[1] == 'x' || s[1] == 'X') && forall|k: int|
        2 <= k < s.len() ==> ascii_hexdigit(#[trigger] s[k])
    ||| 3 <= s.len() && s[0] == '0' && (s[1] == 'b' || s[1] == 'B') && binary_class(s[2])
}

/// A number: text of number syntax read in decimal, else (after its first
/// two characters) in binary, else in hexadecimal.
pub open spec fn number_spec(s: Seq<char>) -> TokenResult {
    if number_syntax(s) {
        match parse_radix(s, 10) {
            Some(n) => Ok(TokenView::Number(n)),
            None => match parse_radix(s.skip(2), 2) {
                Some(n) => Ok(TokenView::Number(n)),
                None => match parse_radix(s.skip(2), 16) {
                    Some(n) => Ok(TokenView::Number(n)),
                    None => Err(TokenErrorView::NumberBadFormat(s)),
                },
            },
        }
    } else {
        Err(TokenErrorView::NumberBadFormat(s))
    }
}

/// The character that the escape `\c` stands for in a string literal.
pub open spec fn string_escape(c: char) -> Option<char> {
    if c == 'r' {
        Some('\r')
    } else if c == 'n' {
        Some('\n')
    } else if c == 't' {
        Some('\t')
    } else if c == '\'' {
        Some('\'')
    } else if c == '"' {
        Some('"')
    } else if c == '\\' {
        Some('\\')
    } else {
        None
    }
}

/// `prefix` followed by the text in `r`, if any.
pub open spec fn prepend(prefix: Seq<char>, r: Option<Seq<char>>) -> Option<Seq<char>> {
    match r {
        Some(t) => Some(prefix + t),
        None => None,
    }
}

/// The text `t` with its escapes replaced, or `None` for an unknown escape
/// or a trailing backslash.
pub open spec fn unescape(t: Seq<char>) -> Option<Seq<char>>
    decreases t.len(),
{
    if t.len() == 0 {
        Some(Seq::empty())
    } else if t[0] == '\\' {
        if t.len() == 1 {
            None
        } else {
            match string_escape(t[1]) {
                Some(c) => prepend(seq![c], unescape(t.skip(2))),
                None => None,
            }
        }
    } else {
        prepend(seq![t[0]], unescape(t.skip(1)))
    }
}

/// A string literal: text between double quotes, with escapes.
pub open spec fn string_spec(s: Seq<char>) -> TokenResult {
    if s.len() >= 2 && s[0] == '"' && s.last() == '"' {
        match unescape(s.subrange(1, s.len() - 1)) {
            Some(t) => Ok(TokenView::LiteralStr(t)),
            None => Err(TokenErrorView::StringBadFormat(s)),
        }
    } else {
        Err(TokenErrorView::StringBadFormat(s))
    }
}

/// The character that the escape `\c` stands for in a character literal.
pub open spec fn char_escape(c: char) -> Option<char> {
    if c == '\'' {
        Some('\'')
    } else if c == 'n' {
        Some('\n')
    } else if c == 'r' {
        Some('\r')
    } else if c == 't' {
        Some('\t')
    } else if c == '\\' {
        Some('\\')
    } else {
        None
    }
}

/// A character literal: text between single quotes whose inside takes one
/// or two bytes; its first character, or the escape it starts.
pub open spec fn char_spec(s: Seq<char>) -> TokenResult {
    if s.len() >= 2 && s[0] == '\'' && s.last() == '\'' {
        let c = s.subrange(1, s.len() - 1);
        if 1 <= byte_len(c) <= 2 {
            if c[0] == '\\' {
                if c.len() >= 2 {
                    match char_escape(c[1]) {
                        Some(e) => Ok(TokenView::LiteralChar(e)),
                        None => Err(TokenErrorView::CharBadFormat(s)),
                    }
                } else {
                    Err(TokenErrorView::CharBadFormat(s))
                }
            } else {
                Ok(TokenView::LiteralChar(c[0]))
            }
        } else {
            Err(TokenErrorView::CharBadFormat(s))
        }
    } else {
        Err(TokenErrorView::CharBadFormat(s))
    }
}

/// A punctuation sign: exactly one of `,`, `:`, `+` and `#`.
pub open spec fn punctuation_spec(s: Seq<char>) -> TokenResult {
    if s == seq![','] {
        Ok(TokenView::Comma)
    } else if s == seq![':'] {
        Ok(TokenView::Colon)
    } else if s == seq!['+'] {
        Ok(TokenView::Plus)
    } else if s == seq!['#'] {
        Ok(TokenView::Pound)
    } else {
        Err(TokenErrorView::InvalidPunctuation(s))
    }
}

/// The token a text is, chosen by its first character: alphabetic (a
/// word), numeric (a number), `"` (a string), `'` (a character) or a
/// punctuation sign.
pub open spec fn token_spec(s: Seq<char>) -> TokenResult {
    if s.len() == 0 {
        Err(TokenErrorView::Invalid("Tamanho nulo."@))
    } else if unicode_alphabetic(s[0]) {
        word_spec(s)
    } else if unicode_numeric(s[0]) {
        number_spec(s)
    } else if s[0] == '"' {
        string_spec(s)
    } else if s[0] == '\'' {
        char_spec(s)
    } else if punctuation_char(s[0]) {
        punctuation_spec(s)
    } else {
        Err(TokenErrorView::Invalid(s))
    }
}

/// The texts that classification cannot handle: a lone double quote or a
/// lone single quote (there is nothing inside the quotes to take).
pub open spec fn token_panics(s: Seq<char>) -> bool {
    s == seq!['"'] || s == seq!['\'']
}

/// The regular expressions of the number syntax.
pub open spec fn number_patterns() -> Seq<Seq<char>> {
    seq![r"^[[:digit:]]{1,6}$"@, r"^0[xX][[:xdigit:]]{1,4}$"@, r"^0[bB][[0-1]{1,16}$]"@]
}

/// The regular expressions of an address in the search field of the
/// memory view.
pub open spec fn address_patterns() -> Seq<Seq<char>> {
    seq![r"^[[:digit:]]{1,6}$"@, r"^0[xX][[:xdigit:]]{1,4}$"@]
}

/// An address as the search field takes it: one to six decimal digits, or
/// `0x` (or `0X`) and one to four hexadecimal digits.
pub open spec fn address_syntax(s: Seq<char>) -> bool {
    ||| 1 <= s.len() <= 6 && forall|k: int| 0 <= k < s.len() ==> ascii_digit(#[trigger] s[k])
    ||| 3 <= s.len() <= 6 && s[0] == '0' && (s[1] == 'x' || s[1] == 'X') && forall|k: int|
        2 <= k < s.len() ==> ascii_hexdigit(#[trigger] s[k])
}

/// The texts of `patterns`.
pub open spec fn pattern_texts(patterns: Seq<&str>) -> Seq<Seq<char>> {
    patterns.map_values(|p: &str| p@)
}

/// `regex::RegexSet::new(patterns)` followed by `is_match(s)`: whether `s`
/// matches one of `patterns`. It is called with two pattern sets only, both
/// valid (so the set is built without error); for them the contract says
/// what they match, as the `regex` documentation defines the syntax: `^`
/// and `$` anchor at the ends, `[[:digit:]]` and `[[:xdigit:]]` are the
/// ASCII classes, `{m,n}` repeats, and `[[0-1]{1,16}$]` is one class of the
/// characters `0`, `1`, `{`, `,`, `6`, `}` and `$`.
#[verifier::external_body]
pub(crate) fn regex_set_matches(patterns: &[&str], s: &str) -> (b: bool)
    requires
        pattern_texts(patterns@) == number_patterns() || pattern_texts(patterns@)
            == address_patterns(),
    ensures
        pattern_texts(patterns@) == number_patterns() ==> b == number_syntax(s@),
        pattern_texts(patterns@) == address_patterns() ==> b == address_syntax(s@),
{
    regex::RegexSet::new(patterns).unwrap().is_match(s)
}

/// At most six decimal digits always have a value that fits.
proof fn lemma_short_decimal(d: Seq<char>)
    requires
        d.len() <= 6,
        forall|k: int| 0 <= k < d.len() ==> ascii_digit(#[trigger] d[k]),
    ensures
        digits_value_bound(d),
    decreases d.len(),
{
    if d.len() > 0 {
        let p = d.drop_last();
        assert forall|k: int| 0 <= k < p.len() implies ascii_digit(#[trigger] p[k]) by {
            assert(p[k] == d[k]);
        }
        lemma_short_decimal(p);
        let pv = crate::number::digits_value(p, 10)->0;
        assert(pv < pow10(p.len()));
        assert(pv * 10 + 9 < pow10(p.len()) * 10) by (nonlinear_arith)
            requires
                pv < pow10(p.len()),
        ;
    }
}

/// `10` to the power `n`.
pub open spec fn pow10(n: nat) -> nat
    decreases n,
{
    if n == 0 {
        1
    } else {
        10 * pow10((n - 1) as nat)
    }
}

/// The decimal value of `d` exists and is below `10` to the length of `d`.
pub open spec fn digits_value_bound(d: Seq<char>) -> bool {
    &&& crate::number::digits_value(d, 10) is Some
    &&& crate::number::digits_value(d, 10)->0 < pow10(d.len())
}

/// A text of up to six decimal digits reads as a decimal number.
pub proof fn lemma_decimal_syntax_parses(s: Seq<char>)
    requires
        1 <= s.len() <= 6,
        forall|k: int| 0 <= k < s.len() ==> ascii_digit(#[trigger] s[k]),
    ensures
        parse_radix(s, 10) is Some,
{
    lemma_short_decimal(s);
    reveal_with_fuel(pow10, 7);
    assert(pow10(s.len()) <= 1000000);
}

impl Token {
    /// Classifies a word (see [`word_spec`]).
    pub fn word(s: &str) -> (r: Result<Self, TokenError>)
        ensures
            token_result(r) == word_spec(s@),
    {
        let c = chars_of(s);
        if c.len() == 0 {
            return Err(TokenError::Invalid(String::from_str("Tamanho nulo.")));
        }
        match Instruction::from_str(s) {
            Ok(inst) => Ok(Token::Instruction(inst)),
            Err(_) => {
                let kw_string = chars_of("string");
                let kw_var = chars_of("var");
                let kw_static = chars_of("static");
                if chars_eq_ignore_case(c.as_slice(), kw_string.as_slice()) {
                    Ok(Token::String)
                } else if chars_eq_ignore_case(c.as_slice(), kw_var.as_slice()) {
                    Ok(Token::Var)
                } else if chars_eq_ignore_case(c.as_slice(), kw_static.as_slice()) {
                    Ok(Token::Static)
                } else {
                    Ok(Token::Identifier(string_of(c.as_slice())))
                }
            },
        }
    }

    /// Classifies a number (see [`number_spec`]).
    pub fn number(s: &str) -> (r: Result<Self, TokenError>)
        ensures
            token_result(r) == number_spec(s@),
    {
        let c = chars_of(s);
        let patterns: [&str; 3] = [
            r"^[[:digit:]]{1,6}$",
            r"^0[xX][[:xdigit:]]{1,4}$",
            r"^0[bB][[0-1]{1,16}$]",
        ];
        assert(pattern_texts(patterns@) =~= number_patterns());
        if regex_set_matches(&patterns, s) {
            match parse_radix_chars(c.as_slice(), 10) {
                Some(n) => Ok(Token::Number(n)),
                None => {
                    proof {
                        if 1 <= c@.len() <= 6 && forall|k: int|
                            0 <= k < c@.len() ==> ascii_digit(#[trigger] c@[k]) {
                            lemma_decimal_syntax_parses(c@);
                        }
                    }
                    let rest = slice_subrange(c.as_slice(), 2, c.len());
                    assert(rest@ =~= s@.skip(2));
                    match parse_radix_chars(rest, 2) {
                        Some(n) => Ok(Token::Number(n)),
                        None => match parse_radix_chars(rest, 16) {
                            Some(n) => Ok(Token::Number(n)),
                            None => Err(TokenError::NumberBadFormat(string_of(c.as_slice()))),
                        },
                    }
                },
            }
        } else {
            Err(TokenError::NumberBadFormat(string_of(c.as_slice())))
        }
    }

    /// Classifies a string literal (see [`string_spec`]); a lone `"` is
    /// excluded.
    pub fn string(s: &str) -> (r: Result<Self, TokenError>)
        requires
            s@ != seq!['"'],
        ensures
            token_result(r) == string_spec(s@),
    {
        let c = chars_of(s);
        if c.len() >= 1 && c[0] == '"' && c[c.len() - 1] == '"' {
            assert(c@.len() >= 2) by {
                if c@.len() == 1 {
                    assert(c@ =~= seq!['"']);
                }
            }
            match unescape_range(&c, 1, c.len() - 1) {
                Some(t) => Ok(Token::LiteralStr(string_of(t.as_slice()))),
                None => Err(TokenError::StringBadFormat(string_of(c.as_slice()))),
            }
        } else {
            Err(TokenError::StringBadFormat(string_of(c.as_slice())))
        }
    }

    /// Classifies a character literal (see [`char_spec`]); a lone `'` is
    /// excluded.
    pub fn char(s: &str) -> (r: Result<Self, TokenError>)
        requires
            s@ != seq!['\''],
        ensures
            token_result(r) == char_spec(s@),
    {
        let c = chars_of(s);
        let bad = TokenError::CharBadFormat(string_of(c.as_slice()));
        if c.len() >= 1 && c[0] == '\'' && c[c.len() - 1] == '\'' {
            assert(c@.len() >= 2) by {
                if c@.len() == 1 {
                    assert(c@ =~= seq!['\'']);
                }
            }
            let ghost inner = c@.subrange(1, c@.len() - 1);
            let n = c.len() - 2;
            proof {
                lemma_byte_len_small(inner);
            }
            let fits = if n == 1 {
                crate::text::len_utf8(c[1]) <= 2
            } else if n == 2 {
                crate::text::len_utf8(c[1]) == 1 && crate::text::len_utf8(c[2]) == 1
            } else {
                false
            };
            if fits {
                let first = c[1];
                if first == '\\' {
                    if n >= 2 {
                        match char_escape_of(c[2]) {
                            Some(e) => Ok(Token::LiteralChar(e)),
                            None => Err(bad),
                        }
                    } else {
                        Err(bad)
                    }
                } else {
                    Ok(Token::LiteralChar(first))
                }
            } else {
                Err(bad)
            }
        } else {
            Err(bad)
        }
    }

    /// Classifies a punctuation sign (see [`punctuation_spec`]).
    pub fn punctuation(s: &str) -> (r: Result<Self, TokenError>)
        ensures
            token_result(r) == punctuation_spec(s@),
    {
        let c = chars_of(s);
        if c.len() == 1 {
            assert(c@ =~= seq![c@[0]]);
            if c[0] == ',' {
                return Ok(Token::Comma);
            } else if c[0] == ':' {
                return Ok(Token::Colon);
            } else if c[0] == '+' {
                return Ok(Token::Plus);
            } else if c[0] == '#' {
                return Ok(Token::Pound);
            }
        }
        Err(TokenError::InvalidPunctuation(string_of(c.as_slice())))
    }

    /// The token that the text `s` is (see [`token_spec`]); a lone `"` or `'`
    /// is excluded.
    pub fn from_str(s: &str) -> (r: Result<Self, TokenError>)
        requires
            !token_panics(s@),
        ensures
            token_result(r) == token_spec(s@),
    {
        let c = chars_of(s);
        if c.len() == 0 {
            return Err(TokenError::Invalid(String::from_str("Tamanho nulo.")));
        }
        let first = c[0];
        if is_alphabetic(first) {
            Self::word(s)
        } else if is_numeric(first) {
            Self::number(s)
        } else if first == '"' {
            Self::string(s)
        } else if first == '\'' {
            Self::char(s)
        } else if is_punctuation(first) {
            Self::punctuation(s)
        } else {
            Err(TokenError::Invalid(string_of(c.as_slice())))
        }
    }

    /// The text of the token (see [`token_text`]).
    pub fn to_string(&self) -> (s: String)
        ensures
            s@ == token_text(self@),
    {
        match self {
            Token::Instruction(i) => i.to_string(),
            Token::Identifier(id) => {
                let v = crate::text::chars_of_string(id);
                string_of(v.as_slice())
            },
            Token::Number(n) => {
                let v = decimal_chars(*n);
                string_of(v.as_slice())
            },
            Token::LiteralChar(c) => {
                let mut v: Vec<char> = Vec::new();
                v.push('\'');
                v.push(*c);
                v.push('\'');
                assert(v@ =~= seq!['\'', *c, '\'']);
                string_of(v.as_slice())
            },
            Token::LiteralStr(s) => {
                let mut t = String::from_str("\"");
                t.append(s.as_str());
                t.append("\"");
                proof {
                    reveal_strlit("\"");
                }
                assert(t@ =~= seq!['"'] + s@ + seq!['"']);
                t
            },
            Token::String => String::from_str("string"),
            Token::Static => String::from_str("static"),
            Token::Var => String::from_str("var"),
            Token::R0 => String::from_str("R0"),
            Token::R1 => String::from_str("R1"),
            Token::R2 => String::from_str("R2"),
            Token::R3 => String::from_str("R3"),
            Token::R4 => String::from_str("R4"),
            Token::R5 => String::from_str("R5"),
            Token::R6 => String::from_str("R6"),
            Token::R7 => String::from_str("R7"),
            Token::SP => String::from_str("SP"),
            Token::FR => String::from_str("FR"),
            Token::Pound => String::from_str("#"),
            Token::Comma => String::from_str(","),
            Token::Colon => String::from_str(":"),
            Token::Plus => String::from_str("+"),
        }
    }
}

/// Exec form of [`char_escape`].
fn char_escape_of(c: char) -> (r: Option<char>)
    ensures
        r == char_escape(c),
{
    if c == '\'' {
        Some('\'')
    } else if c == 'n' {
        Some('\n')
    } else if c == 'r' {
        Some('\r')
    } else if c == 't' {
        Some('\t')
    } else if c == '\\' {
        Some('\\')
    } else {
        None
    }
}

/// Exec form of [`string_escape`].
fn string_escape_of(c: char) -> (r: Option<char>)
    ensures
        r == string_escape(c),
{
    if c == 'r' {
        Some('\r')
    } else if c == 'n' {
        Some('\n')
    } else if c == 't' {
        Some('\t')
    } else if c == '\'' {
        Some('\'')
    } else if c == '"' {
        Some('"')
    } else if c == '\\' {
        Some('\\')
    } else {
        None
    }
}

/// Each character takes at least one byte, so one or two bytes are one
/// character of at most two bytes or two one-byte characters.
proof fn lemma_byte_len_small(t: Seq<char>)
    ensures
        (1 <= byte_len(t) <= 2) == ((t.len() == 1 && utf8_len(t[0]) <= 2) || (t.len() == 2
            && utf8_len(t[0]) == 1 && utf8_len(t[1]) == 1)),
{
    lemma_byte_len_at_least(t);
    if t.len() == 1 {
        assert(byte_len(t.drop_last()) == 0);
        assert(byte_len(t) == utf8_len(t[0]));
    } else if t.len() == 2 {
        let p = t.drop_last();
        assert(byte_len(p.drop_last()) == 0);
        assert(p.last() == t[0]);
        assert(byte_len(p) == utf8_len(t[0]));
        assert(byte_len(t) == utf8_len(t[0]) + utf8_len(t[1]));
    }
}

/// `byte_len(t)` is at least the number of characters of `t`.
proof fn lemma_byte_len_at_least(t: Seq<char>)
    ensures
        byte_len(t) >= t.len(),
    decreases t.len(),
{
    if t.len() > 0 {
        lemma_byte_len_at_least(t.drop_last());
    }
}

/// The characters `lo..hi` of `c` with their escapes replaced (see [`unescape`]).
fn unescape_range(c: &Vec<char>, lo: usize, hi: usize) -> (r: Option<Vec<char>>)
    requires
        lo <= hi <= c@.len(),
    ensures
        r matches Some(v) ==> unescape(c@.subrange(lo as int, hi as int)) == Some(v@),
        r is None ==> unescape(c@.subrange(lo as int, hi as int)) is None,
{
    let mut out: Vec<char> = Vec::new();
    let mut i = lo;
    assert(out@ + c@.subrange(lo as int, hi as int) =~= c@.subrange(lo as int, hi as int));
    while i < hi
        invariant
            lo <= i <= hi <= c@.len(),
            unescape(c@.subrange(lo as int, hi as int)) == prepend(
                out@,
                unescape(c@.subrange(i as int, hi as int)),
            ),
        decreases hi - i,
    {
        let ghost t = c@.subrange(i as int, hi as int);
        let ch = c[i];
        assert(t[0] == ch);
        if ch == '\\' {
            if i + 1 < hi {
                assert(t[1] == c@[i + 1]);
                assert(t.skip(2) =~= c@.subrange(i + 2, hi as int));
                match string_escape_of(c[i + 1]) {
                    Some(e) => {
                        proof {
                            lemma_prepend_push(out@, e, unescape(t.skip(2)));
                        }
                        out.push(e);
                        i = i + 2;
                    },
                    None => {
                        return None;
                    },
                }
            } else {
                assert(t.len() == 1);
                return None;
            }
        } else {
            assert(t.skip(1) =~= c@.subrange(i + 1, hi as int));
            proof {
                lemma_prepend_push(out@, ch, unescape(t.skip(1)));
            }
            out.push(ch);
            i = i + 1;
        }
    }
    assert(c@.subrange(i as int, hi as int).len() == 0);
    assert(out@ + Seq::<char>::empty() =~= out@);
    Some(out)
}

/// Prepending a sequence and then a character is prepending the sequence
/// with the character pushed.
proof fn lemma_prepend_push(out: Seq<char>, e: char, r: Option<Seq<char>>)
    ensures
        prepend(out, prepend(seq![e], r)) == prepend(out.push(e), r),
{
    if let Some(t) = r {
        assert(out + (seq![e] + t) =~= out.push(e) + t);
    }
}

} // verus!
