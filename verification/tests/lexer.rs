use icmc::isa::Instruction;
use icmc::lexer::Lexer;
use icmc::token::Token;

#[test]
fn test_next_line() {
    let mut lex = Lexer::new("1 linha\n2 linha");
    lex.next_line();
    assert_eq!("2 linha", lex.stream());
    assert_eq!(2, lex.line());
}

#[test]
fn test_trim_left() {
    let mut lex = Lexer::new(" \t\n  2 linha");
    lex.trim_left();
    assert_eq!("2 linha", lex.stream());
    assert_eq!(2, lex.line());
    assert_eq!(3, lex.column());
}

#[test]
fn test_skip_commentary() {
    let mut lex = Lexer::new("; 1\n\t\t ;2\n\t3 linha");
    lex.skip_commentary();
    assert_eq!("3 linha", lex.stream());
    assert_eq!(3, lex.line());
    assert_eq!(2, lex.column());
}

#[test]
fn test_item_identifier_declaration() {
    {
        let mut lex = Lexer::new("main:");
        assert_eq!("main".to_string(), lex.next_item().unwrap());
        assert_eq!(":", lex.stream())
    }

    {
        let mut lex = Lexer::new("foo_1:");
        assert_eq!("foo_1".to_string(), lex.next_item().unwrap());
        assert_eq!(":", lex.stream())
    }
}

#[test]
fn lexer_test_keyword() {
    {
        let mut lex = Lexer::new("var position_1");
        assert_eq!("var".to_string(), lex.next_item().unwrap());
        assert_eq!(" position_1", lex.stream());
    }

    {
        let mut lex = Lexer::new("; comentary \n \tvar position_1");
        assert_eq!("var".to_string(), lex.next_item().unwrap());
        assert_eq!(" position_1", lex.stream());
    }
}

#[test]
fn test_token_keyword() {
    let mut lex = Lexer::new("var position_1");
    assert_eq!(Token::Var, lex.next_token().unwrap().unwrap())
}

#[test]
fn test_token_instruction() {
    let mut lex = Lexer::new("ADD R1, R2, R3");
    assert_eq!(
        Token::Instruction(Instruction::ADD),
        lex.next_token().unwrap().unwrap()
    )
}

#[test]
fn test_token_identifier() {
    let mut lex = Lexer::new("foo_1:");
    assert_eq!(
        Token::Identifier("foo_1".to_string()),
        lex.next_token().unwrap().unwrap()
    )
}

#[test]
fn tokens_of_a_statement() {
    let mut lex = Lexer::new("  loadn r1, #0x10 ; comment\n");
    assert_eq!(Token::Instruction(Instruction::LOADN), lex.next_token().unwrap().unwrap());
    assert_eq!(Token::Identifier("r1".to_string()), lex.next_token().unwrap().unwrap());
    assert_eq!(Token::Comma, lex.next_token().unwrap().unwrap());
    assert_eq!(Token::Pound, lex.next_token().unwrap().unwrap());
    assert_eq!(Token::Number(2), lex.next_token().unwrap().unwrap());
    assert!(lex.next_token().is_none());
}

#[test]
fn string_item_takes_the_rest_of_the_text() {
    let mut lex = Lexer::new("\"ab\\\"c\" x");
    assert_eq!("\"ab\"c\" x".to_string(), lex.next_item().unwrap());
    assert_eq!("x", lex.stream());
}

#[test]
fn trim_keeps_the_last_blank_of_an_all_blank_text() {
    let mut lex = Lexer::new("  \n ");
    lex.trim_left();
    assert_eq!(" ", lex.stream());
    assert_eq!(2, lex.line());
    assert_eq!(2, lex.column());
}

#[test]
fn next_line_without_line_break_empties_the_text() {
    let mut lex = Lexer::new("abc");
    lex.next_line();
    assert_eq!("", lex.stream());
    assert_eq!(1, lex.line());
}

#[test]
fn white_space_is_the_unicode_property() {
    for u in 0u32..0x3100 {
        if let Some(c) = char::from_u32(u) {
            assert_eq!(c.is_whitespace(), icmc::text::is_whitespace(c), "{:x}", u);
        }
    }
}
