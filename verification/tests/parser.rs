use icmc::isa::Instruction;
use icmc::parser::{Keyword, Literal, Parser, ParserError, Punctuation, Token};

#[test]
fn test_consume_left_whitespace() {
    let input = "   \n\r  Test   ";
    let mut p = Parser::new(&input);
    p.consume_left_whitespaces();

    assert_eq!("Test   ", p.input());
}

#[test]
fn test_consume_commentary() {
    let input = " ; Test 123 Test \n
            Nice";
    let mut p = Parser::new(&input);
    p.consume_commentary();

    assert_eq!("Nice", p.input());
}

#[test]
fn test_consume_mult_commentary() {
    let input = " ; Test 123 Test \n
            ; Nice test \n
            MOV ";
    let mut p = Parser::new(&input);
    p.consume_commentary();

    assert_eq!("MOV ", p.input());
}

#[test]
fn test_next_string_1() {
    let input = "\n\tTest";
    let mut p = Parser::new(&input);

    assert_eq!("Test".to_string(), p.next_item().unwrap());
}

#[test]
fn test_next_string_2() {
    let input = "\n\tTest 2Test";
    let mut p = Parser::new(&input);

    assert_eq!("Test".to_string(), p.next_item().unwrap());
}

#[test]
fn test_next_string_3() {
    let input = "\n\tTest:3Test";
    let mut p = Parser::new(&input);

    assert_eq!("Test".to_string(), p.next_item().unwrap());
}

#[test]
fn test_next_string_4() {
    let input = "\n\tTest_4Test";
    let mut p = Parser::new(&input);

    assert_eq!("Test_4Test".to_string(), p.next_item().unwrap());
}

#[test]
fn test_next_string_5() {
    let input = "\n\tTest 5Test";
    let mut p = Parser::new(&input);

    let _ = p.next_item();
    assert_eq!("5Test".to_string(), p.next_item().unwrap());
}

#[test]
fn test_next_string_6() {
    let input = r#" "Test 6""#;
    let mut p = Parser::new(&input);

    assert_eq!("\"Test 6\"".to_string(), p.next_item().unwrap());
}

#[test]
fn test_next_token_literal_string_1() {
    let input = r#"  "Test literal" 123"#;
    let mut p = Parser::new(&input);

    assert_eq!(
        (Token::Literal(Literal::String), "Test literal".to_string()),
        p.next_token().unwrap()
    );
}

#[test]
fn test_next_token_literal_dec() {
    let input = " 123456 Test";
    let mut p = Parser::new(&input);

    assert_eq!(
        (Token::Literal(Literal::DecNumber), "123456".to_string()),
        p.next_token().unwrap()
    );
}

#[test]
fn test_next_token_literal_bin() {
    let input = " 0b01011 Test";
    let mut p = Parser::new(&input);

    assert_eq!(
        (Token::Literal(Literal::BinNumber), "01011".to_string()),
        p.next_token().unwrap()
    );
}

#[test]
fn test_next_token_literal_hex() {
    let input = " 0xffc0 Test";
    let mut p = Parser::new(&input);

    assert_eq!(
        (Token::Literal(Literal::HexNumber), "ffc0".to_string()),
        p.next_token().unwrap()
    );
}

#[test]
fn test_next_token_keyword() {
    let input = " var   r0 Test";
    let mut p = Parser::new(&input);

    assert_eq!(
        (Token::Keyword(Keyword::Var), "var".to_string()),
        p.next_token().unwrap()
    );

    assert_eq!(
        (Token::Keyword(Keyword::R0), "r0".to_string()),
        p.next_token().unwrap()
    );
}

#[test]
fn test_next_token_instruction() {
    let input = " mov   r0 Test";
    let mut p = Parser::new(&input);

    assert_eq!(
        (Token::Instruction(Instruction::MOV), "mov".to_string()),
        p.next_token().unwrap()
    );
}

#[test]
fn test_next_token_identifier() {
    let input = " label: mov   r0 Test";
    let mut p = Parser::new(&input);

    assert_eq!(
        (Token::Identifier, "label".to_string()),
        p.next_token().unwrap()
    );
}

#[test]
fn test_next_token_punctuation() {
    let input = "  ,r0   r0 Test";
    let mut p = Parser::new(&input);

    assert_eq!(
        (Token::Punctuation(Punctuation::Comma), ",".to_string()),
        p.next_token().unwrap()
    );
}

#[test]
fn test_ruler_check() {
    let input = "  LOADN R0, #0123";
    let mut p = Parser::new(&input);

    assert_eq!(Ok(()), p.ruler_check());

    let input = "  LOADN R0, #label";
    let mut p = Parser::new(&input);

    assert_eq!(Ok(()), p.ruler_check());

    let input = "  LOADN R0, #'\''";
    let mut p = Parser::new(&input);

    assert_eq!(Ok(()), p.ruler_check());
}

#[test]
fn test_ruler_check_error() {
    let input = "  LOADN SP, #'\''";
    let mut p = Parser::new(&input);

    assert_eq!(Err(ParserError::InvalidRule), p.ruler_check());
}

#[test]
fn parser_errors() {
    let mut p = Parser::new("");
    assert_eq!(Err(ParserError::Empty), p.next_item());
    // a text of blanks only is kept, and its first blank is an item
    let mut p = Parser::new("  ");
    assert_eq!(Ok(" ".to_string()), p.next_item());
    let mut p = Parser::new(" 0b102");
    assert_eq!(Err(ParserError::NumberBadFormat), p.next_token());
    let mut p = Parser::new(" 0q1");
    assert_eq!(Err(ParserError::NumberBadFormat), p.next_token());
    let mut p = Parser::new(" ;");
    assert_eq!(Err(ParserError::InvalidCharacter), p.next_token());
    assert_eq!("Regra inválida!", ParserError::InvalidRule.to_string().as_str());
}

#[test]
fn ruler_check_of_other_rules() {
    let mut p = Parser::new("STORE 0x10 R1");
    assert_eq!(Ok(()), p.ruler_check());
    let mut p = Parser::new("loadi r1 r2");
    assert_eq!(Ok(()), p.ruler_check());
    let mut p = Parser::new("LOAD R1, label");
    assert_eq!(Ok(()), p.ruler_check());
    let mut p = Parser::new("LOAD R1 label");
    assert_eq!(Err(ParserError::InvalidRule), p.ruler_check());
    let mut p = Parser::new("STOREN var, 'a'");
    assert_eq!(Err(ParserError::InvalidRule), p.ruler_check());
}

#[test]
fn char_literal_with_escaped_quote() {
    let mut p = Parser::new(r"'\'' rest");
    assert_eq!(
        (Token::Literal(Literal::Char), r"'\''".to_string()),
        p.next_token().unwrap()
    );
    assert_eq!(" rest", p.input());
}

#[test]
fn keywords_from_str() {
    assert_eq!(Some(Keyword::SP), Keyword::from_str("sp"));
    assert_eq!(Some(Keyword::String), Keyword::from_str("STRING"));
    assert_eq!(None, Keyword::from_str("R8"));
    assert_eq!(Some(Punctuation::Pound), Punctuation::from_str("#"));
    assert_eq!(None, Punctuation::from_str(":"));
    assert_eq!("FR", Keyword::FR.to_string());
}
