use icmc::isa::Instruction;
use icmc::token::{Token, TokenError};

#[test]
fn token_test_keyword() {
    {
        let s = "var";
        assert_eq!(Token::Var, Token::from_str(s).unwrap())
    }

    {
        let s = "VAR";
        assert_eq!(Token::Var, Token::from_str(s).unwrap())
    }
}

#[test]
fn test_instruction() {
    {
        let s = "push";
        assert_eq!(
            Token::Instruction(Instruction::from_str(s).unwrap()),
            Token::from_str(s).unwrap()
        )
    }

    {
        let s = "PUSH";
        assert_eq!(
            Token::Instruction(Instruction::from_str(s).unwrap()),
            Token::from_str(s).unwrap()
        )
    }
}

#[test]
fn test_identifier() {
    {
        let s = "main";
        assert_eq!(
            Token::Identifier("main".to_string()),
            Token::from_str(s).unwrap()
        )
    }

    {
        let s = "foo_1";
        assert_eq!(
            Token::Identifier("foo_1".to_string()),
            Token::from_str(s).unwrap()
        )
    }
}

#[test]
fn test_number() {
    {
        let s = "2";
        assert_eq!(Token::Number(2), Token::from_str(s).unwrap())
    }

    {
        let s = "0b10";
        assert_eq!(Token::Number(2), Token::from_str(s).unwrap())
    }

    {
        let s = "0x10";
        assert_eq!(Token::Number(2), Token::from_str(s).unwrap())
    }
}

#[test]
fn test_string() {
    {
        let s = r#""test""#;
        assert_eq!(
            Token::LiteralStr("test".to_string()),
            Token::from_str(s).unwrap()
        )
    }

    {
        let s = "\"test \\\"123\\\".\"";
        assert_eq!(
            Token::LiteralStr("test \"123\".".to_string()),
            Token::from_str(s).unwrap()
        )
    }
}

#[test]
fn test_char() {
    {
        let s = "'t'";
        assert_eq!(Token::LiteralChar('t'), Token::from_str(s).unwrap())
    }

    {
        let s = "'\\''";
        assert_eq!(Token::LiteralChar('\''), Token::from_str(s).unwrap())
    }
}

#[test]
fn test_punctuation() {
    {
        let s = "#";
        assert_eq!(Token::Pound, Token::from_str(s).unwrap())
    }

    {
        let s = ",";
        assert_eq!(Token::Comma, Token::from_str(s).unwrap())
    }
}

#[test]
fn number_formats() {
    assert_eq!(Token::Number(123456), Token::from_str("123456").unwrap());
    assert_eq!(Token::Number(0xff), Token::from_str("0xff").unwrap());
    assert_eq!(
        Err(TokenError::NumberBadFormat("1234567".to_string())),
        Token::from_str("1234567")
    );
    assert_eq!(
        Err(TokenError::NumberBadFormat("0xfffff".to_string())),
        Token::from_str("0xfffff")
    );
}

#[test]
fn keywords_and_registers() {
    assert_eq!(Token::Static, Token::from_str("static").unwrap());
    assert_eq!(Token::String, Token::from_str("String").unwrap());
    // registers are not recognised as words
    assert_eq!(Token::Identifier("r3".to_string()), Token::from_str("r3").unwrap());
}

#[test]
fn bad_literals() {
    assert_eq!(Token::LiteralChar('a'), Token::from_str("'ab'").unwrap());
    assert!(matches!(Token::from_str("'abc'"), Err(TokenError::CharBadFormat(_))));
    assert!(matches!(Token::from_str("'\\q'"), Err(TokenError::CharBadFormat(_))));
    assert!(matches!(Token::from_str("\"abc"), Err(TokenError::StringBadFormat(_))));
    assert!(matches!(Token::from_str("\"a\\qb\""), Err(TokenError::StringBadFormat(_))));
    assert_eq!(Err(TokenError::Invalid("@".to_string())), Token::from_str("@"));
    assert_eq!(
        Err(TokenError::InvalidPunctuation("+,".to_string())),
        Token::from_str("+,")
    );
    assert_eq!(Token::Plus, Token::from_str("+").unwrap());
    assert_eq!(
        Err(TokenError::Invalid("Tamanho nulo.".to_string())),
        Token::from_str("")
    );
}

#[test]
fn token_text() {
    assert_eq!("R0", Token::R0.to_string());
    assert_eq!("'a'", Token::LiteralChar('a').to_string());
    assert_eq!("\"ab\"", Token::LiteralStr("ab".to_string()).to_string());
    assert_eq!("42", Token::Number(42).to_string());
    assert_eq!("PUSH", Token::Instruction(Instruction::PUSH).to_string());
    assert_eq!(":", Token::Colon.to_string());
}

#[test]
fn token_error_messages() {
    assert_eq!(
        "O número \"0x\" não está em um formato válido.",
        TokenError::NumberBadFormat("0x".to_string()).to_string()
    );
    assert_eq!("Token inválido: @", TokenError::Invalid("@".to_string()).to_string());
    assert_eq!(
        "Instrução inválida: PUSHX",
        Instruction::from_str("PUSHX").unwrap_err().to_string()
    );
}

#[test]
fn text_reads_back_as_the_token() {
    let tokens = vec![
        Token::Instruction(Instruction::PUSH),
        Token::Identifier("main".to_string()),
        Token::Number(42),
        Token::LiteralChar('a'),
        Token::LiteralStr("ab".to_string()),
        Token::String,
        Token::Static,
        Token::Var,
        Token::Pound,
        Token::Comma,
        Token::Colon,
        Token::Plus,
    ];
    for t in tokens {
        assert_eq!(t, Token::from_str(&t.to_string()).unwrap());
    }
    // registers are written as words that read back as identifiers
    assert_eq!(Token::Identifier("R0".to_string()), Token::from_str(&Token::R0.to_string()).unwrap());
}
