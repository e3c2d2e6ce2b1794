use hack_assembler::base::{CommandType, Token, TOKENTYPE};
use hack_assembler::error::ErrorKind;
use hack_assembler::lexer::Lexer;

fn tok(repr: &str, token_type: TOKENTYPE) -> Token {
    Token { repr: repr.into(), token_type }
}

#[test]
fn test_lexer() {
    let mut lexer = Lexer::new();
    lexer.set("@R2").unwrap();
    println!("{:?}", lexer.tokens);
    assert_eq!(
        lexer.tokens[0],
        Token {
            repr: "@".into(),
            token_type: TOKENTYPE::AT
        }
    );
    assert_eq!(
        lexer.tokens[1],
        Token {
            repr: "R2".into(),
            token_type: TOKENTYPE::SYMBOL
        }
    );
    lexer.set("@234").unwrap();
    println!("{:?}", lexer.tokens);
    assert_eq!(
        lexer.tokens[0],
        Token {
            repr: "@".into(),
            token_type: TOKENTYPE::AT
        }
    );
    assert_eq!(
        lexer.tokens[1],
        Token {
            repr: "234".into(),
            token_type: TOKENTYPE::NUMBER
        }
    );
}

#[test]
fn lexes_full_compute_command() {
    let mut lexer = Lexer::new();
    lexer.set("  MD=M-1;JMP ").unwrap();
    assert_eq!(lexer.cmd_type, Some(CommandType::CCommand));
    assert_eq!(
        lexer.tokens,
        vec![
            tok("MD", TOKENTYPE::SYMBOL),
            tok("=", TOKENTYPE::EQUAL),
            tok("M-1", TOKENTYPE::EXPRESSION),
            tok(";", TOKENTYPE::SEMICOLON),
            tok("JMP", TOKENTYPE::SYMBOL),
        ]
    );
}

#[test]
fn lexes_label_with_spaces() {
    let mut lexer = Lexer::new();
    lexer.set("(    LABEL       )").unwrap();
    assert_eq!(lexer.cmd_type, Some(CommandType::LCommand));
    assert_eq!(
        lexer.tokens,
        vec![
            tok("(", TOKENTYPE::LEFTBRACE),
            tok("LABEL", TOKENTYPE::SYMBOL),
            tok(")", TOKENTYPE::RIGHTBRACE),
        ]
    );
}

#[test]
fn splits_at_first_equal_only() {
    let mut lexer = Lexer::new();
    lexer.set("M=D=A").unwrap();
    assert_eq!(
        lexer.tokens,
        vec![
            tok("M", TOKENTYPE::SYMBOL),
            tok("=", TOKENTYPE::EQUAL),
            tok("D=A", TOKENTYPE::EXPRESSION),
        ]
    );
}

#[test]
fn trailing_equal_is_not_a_split() {
    let mut lexer = Lexer::new();
    lexer.set("M=").unwrap();
    assert_eq!(lexer.tokens, vec![tok("M=", TOKENTYPE::EXPRESSION)]);
}

#[test]
fn classifies_pieces() {
    assert_eq!(Lexer::classify("007").unwrap().token_type, TOKENTYPE::NUMBER);
    assert_eq!(Lexer::classify("_x9").unwrap().token_type, TOKENTYPE::SYMBOL);
    assert_eq!(Lexer::classify("9x").unwrap().token_type, TOKENTYPE::EXPRESSION);
    assert_eq!(Lexer::classify("D+A").unwrap().token_type, TOKENTYPE::EXPRESSION);
    assert_eq!(Lexer::classify_by("x", false, true).token_type, TOKENTYPE::SYMBOL);
}

#[test]
fn blank_line_is_an_error() {
    let mut lexer = Lexer::new();
    let e = lexer.set(" \t ").unwrap_err();
    assert_eq!(e.kind, ErrorKind::EmptyLine);
    assert!(Lexer::is_empty_line(""));
}
