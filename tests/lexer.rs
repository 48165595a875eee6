use schema_lexer::lexer::Lexer;
use schema_lexer::parser::Parser;
use schema_lexer::token::{keyword_or_ident, symbol_or_ident, Token, TokenKind};

fn lex_all(input: &str) -> Vec<Token> {
    let mut l = Lexer::new(input);
    let mut out = Vec::new();
    loop {
        let t = l.next_token();
        let done = t.kind == TokenKind::Eof;
        out.push(t);
        if done {
            return out;
        }
        assert!(out.len() <= input.chars().count() + 1);
    }
}

fn tok(kind: TokenKind, literal: &str) -> Token {
    Token {
        kind,
        literal: literal.to_string(),
    }
}

#[test]
fn test_next_token() {
    let input = "\n    struct Person {\n        name: string | null,\n    }\n    ";
    let tests = vec![
        Token {
            kind: TokenKind::Struct,
            literal: "struct".to_string(),
        },
        Token {
            kind: TokenKind::Ident,
            literal: "Person".to_string(),
        },
        Token {
            kind: TokenKind::LeftBrace,
            literal: "{".to_string(),
        },
        Token {
            kind: TokenKind::Ident,
            literal: "name".to_string(),
        },
        Token {
            kind: TokenKind::Colon,
            literal: ":".to_string(),
        },
        Token {
            kind: TokenKind::String,
            literal: "string".to_string(),
        },
        Token {
            kind: TokenKind::Or,
            literal: "|".to_string(),
        },
        Token {
            kind: TokenKind::Null,
            literal: "null".to_string(),
        },
        Token {
            kind: TokenKind::Comma,
            literal: ",".to_string(),
        },
        Token {
            kind: TokenKind::RightBrace,
            literal: "}".to_string(),
        },
    ];

    let mut l = Lexer::new(input);
    for tt in tests {
        let tok = l.next_token();
        assert_eq!(tok.kind, tt.kind);
        assert_eq!(tok.literal, tt.literal);
    }
}

#[test]
fn eof_repeats_after_end() {
    let mut l = Lexer::new("a  \n");
    assert_eq!(l.next_token(), tok(TokenKind::Ident, "a"));
    for _ in 0..5 {
        assert_eq!(l.next_token(), tok(TokenKind::Eof, ""));
    }
}

#[test]
fn empty_input_is_eof() {
    let mut l = Lexer::new("");
    assert_eq!(l.next_token(), tok(TokenKind::Eof, ""));
    assert_eq!(l.next_token(), tok(TokenKind::Eof, ""));
    let mut w = Lexer::new(" \t\r\n ");
    assert_eq!(w.next_token(), tok(TokenKind::Eof, ""));
}

#[test]
fn literals_rebuild_input_without_whitespace() {
    let input = "enum  E{a,b}\n@x1 [ 42 ]&|é( )\tstructure";
    let joined: String = lex_all(input).iter().map(|t| t.literal.clone()).collect();
    let stripped: String = input
        .chars()
        .filter(|c| !matches!(c, ' ' | '\t' | '\n' | '\r'))
        .collect();
    assert_eq!(joined, stripped);
}

#[test]
fn letters_and_digits_do_not_mix() {
    assert_eq!(
        lex_all("abc123"),
        vec![
            tok(TokenKind::Ident, "abc"),
            tok(TokenKind::Number, "123"),
            tok(TokenKind::Eof, ""),
        ]
    );
    assert_eq!(
        lex_all("007_x9"),
        vec![
            tok(TokenKind::Number, "007"),
            tok(TokenKind::Ident, "_x"),
            tok(TokenKind::Number, "9"),
            tok(TokenKind::Eof, ""),
        ]
    );
}

#[test]
fn keywords_match_whole_words_only() {
    assert_eq!(lex_all("struct")[0], tok(TokenKind::Struct, "struct"));
    assert_eq!(lex_all("structure")[0], tok(TokenKind::Ident, "structure"));
    assert_eq!(lex_all("Struct")[0], tok(TokenKind::Ident, "Struct"));
    assert_eq!(
        lex_all("enum number boolean"),
        vec![
            tok(TokenKind::Enum, "enum"),
            tok(TokenKind::Number, "number"),
            tok(TokenKind::Boolean, "boolean"),
            tok(TokenKind::Eof, ""),
        ]
    );
}

#[test]
fn each_symbol_has_its_kind() {
    let cases = [
        (":", TokenKind::Colon),
        (",", TokenKind::Comma),
        ("(", TokenKind::LeftParen),
        (")", TokenKind::RightParen),
        ("{", TokenKind::LeftBrace),
        ("}", TokenKind::RightBrace),
        ("[", TokenKind::LeftBracket),
        ("]", TokenKind::RightBracket),
        ("&", TokenKind::And),
        ("|", TokenKind::Or),
    ];
    for (text, kind) in cases {
        assert_eq!(lex_all(text), vec![tok(kind, text), tok(TokenKind::Eof, "")]);
        assert_eq!(symbol_or_ident(text), kind);
    }
}

#[test]
fn unknown_character_is_illegal() {
    assert_eq!(
        lex_all("@"),
        vec![tok(TokenKind::Illegal, "@"), tok(TokenKind::Eof, "")]
    );
    assert_eq!(
        lex_all("a€b"),
        vec![
            tok(TokenKind::Ident, "a"),
            tok(TokenKind::Illegal, "€"),
            tok(TokenKind::Ident, "b"),
            tok(TokenKind::Eof, ""),
        ]
    );
    assert_eq!(lex_all("\0")[0], tok(TokenKind::Illegal, "\0"));
}

#[test]
fn schema_scenario_kinds() {
    let kinds: Vec<TokenKind> = lex_all("struct Person {\n name: string | null,\n}\n")
        .iter()
        .map(|t| t.kind)
        .collect();
    assert_eq!(
        kinds,
        vec![
            TokenKind::Struct,
            TokenKind::Ident,
            TokenKind::LeftBrace,
            TokenKind::Ident,
            TokenKind::Colon,
            TokenKind::String,
            TokenKind::Or,
            TokenKind::Null,
            TokenKind::Comma,
            TokenKind::RightBrace,
            TokenKind::Eof,
        ]
    );
    assert_eq!(lex_all("struct Person {")[1], tok(TokenKind::Ident, "Person"));
}

#[test]
fn keyword_table_lookup() {
    assert_eq!(keyword_or_ident("struct"), TokenKind::Struct);
    assert_eq!(keyword_or_ident("enum"), TokenKind::Enum);
    assert_eq!(keyword_or_ident("number"), TokenKind::Number);
    assert_eq!(keyword_or_ident("string"), TokenKind::String);
    assert_eq!(keyword_or_ident("boolean"), TokenKind::Boolean);
    assert_eq!(keyword_or_ident("null"), TokenKind::Null);
    assert_eq!(keyword_or_ident("nul"), TokenKind::Ident);
    assert_eq!(keyword_or_ident("nulls"), TokenKind::Ident);
    assert_eq!(keyword_or_ident(""), TokenKind::Ident);
}

#[test]
fn symbol_table_default_is_ident() {
    assert_eq!(symbol_or_ident("@"), TokenKind::Ident);
    assert_eq!(symbol_or_ident("::"), TokenKind::Ident);
    assert_eq!(symbol_or_ident(""), TokenKind::Ident);
}

#[test]
fn parser_window_moves_on_match_only() {
    let mut p = Parser::new(Lexer::new("struct Person { }"));
    // current: struct, next: Person
    assert!(!p.expect_peek(TokenKind::LeftBrace));
    assert!(p.expect_peek(TokenKind::Ident));
    assert!(!p.expect_peek(TokenKind::Ident));
    assert!(p.expect_peek(TokenKind::LeftBrace));
    assert!(p.expect_peek(TokenKind::RightBrace));
    assert!(p.expect_peek(TokenKind::Eof));
    assert!(p.expect_peek(TokenKind::Eof));
    p.next_token();
    assert!(p.expect_peek(TokenKind::Eof));
}
