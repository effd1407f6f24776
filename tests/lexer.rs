use monkey::lexer::Lexer;
use monkey::token::{lookup_ident, Token, TokenKind};

fn tok(kind: TokenKind, literal: &str) -> Token {
    Token { kind, literal: literal.to_string() }
}

fn lex_all(input: &str) -> Vec<Token> {
    let mut l = Lexer::new(input);
    let mut out = Vec::new();
    loop {
        let t = l.next_token();
        let done = t.kind == TokenKind::EOF;
        out.push(t);
        if done {
            return out;
        }
    }
}

fn assert_tokens(input: &str, expected: &[Token]) {
    let got = lex_all(input);
    assert_eq!(got.len(), expected.len(), "token count for {:?}: {:?}", input, got);
    for (i, (g, e)) in got.iter().zip(expected.iter()).enumerate() {
        assert_eq!(g.kind, e.kind, "kind of token {} of {:?}", i, input);
        assert_eq!(g.literal, e.literal, "literal of token {} of {:?}", i, input);
    }
}

#[test]
fn test_next_token() {
    let input = r#"
        let five = 5;
        let ten = 10;

        let add = fn(x, y) {
            x + y;
        };

        let result = add(five, ten);
        !-/*5;
        5 < 10 > 5;

        if (5 < 10) {
            return true;
        } else {
            return false;
        }

        10 == 10;
        10 != 9;
        "#;

    let expected = vec![
        tok(TokenKind::Let, "let"),
        tok(TokenKind::Ident, "five"),
        tok(TokenKind::Assign, "="),
        tok(TokenKind::Int, "5"),
        tok(TokenKind::Semicolon, ";"),
        tok(TokenKind::Let, "let"),
        tok(TokenKind::Ident, "ten"),
        tok(TokenKind::Assign, "="),
        tok(TokenKind::Int, "10"),
        tok(TokenKind::Semicolon, ";"),
        tok(TokenKind::Let, "let"),
        tok(TokenKind::Ident, "add"),
        tok(TokenKind::Assign, "="),
        tok(TokenKind::Function, "fn"),
        tok(TokenKind::LParen, "("),
        tok(TokenKind::Ident, "x"),
        tok(TokenKind::Comma, ","),
        tok(TokenKind::Ident, "y"),
        tok(TokenKind::RParen, ")"),
        tok(TokenKind::LBrace, "{"),
        tok(TokenKind::Ident, "x"),
        tok(TokenKind::Plus, "+"),
        tok(TokenKind::Ident, "y"),
        tok(TokenKind::Semicolon, ";"),
        tok(TokenKind::RBrace, "}"),
        tok(TokenKind::Semicolon, ";"),
        tok(TokenKind::Let, "let"),
        tok(TokenKind::Ident, "result"),
        tok(TokenKind::Assign, "="),
        tok(TokenKind::Ident, "add"),
        tok(TokenKind::LParen, "("),
        tok(TokenKind::Ident, "five"),
        tok(TokenKind::Comma, ","),
        tok(TokenKind::Ident, "ten"),
        tok(TokenKind::RParen, ")"),
        tok(TokenKind::Semicolon, ";"),
        tok(TokenKind::Bang, "!"),
        tok(TokenKind::Minus, "-"),
        tok(TokenKind::Slash, "/"),
        tok(TokenKind::Asterisk, "*"),
        tok(TokenKind::Int, "5"),
        tok(TokenKind::Semicolon, ";"),
        tok(TokenKind::Int, "5"),
        tok(TokenKind::Lt, "<"),
        tok(TokenKind::Int, "10"),
        tok(TokenKind::Gt, ">"),
        tok(TokenKind::Int, "5"),
        tok(TokenKind::Semicolon, ";"),
        tok(TokenKind::If, "if"),
        tok(TokenKind::LParen, "("),
        tok(TokenKind::Int, "5"),
        tok(TokenKind::Lt, "<"),
        tok(TokenKind::Int, "10"),
        tok(TokenKind::RParen, ")"),
        tok(TokenKind::LBrace, "{"),
        tok(TokenKind::Return, "return"),
        tok(TokenKind::True, "true"),
        tok(TokenKind::Semicolon, ";"),
        tok(TokenKind::RBrace, "}"),
        tok(TokenKind::Else, "else"),
        tok(TokenKind::LBrace, "{"),
        tok(TokenKind::Return, "return"),
        tok(TokenKind::False, "false"),
        tok(TokenKind::Semicolon, ";"),
        tok(TokenKind::RBrace, "}"),
        tok(TokenKind::Int, "10"),
        tok(TokenKind::Eq, "=="),
        tok(TokenKind::Int, "10"),
        tok(TokenKind::Semicolon, ";"),
        tok(TokenKind::Int, "10"),
        tok(TokenKind::NotEq, "!="),
        tok(TokenKind::Int, "9"),
    ];

    let mut l = Lexer::new(input);

    for (idx, exp) in expected.into_iter().enumerate() {
        let recv_token = l.next_token();
        assert_eq!(
            exp.kind,
            recv_token.kind,
            "tests[{}] - tokentype wrong. expected={}, got={}",
            idx,
            exp.kind.spelling(),
            recv_token.kind.spelling()
        );
        assert_eq!(
            exp.literal,
            recv_token.literal,
            "tests[{}] - literal wrong. expected={}, got={}",
            idx,
            exp.literal,
            recv_token.literal
        )
    }
}

#[test]
fn eof_repeats_forever() {
    let mut l = Lexer::new("x;  \n");
    assert_eq!(l.next_token().kind, TokenKind::Ident);
    assert_eq!(l.next_token().kind, TokenKind::Semicolon);
    for _ in 0..5 {
        let t = l.next_token();
        assert_eq!(t.kind, TokenKind::EOF);
        assert_eq!(t.literal, "");
    }
}

#[test]
fn empty_input_is_eof() {
    assert_tokens("", &[tok(TokenKind::EOF, "")]);
    assert_tokens(" \t\r\n ", &[tok(TokenKind::EOF, "")]);
}

#[test]
fn two_char_operators_stay_whole() {
    assert_tokens(
        "==!=",
        &[tok(TokenKind::Eq, "=="), tok(TokenKind::NotEq, "!="), tok(TokenKind::EOF, "")],
    );
    assert_tokens(
        "===",
        &[tok(TokenKind::Eq, "=="), tok(TokenKind::Assign, "="), tok(TokenKind::EOF, "")],
    );
}

#[test]
fn bare_assign_and_bang_stay_alone() {
    assert_tokens(
        "=x !y = =",
        &[
            tok(TokenKind::Assign, "="),
            tok(TokenKind::Ident, "x"),
            tok(TokenKind::Bang, "!"),
            tok(TokenKind::Ident, "y"),
            tok(TokenKind::Assign, "="),
            tok(TokenKind::Assign, "="),
            tok(TokenKind::EOF, ""),
        ],
    );
    assert_tokens(
        "!!=",
        &[tok(TokenKind::Bang, "!"), tok(TokenKind::NotEq, "!="), tok(TokenKind::EOF, "")],
    );
    assert_tokens("!", &[tok(TokenKind::Bang, "!"), tok(TokenKind::EOF, "")]);
}

#[test]
fn illegal_characters_are_tokens() {
    assert_tokens(
        "a @ 1 é",
        &[
            tok(TokenKind::Ident, "a"),
            tok(TokenKind::Illegal, "@"),
            tok(TokenKind::Int, "1"),
            tok(TokenKind::Illegal, "é"),
            tok(TokenKind::EOF, ""),
        ],
    );
}

#[test]
fn nul_inside_the_text_is_illegal() {
    assert_tokens(
        "a\0b",
        &[
            tok(TokenKind::Ident, "a"),
            tok(TokenKind::Illegal, "\0"),
            tok(TokenKind::Ident, "b"),
            tok(TokenKind::EOF, ""),
        ],
    );
}

#[test]
fn identifiers_take_no_digits() {
    assert_tokens(
        "foo_bar1 _x",
        &[
            tok(TokenKind::Ident, "foo_bar"),
            tok(TokenKind::Int, "1"),
            tok(TokenKind::Ident, "_x"),
            tok(TokenKind::EOF, ""),
        ],
    );
}

#[test]
fn integers_are_digit_runs() {
    assert_tokens(
        "12345 007-3",
        &[
            tok(TokenKind::Int, "12345"),
            tok(TokenKind::Int, "007"),
            tok(TokenKind::Minus, "-"),
            tok(TokenKind::Int, "3"),
            tok(TokenKind::EOF, ""),
        ],
    );
}

#[test]
fn keywords_need_the_whole_word() {
    assert_tokens(
        "lets letx let",
        &[
            tok(TokenKind::Ident, "lets"),
            tok(TokenKind::Ident, "letx"),
            tok(TokenKind::Let, "let"),
            tok(TokenKind::EOF, ""),
        ],
    );
}

#[test]
fn scenario_let_five_tokens() {
    assert_tokens(
        "let five = 5;",
        &[
            tok(TokenKind::Let, "let"),
            tok(TokenKind::Ident, "five"),
            tok(TokenKind::Assign, "="),
            tok(TokenKind::Int, "5"),
            tok(TokenKind::Semicolon, ";"),
            tok(TokenKind::EOF, ""),
        ],
    );
}

#[test]
fn scenario_equality_tokens() {
    assert_tokens(
        "10 == 10;",
        &[
            tok(TokenKind::Int, "10"),
            tok(TokenKind::Eq, "=="),
            tok(TokenKind::Int, "10"),
            tok(TokenKind::Semicolon, ";"),
            tok(TokenKind::EOF, ""),
        ],
    );
}

#[test]
fn lookup_ident_classifies_words() {
    assert_eq!(lookup_ident("fn"), TokenKind::Function);
    assert_eq!(lookup_ident("let"), TokenKind::Let);
    assert_eq!(lookup_ident("true"), TokenKind::True);
    assert_eq!(lookup_ident("false"), TokenKind::False);
    assert_eq!(lookup_ident("if"), TokenKind::If);
    assert_eq!(lookup_ident("else"), TokenKind::Else);
    assert_eq!(lookup_ident("return"), TokenKind::Return);
    assert_eq!(lookup_ident("returns"), TokenKind::Ident);
    assert_eq!(lookup_ident("Let"), TokenKind::Ident);
    assert_eq!(lookup_ident(""), TokenKind::Ident);
}

#[test]
fn spellings_of_kinds() {
    assert_eq!(TokenKind::Assign.spelling(), "=");
    assert_eq!(TokenKind::Eq.spelling(), "==");
    assert_eq!(TokenKind::NotEq.spelling(), "!=");
    assert_eq!(TokenKind::LBrace.spelling(), "{");
    assert_eq!(TokenKind::RBrace.spelling(), "}");
    assert_eq!(TokenKind::Function.spelling(), "fn");
    assert_eq!(TokenKind::Ident.spelling(), "Ident");
    assert_eq!(TokenKind::EOF.spelling(), "EOF");
    assert_eq!(TokenKind::Illegal.spelling(), "Illegal");
    assert_eq!(TokenKind::Int.spelling(), "Int");
}

#[test]
fn token_clone_keeps_kind_and_literal() {
    let t = tok(TokenKind::Ident, "abc");
    let c = t.clone();
    assert_eq!(c.kind, TokenKind::Ident);
    assert_eq!(c.literal, "abc");
}
