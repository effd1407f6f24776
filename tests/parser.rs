use monkey::ast::{ExpressionNode, Identifier, LetStatement, Node, Program, ReturnStatement, StatementNode};
use monkey::lexer::Lexer;
use monkey::parser::Parser;
use monkey::token::{Token, TokenKind};

fn parse(input: &str) -> (Program, Vec<String>) {
    let mut parser = Parser::new(Lexer::new(input));
    let program = parser.parse_program().expect("a program is always returned");
    let errors = parser.errors().clone();
    (program, errors)
}

fn check_parser_error(parser: Parser) {
    let errors = parser.errors();
    if errors.len() == 0 {
        return;
    }

    for msg in errors.clone().into_iter() {
        println!("parser error: {}", msg);
    }

    panic!("parser has {} errors", errors.len());
}

fn test_let_statement(stmt: &StatementNode, exp: &str) {
    assert_eq!(stmt.token_literal(), "let", "toke literal not 'let' got {}", stmt.token_literal());
    match stmt {
        StatementNode::Let(e) => {
            assert_eq!(e.name.value, exp, "LetStatement name value not {}, got {}", exp, e.name.value);
            assert_eq!(
                e.name.token_literal(),
                exp,
                "LetStatement token literal not {}, got {}",
                exp,
                e.name.token_literal()
            );
        }
        other => panic!("stmt is not LetStatement. got {:?}", other),
    };
}

#[test]
fn test_let_statements() {
    let input = r#"
        let x = 5;
        let y = 10;
        let foobar = 838383;
        "#;

    let lexer = Lexer::new(input);
    let mut parser = Parser::new(lexer);

    let program = parser.parse_program();
    check_parser_error(parser);

    match program {
        Some(p) => {
            assert_eq!(
                p.statements.len(),
                3,
                "program.statements does not contain 3 statements. got {}",
                p.statements.len()
            );

            let tests = vec!["x", "y", "foobar"];

            for (i, tt) in tests.iter().enumerate() {
                let stmt = &p.statements[i];
                test_let_statement(stmt, tt)
            }
        }
        None => panic!("parse program should not be None"),
    }
}

#[test]
fn test_return_statements() {
    let input = r#"
        return 5;
        return 10;
        return 993322;
        "#;

    let lexer = Lexer::new(input);
    let mut parser = Parser::new(lexer);

    let program = parser.parse_program();
    check_parser_error(parser);

    match program {
        Some(p) => {
            assert_eq!(
                p.statements.len(),
                3,
                "program.statements does not contain 3 statements. got {}",
                p.statements.len()
            );

            for stmt in p.statements {
                match stmt {
                    StatementNode::Return(ret) => {
                        assert_eq!(
                            ret.token_literal(),
                            "return",
                            "return statement token literal not 'return', got {}",
                            ret.token_literal()
                        );
                    }
                    _ => panic!("stmt is not ReturnStatement. got {:?}", stmt),
                }
            }
        }
        None => panic!("parse program should not be None"),
    }
}

#[test]
fn single_let_with_any_value() {
    let (p, errors) = parse("let answer = foo(1, 2) + !x * (3 - 4) == y;");
    assert!(errors.is_empty(), "{:?}", errors);
    assert_eq!(p.statements.len(), 1);
    test_let_statement(&p.statements[0], "answer");
    assert_eq!(p.print(), "let answer = None;");
}

#[test]
fn single_return_with_any_value() {
    let (p, errors) = parse("return fn(x) { x } (1, 2);");
    assert!(errors.is_empty(), "{:?}", errors);
    assert_eq!(p.statements.len(), 1);
    assert_eq!(p.statements[0].token_literal(), "return");
    assert!(matches!(p.statements[0], StatementNode::Return(_)));
    assert_eq!(p.statements[0].print(), "return None;");
}

#[test]
fn let_without_name_gives_one_diagnostic() {
    let (p, errors) = parse("let = 5;");
    assert_eq!(p.statements.len(), 0);
    assert_eq!(errors, vec!["expected next token to be Ident, got = instead".to_string()]);
}

#[test]
fn let_without_assign_gives_one_diagnostic() {
    let (p, errors) = parse("let x 5;");
    assert_eq!(p.statements.len(), 0);
    assert_eq!(errors, vec!["expected next token to be =, got Int instead".to_string()]);
}

#[test]
fn let_at_end_of_input() {
    let (p, errors) = parse("let");
    assert_eq!(p.statements.len(), 0);
    assert_eq!(errors, vec!["expected next token to be Ident, got EOF instead".to_string()]);
    let (p, errors) = parse("let x");
    assert_eq!(p.statements.len(), 0);
    assert_eq!(errors, vec!["expected next token to be =, got EOF instead".to_string()]);
}

#[test]
fn bad_statement_does_not_stop_the_rest() {
    let (p, errors) = parse("let = 1; let y = 2; let 3; return y;");
    assert_eq!(
        errors,
        vec![
            "expected next token to be Ident, got = instead".to_string(),
            "expected next token to be Ident, got Int instead".to_string(),
        ]
    );
    assert_eq!(p.statements.len(), 2);
    test_let_statement(&p.statements[0], "y");
    assert_eq!(p.statements[1].token_literal(), "return");
    assert_eq!(p.print(), "let y = None;return None;");
}

#[test]
fn scenario_let_five() {
    let (p, errors) = parse("let five = 5;");
    assert!(errors.is_empty());
    assert_eq!(p.statements.len(), 1);
    test_let_statement(&p.statements[0], "five");
    assert_eq!(p.statements[0].print(), "let five = None;");
    assert_eq!(p.token_literal(), "let");
}

#[test]
fn scenario_equality_makes_no_statement() {
    let (p, errors) = parse("10 == 10;");
    assert_eq!(p.statements.len(), 0);
    assert!(errors.is_empty());
    assert_eq!(p.token_literal(), "");
    assert_eq!(p.print(), "");
}

#[test]
fn statements_keep_source_order() {
    let (p, errors) = parse("return a; let b = 1; x; let c = 2; return d;");
    assert!(errors.is_empty());
    let literals: Vec<String> = p.statements.iter().map(|s| s.token_literal()).collect();
    assert_eq!(literals, vec!["return", "let", "let", "return"]);
    test_let_statement(&p.statements[1], "b");
    test_let_statement(&p.statements[2], "c");
    assert_eq!(p.print(), "return None;let b = None;let c = None;return None;");
    assert_eq!(p.token_literal(), "return");
}

#[test]
fn missing_semicolon_ends_at_input_end() {
    let (p, errors) = parse("let x = 5");
    assert!(errors.is_empty());
    assert_eq!(p.statements.len(), 1);
    test_let_statement(&p.statements[0], "x");
    let (p, errors) = parse("return");
    assert!(errors.is_empty());
    assert_eq!(p.statements.len(), 1);
    assert_eq!(p.statements[0].token_literal(), "return");
}

#[test]
fn empty_input_gives_empty_program() {
    let (p, errors) = parse("");
    assert_eq!(p.statements.len(), 0);
    assert!(errors.is_empty());
}

#[test]
fn print_with_values() {
    let ident = |name: &str| Identifier {
        token: Token { kind: TokenKind::Ident, literal: name.to_string() },
        value: name.to_string(),
    };
    let let_stmt = LetStatement {
        token: Token { kind: TokenKind::Let, literal: "let".to_string() },
        name: ident("myVar"),
        value: Some(ExpressionNode::IdentifierNode(ident("anotherVar"))),
    };
    assert_eq!(let_stmt.print(), "let myVar = anotherVar;");
    let ret = ReturnStatement {
        token: Token { kind: TokenKind::Return, literal: "return".to_string() },
        return_value: Some(ExpressionNode::IdentifierNode(ident("z"))),
    };
    assert_eq!(ret.print(), "return z;");
    let expr = ExpressionNode::IdentifierNode(ident("q"));
    assert_eq!(expr.token_literal(), "q");
    assert_eq!(expr.print(), "q");
    let program = Program { statements: vec![StatementNode::Let(let_stmt), StatementNode::Return(ret)] };
    assert_eq!(program.print(), "let myVar = anotherVar;return z;");
    assert_eq!(program.token_literal(), "let");
}
