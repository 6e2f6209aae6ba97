use tang::ast::{ExpressionNode, StatementNode};
use tang::diagnostic::DiagnosticKind;
use tang::parser::Parser;
use tang::token::{Pos, Token, TokenType};
use tang::types::{TypeMode, TypeNode};

fn tok(kind: TokenType, lexeme: &str) -> Token {
    Token {
        kind,
        lexeme: lexeme.to_string(),
        pos: Pos { line: 1, line_len: 80, start: 0, end: 1 },
    }
}

fn id(s: &str) -> Token {
    tok(TokenType::Identifier, s)
}

fn sym(s: &str) -> Token {
    tok(TokenType::Symbol, s)
}

fn op(s: &str) -> Token {
    tok(TokenType::Operator, s)
}

fn num(s: &str) -> Token {
    tok(TokenType::Int, s)
}

fn kw(s: &str) -> Token {
    tok(TokenType::Keyword, s)
}

fn eol() -> Token {
    tok(TokenType::EOL, "\n")
}

fn parse_all(tokens: Vec<Token>) -> Vec<tang::ast::Statement> {
    let mut parser = Parser::new(tokens, "<test>");
    parser.parse().expect("parse should succeed")
}

#[test]
fn empty_stream_parses_to_nothing() {
    assert_eq!(parse_all(Vec::new()).len(), 0);
}

#[test]
fn declaration_with_type_and_initializer() {
    // a: int = 10
    let ast = parse_all(vec![id("a"), sym(":"), id("int"), sym("="), num("10"), eol()]);
    assert_eq!(ast.len(), 1);
    match &ast[0].node {
        StatementNode::Variable(t, name, Some(init)) => {
            assert_eq!(name, "a");
            assert!(matches!(t.node, TypeNode::Int));
            assert!(matches!(t.mode, TypeMode::Regular));
            assert!(matches!(init.node, ExpressionNode::Int(10)));
        },
        other => panic!("expected a declaration, got {:?}", other),
    }
}

#[test]
fn declaration_without_initializer_keeps_declared_type() {
    // flag: bool
    let ast = parse_all(vec![id("flag"), sym(":"), id("bool"), eol()]);
    match &ast[0].node {
        StatementNode::Variable(t, name, None) => {
            assert_eq!(name, "flag");
            assert!(matches!(t.node, TypeNode::Bool));
        },
        other => panic!("expected a declaration, got {:?}", other),
    }
}

#[test]
fn inferred_declaration_with_index_initializer() {
    // a: int = 10 \n b := a[1]
    let ast = parse_all(vec![
        id("a"), sym(":"), id("int"), sym("="), num("10"), eol(),
        id("b"), sym(":"), sym("="), id("a"), sym("["), num("1"), sym("]"), eol(),
    ]);
    assert_eq!(ast.len(), 2);
    match &ast[1].node {
        StatementNode::Variable(t, name, Some(init)) => {
            assert_eq!(name, "b");
            // The `def` shorthand fails, the backtrack falls through, and the
            // type is left to inference: the Nil sentinel.
            assert!(matches!(t.node, TypeNode::Nil));
            match &init.node {
                ExpressionNode::Index(base, subscript) => {
                    assert!(matches!(&base.node, ExpressionNode::Identifier(n) if n == "a"));
                    assert!(matches!(subscript.node, ExpressionNode::Int(1)));
                },
                other => panic!("expected an index expression, got {:?}", other),
            }
        },
        other => panic!("expected a declaration, got {:?}", other),
    }
}

#[test]
fn declaration_with_folded_array_length() {
    // a: [int; 1 + 2] = [1, 2, 3]
    let ast = parse_all(vec![
        id("a"), sym(":"), sym("["), id("int"), sym(";"), num("1"), op("+"), num("2"),
        sym("]"), sym("="), sym("["), num("1"), sym(","), num("2"), sym(","), num("3"),
        sym("]"), eol(),
    ]);
    match &ast[0].node {
        StatementNode::Variable(t, name, Some(init)) => {
            assert_eq!(name, "a");
            match &t.node {
                TypeNode::Array(element, len) => {
                    assert!(matches!(element.node, TypeNode::Int));
                    assert_eq!(*len, Some(3));
                },
                other => panic!("expected an array type, got {:?}", other),
            }
            match &init.node {
                ExpressionNode::Array(elements) => {
                    assert_eq!(elements.len(), 3);
                    assert!(matches!(elements[2].node, ExpressionNode::Int(3)));
                },
                other => panic!("expected an array literal, got {:?}", other),
            }
        },
        other => panic!("expected a declaration, got {:?}", other),
    }
}

#[test]
fn function_literal_shorthand_declaration() {
    // foo: def(a: int, b: int) -> int { return 100 }
    let ast = parse_all(vec![
        id("foo"), sym(":"), kw("def"), sym("("), id("a"), sym(":"), id("int"), sym(","),
        id("b"), sym(":"), id("int"), sym(")"), sym("->"), id("int"), sym("{"), eol(),
        kw("return"), num("100"), eol(), sym("}"), eol(),
    ]);
    assert_eq!(ast.len(), 1);
    match &ast[0].node {
        StatementNode::Variable(t, name, Some(init)) => {
            assert_eq!(name, "foo");
            // The shorthand leaves the declared type to inference.
            assert!(matches!(t.node, TypeNode::Nil));
            match &init.node {
                ExpressionNode::Function(params, retty, body, generics) => {
                    assert_eq!(params.len(), 2);
                    assert_eq!(params[0].0, "a");
                    assert!(matches!(params[0].1.node, TypeNode::Int));
                    assert_eq!(params[1].0, "b");
                    assert!(matches!(params[1].1.node, TypeNode::Int));
                    assert!(matches!(retty.node, TypeNode::Int));
                    assert_eq!(generics.as_ref().unwrap().len(), 0);
                    match &body.node {
                        ExpressionNode::Block(statements) => {
                            assert_eq!(statements.len(), 1);
                            match &statements[0].node {
                                StatementNode::Return(Some(value)) => {
                                    assert!(matches!(value.node, ExpressionNode::Int(100)));
                                },
                                other => panic!("expected a return, got {:?}", other),
                            }
                        },
                        other => panic!("expected a block body, got {:?}", other),
                    }
                },
                other => panic!("expected a function literal, got {:?}", other),
            }
        },
        other => panic!("expected a declaration, got {:?}", other),
    }
}

#[test]
fn generics_and_splat_parameter() {
    // print: def<T>(..a: T) { () }
    let ast = parse_all(vec![
        id("print"), sym(":"), kw("def"), op("<"), id("T"), op(">"), sym("("), sym(".."),
        id("a"), sym(":"), id("T"), sym(")"), sym("{"), eol(), sym("("), sym(")"), eol(),
        sym("}"), eol(),
    ]);
    match &ast[0].node {
        StatementNode::Variable(_, _, Some(init)) => match &init.node {
            ExpressionNode::Function(params, retty, _, generics) => {
                assert_eq!(generics.as_ref().unwrap(), &vec!["T".to_string()]);
                assert_eq!(params.len(), 1);
                assert_eq!(params[0].0, "a");
                assert!(matches!(params[0].1.node, TypeNode::Id(ref n) if n == "T"));
                assert!(matches!(params[0].1.mode, TypeMode::Splat(None)));
                assert!(matches!(retty.node, TypeNode::Nil));
            },
            other => panic!("expected a function literal, got {:?}", other),
        },
        other => panic!("expected a declaration, got {:?}", other),
    }
}

#[test]
fn nested_delimiters_split_exactly() {
    // [1, [2, 3], 4] followed by another statement: the block-splitting
    // primitive must leave the cursor right after each matching close for
    // both statements to parse.
    let ast = parse_all(vec![
        sym("["), num("1"), sym(","), sym("["), num("2"), sym(","), num("3"), sym("]"),
        sym(","), num("4"), sym("]"), eol(),
        id("x"), sym("="), num("5"), eol(),
    ]);
    assert_eq!(ast.len(), 2);
    match &ast[0].node {
        StatementNode::Expression(e) => match &e.node {
            ExpressionNode::Array(elements) => {
                assert_eq!(elements.len(), 3);
                assert!(matches!(elements[0].node, ExpressionNode::Int(1)));
                match &elements[1].node {
                    ExpressionNode::Array(inner) => {
                        assert_eq!(inner.len(), 2);
                        assert!(matches!(inner[0].node, ExpressionNode::Int(2)));
                        assert!(matches!(inner[1].node, ExpressionNode::Int(3)));
                    },
                    other => panic!("expected a nested array, got {:?}", other),
                }
                assert!(matches!(elements[2].node, ExpressionNode::Int(4)));
            },
            other => panic!("expected an array literal, got {:?}", other),
        },
        other => panic!("expected an expression statement, got {:?}", other),
    }
    assert!(matches!(ast[1].node, StatementNode::Assignment(_, _)));
}

#[test]
fn assignment_to_identifier_and_to_expression() {
    // x = 1 \n a[0] = 2
    let ast = parse_all(vec![
        id("x"), sym("="), num("1"), eol(),
        id("a"), sym("["), num("0"), sym("]"), sym("="), num("2"), eol(),
    ]);
    match &ast[0].node {
        StatementNode::Assignment(target, value) => {
            assert!(matches!(&target.node, ExpressionNode::Identifier(n) if n == "x"));
            assert!(matches!(value.node, ExpressionNode::Int(1)));
        },
        other => panic!("expected an assignment, got {:?}", other),
    }
    match &ast[1].node {
        StatementNode::Assignment(target, value) => {
            assert!(matches!(target.node, ExpressionNode::Index(_, _)));
            assert!(matches!(value.node, ExpressionNode::Int(2)));
        },
        other => panic!("expected an assignment, got {:?}", other),
    }
}

#[test]
fn bare_return_and_return_with_value() {
    let ast = parse_all(vec![
        kw("return"), eol(),
        kw("return"), num("1"), eol(),
    ]);
    assert!(matches!(ast[0].node, StatementNode::Return(None)));
    match &ast[1].node {
        StatementNode::Return(Some(value)) => {
            assert!(matches!(value.node, ExpressionNode::Int(1)));
        },
        other => panic!("expected a return with value, got {:?}", other),
    }
}

#[test]
fn literal_atoms() {
    let ast = parse_all(vec![
        tok(TokenType::Float, "3.25"), eol(),
        tok(TokenType::Char, "c"), eol(),
        tok(TokenType::Str, "hey"), eol(),
        tok(TokenType::Bool, "true"), eol(),
        tok(TokenType::Bool, "false"), eol(),
        num("18446744073709551615"), eol(),
    ]);
    let nodes: Vec<&ExpressionNode> = ast
        .iter()
        .map(|s| match &s.node {
            StatementNode::Expression(e) => &e.node,
            other => panic!("expected an expression statement, got {:?}", other),
        })
        .collect();
    assert!(matches!(nodes[0], ExpressionNode::Float(f) if f == "3.25"));
    assert!(matches!(nodes[1], ExpressionNode::Char('c')));
    assert!(matches!(nodes[2], ExpressionNode::Str(s) if s == "hey"));
    assert!(matches!(nodes[3], ExpressionNode::Bool(true)));
    assert!(matches!(nodes[4], ExpressionNode::Bool(false)));
    assert!(matches!(nodes[5], ExpressionNode::Int(18446744073709551615)));
}

#[test]
fn postfix_call_cast_and_unwrap() {
    // foo(x)(1) as int \n *a
    let ast = parse_all(vec![
        id("foo"), sym("("), id("x"), sym(")"), sym("("), num("1"), sym(")"), kw("as"),
        id("int"), eol(),
        op("*"), id("a"), eol(),
    ]);
    match &ast[0].node {
        StatementNode::Expression(e) => match &e.node {
            ExpressionNode::Cast(inner, t) => {
                assert!(matches!(t.node, TypeNode::Int));
                match &inner.node {
                    ExpressionNode::Call(callee, args) => {
                        assert_eq!(args.len(), 1);
                        assert!(matches!(args[0].node, ExpressionNode::Int(1)));
                        assert!(matches!(callee.node, ExpressionNode::Call(_, _)));
                    },
                    other => panic!("expected a call, got {:?}", other),
                }
            },
            other => panic!("expected a cast, got {:?}", other),
        },
        other => panic!("expected an expression statement, got {:?}", other),
    }
    match &ast[1].node {
        StatementNode::Expression(e) => assert!(matches!(e.node, ExpressionNode::Unwrap(_))),
        other => panic!("expected an expression statement, got {:?}", other),
    }
}

#[test]
fn unit_parenthesized_and_block_expressions() {
    // () \n (7) \n { 1 \n }
    let ast = parse_all(vec![
        sym("("), sym(")"), eol(),
        sym("("), num("7"), sym(")"), eol(),
        sym("{"), eol(), num("1"), eol(), sym("}"), eol(),
    ]);
    match &ast[0].node {
        StatementNode::Expression(e) => assert!(matches!(e.node, ExpressionNode::Empty)),
        other => panic!("expected an expression statement, got {:?}", other),
    }
    match &ast[1].node {
        // A parenthesized expression is the expression itself, unwrapped.
        StatementNode::Expression(e) => assert!(matches!(e.node, ExpressionNode::Int(7))),
        other => panic!("expected an expression statement, got {:?}", other),
    }
    match &ast[2].node {
        StatementNode::Expression(e) => match &e.node {
            ExpressionNode::Block(statements) => assert_eq!(statements.len(), 1),
            other => panic!("expected a block, got {:?}", other),
        },
        other => panic!("expected an expression statement, got {:?}", other),
    }
}

#[test]
fn if_elif_else_chain() {
    // if x { 1 \n } elif y { 2 \n } else { 3 \n }
    let ast = parse_all(vec![
        kw("if"), id("x"), sym("{"), eol(), num("1"), eol(), sym("}"),
        kw("elif"), id("y"), sym("{"), eol(), num("2"), eol(), sym("}"),
        kw("else"), sym("{"), eol(), num("3"), eol(), sym("}"), eol(),
    ]);
    match &ast[0].node {
        StatementNode::Expression(e) => match &e.node {
            ExpressionNode::If(condition, body, elses) => {
                assert!(matches!(&condition.node, ExpressionNode::Identifier(n) if n == "x"));
                assert!(matches!(body.node, ExpressionNode::Block(_)));
                let elses = elses.as_ref().unwrap();
                assert_eq!(elses.len(), 2);
                assert!(elses[0].0.is_some());
                assert!(elses[1].0.is_none());
            },
            other => panic!("expected an if expression, got {:?}", other),
        },
        other => panic!("expected an expression statement, got {:?}", other),
    }
}

#[test]
fn missing_terminator_is_reported() {
    let mut parser = Parser::new(vec![id("a"), sym("="), num("1"), id("b")], "<test>");
    let err = parser.parse().unwrap_err();
    assert!(matches!(err.kind, DiagnosticKind::ExpectedNewLine(found) if found == "b"));
}

#[test]
fn unexpected_keyword_is_reported() {
    let mut parser = Parser::new(vec![kw("else"), eol()], "<test>");
    let err = parser.parse().unwrap_err();
    assert!(matches!(err.kind, DiagnosticKind::UnexpectedKeyword(k) if k == "else"));
}

#[test]
fn unexpected_symbol_is_reported() {
    let mut parser = Parser::new(vec![sym(")"), eol()], "<test>");
    let err = parser.parse().unwrap_err();
    assert!(matches!(err.kind, DiagnosticKind::UnexpectedSymbol(s) if s == ")"));
}

#[test]
fn dangling_operator_is_reported() {
    // `1 * 2 +` ends while the engine still needs a right operand.
    let mut parser = Parser::new(vec![num("1"), op("*"), num("2"), op("+")], "<test>");
    let err = parser.parse().unwrap_err();
    assert!(matches!(err.kind, DiagnosticKind::EofInOperation));
}

#[test]
fn non_integer_array_length_is_reported() {
    // a: [int; x] = 1
    let mut parser = Parser::new(
        vec![id("a"), sym(":"), sym("["), id("int"), sym(";"), id("x"), sym("]"), eol()],
        "<test>",
    );
    let err = parser.parse().unwrap_err();
    assert!(matches!(err.kind, DiagnosticKind::ArrayLengthNotInt));
}

#[test]
fn function_type_in_declaration() {
    // f: (int, bool) -> str
    let ast = parse_all(vec![
        id("f"), sym(":"), sym("("), id("int"), sym(","), id("bool"), sym(")"), sym("->"),
        id("str"), eol(),
    ]);
    match &ast[0].node {
        StatementNode::Variable(t, _, None) => match &t.node {
            TypeNode::Func(params, ret) => {
                assert_eq!(params.len(), 2);
                assert!(matches!(params[0].node, TypeNode::Int));
                assert!(matches!(params[1].node, TypeNode::Bool));
                assert!(matches!(ret.node, TypeNode::Str));
            },
            other => panic!("expected a function type, got {:?}", other),
        },
        other => panic!("expected a declaration, got {:?}", other),
    }
}

#[test]
fn missing_close_parenthesis_is_reported() {
    // `(1` runs out before the closing parenthesis.
    let mut parser = Parser::new(vec![sym("("), num("1")], "<test>");
    let err = parser.parse().unwrap_err();
    assert!(matches!(err.kind, DiagnosticKind::Expected(e, f) if e == ")" && f == "1"));
}

#[test]
fn literal_in_type_position_is_reported() {
    // a: 5
    let mut parser = Parser::new(vec![id("a"), sym(":"), num("5"), eol()], "<test>");
    let err = parser.parse().unwrap_err();
    assert!(matches!(err.kind, DiagnosticKind::ExpectedTypeExpression(f) if f == "5"));
}

#[test]
fn stray_symbol_in_type_position_is_reported() {
    // a: ,
    let mut parser = Parser::new(vec![id("a"), sym(":"), sym(","), eol()], "<test>");
    let err = parser.parse().unwrap_err();
    assert!(matches!(err.kind, DiagnosticKind::UnexpectedSymbolInType(f) if f == ","));
}

#[test]
fn literal_parameter_name_is_reported() {
    // f: def(1: int) { }
    let mut parser = Parser::new(
        vec![
            id("f"), sym(":"), kw("def"), sym("("), num("1"), sym(":"), id("int"), sym(")"),
            sym("{"), eol(), sym("}"), eol(),
        ],
        "<test>",
    );
    let err = parser.parse().unwrap_err();
    assert!(matches!(
        err.kind,
        DiagnosticKind::ExpectedTokenType(TokenType::Identifier, TokenType::Int)
    ));
}

#[test]
fn blank_line_inside_an_array_element_is_reported() {
    // [ \n \n 1 ] — the element grammar skips one newline per side, so the
    // second one derails the element, and the separator scan that still runs
    // afterwards reports the missing comma.
    let mut parser = Parser::new(
        vec![sym("["), eol(), eol(), num("1"), sym("]"), eol()],
        "<test>",
    );
    let err = parser.parse().unwrap_err();
    assert!(matches!(err.kind, DiagnosticKind::Expected(e, f) if e == "," && f == "1"));
}

#[test]
fn cursor_running_off_the_stream_is_reported() {
    // `1 +` with nothing after the trailing operator.
    let mut parser = Parser::new(vec![num("1"), op("+")], "<test>");
    let err = parser.parse().unwrap_err();
    assert!(matches!(err.kind, DiagnosticKind::OutsideTokenStack));
}

#[test]
fn end_of_line_in_expression_position_is_reported() {
    // `*` needs an operand, but the line ends.
    let mut parser = Parser::new(vec![op("*"), eol()], "<test>");
    let err = parser.parse().unwrap_err();
    assert!(matches!(err.kind, DiagnosticKind::UnexpectedToken(TokenType::EOL)));
}

#[test]
fn empty_function_literal_shorthand() {
    // f: def() { }
    let ast = parse_all(vec![
        id("f"), sym(":"), kw("def"), sym("("), sym(")"), sym("{"), sym("}"), eol(),
    ]);
    match &ast[0].node {
        StatementNode::Variable(t, name, Some(init)) => {
            assert_eq!(name, "f");
            assert!(matches!(t.node, TypeNode::Nil));
            match &init.node {
                ExpressionNode::Function(params, retty, body, generics) => {
                    assert_eq!(params.len(), 0);
                    assert!(matches!(retty.node, TypeNode::Nil));
                    assert_eq!(generics.as_ref().unwrap().len(), 0);
                    assert!(matches!(&body.node, ExpressionNode::Block(ss) if ss.is_empty()));
                },
                other => panic!("expected a function literal, got {:?}", other),
            }
        },
        other => panic!("expected a declaration, got {:?}", other),
    }
}
