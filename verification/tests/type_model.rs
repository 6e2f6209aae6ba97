use tang::ast::{Expression, ExpressionNode};
use tang::token::Pos;
use tang::types::{Type, TypeMode, TypeNode};

fn mode(i: usize) -> TypeMode {
    match i {
        0 => TypeMode::Undeclared,
        1 => TypeMode::Immutable,
        2 => TypeMode::Optional,
        3 => TypeMode::Regular,
        _ => TypeMode::Splat(None),
    }
}

#[test]
fn qualifier_compatibility_table_is_total_and_exact() {
    // Expected truth table, rows = left operand, columns = right operand,
    // order: Undeclared, Immutable, Optional, Regular, Splat.
    let expected = [
        [false, false, true, false, false], // Undeclared: only the Optional column
        [false, true, true, true, false],   // Immutable
        [true, true, true, true, true],     // Optional absorbs everything
        [false, true, true, true, false],   // Regular
        [false, false, true, false, true],  // Splat
    ];
    for i in 0..5 {
        for j in 0..5 {
            let a = mode(i);
            let b = mode(j);
            assert_eq!(
                a.compatible(&b),
                expected[i][j],
                "row {} col {}",
                i,
                j
            );
        }
    }
}

#[test]
fn qualifier_check_is_strict_sameness() {
    for i in 0..5 {
        for j in 0..5 {
            assert_eq!(mode(i).check(&mode(j)), i == j);
        }
    }
}

#[test]
fn shape_equality_on_primitives_and_names() {
    assert!(TypeNode::Int.shape_eq(&TypeNode::Int));
    assert!(!TypeNode::Int.shape_eq(&TypeNode::Float));
    assert!(TypeNode::Nil.shape_eq(&TypeNode::Nil));
    assert!(TypeNode::Id("Point".to_string()).shape_eq(&TypeNode::Id("Point".to_string())));
    assert!(!TypeNode::Id("Point".to_string()).shape_eq(&TypeNode::Id("Line".to_string())));
}

#[test]
fn shape_equality_ignores_top_level_qualifier() {
    let a = Type::new(TypeNode::Int, TypeMode::Immutable);
    let b = Type::new(TypeNode::Int, TypeMode::Regular);
    // Mutually compatible qualifiers and equal shapes: compatible both ways.
    assert!(a.compatible(&b));
    assert!(b.compatible(&a));
    let u = Type::new(TypeNode::Int, TypeMode::Undeclared);
    assert!(!u.compatible(&b));
}

#[test]
fn array_shapes_compare_element_and_length() {
    let a = TypeNode::Array(Box::new(Type::from(TypeNode::Int)), Some(3));
    let b = TypeNode::Array(Box::new(Type::from(TypeNode::Int)), Some(3));
    let c = TypeNode::Array(Box::new(Type::from(TypeNode::Int)), Some(4));
    let d = TypeNode::Array(Box::new(Type::from(TypeNode::Bool)), Some(3));
    assert!(a.shape_eq(&b));
    assert!(!a.shape_eq(&c));
    assert!(!a.shape_eq(&d));
}

#[test]
fn tuple_shapes_compare_elementwise() {
    let a = TypeNode::Tuple(vec![Type::from(TypeNode::Int), Type::from(TypeNode::Str)]);
    let b = TypeNode::Tuple(vec![Type::from(TypeNode::Int), Type::from(TypeNode::Str)]);
    let c = TypeNode::Tuple(vec![Type::from(TypeNode::Int)]);
    assert!(a.shape_eq(&b));
    assert!(!a.shape_eq(&c));
}

#[test]
fn function_shapes_never_compare_equal() {
    let f = || TypeNode::Func(vec![Type::from(TypeNode::Int)], Box::new(Type::from(TypeNode::Int)));
    assert!(!f().shape_eq(&f()));
}

#[test]
fn literal_check_against_shapes() {
    let int_lit = ExpressionNode::Int(3);
    assert!(TypeNode::Int.check_expression(&int_lit));
    assert!(TypeNode::Float.check_expression(&int_lit));
    assert!(!TypeNode::Bool.check_expression(&int_lit));
    assert!(!TypeNode::Int.check_expression(&ExpressionNode::Empty));

    let arr = ExpressionNode::Array(vec![
        Expression::new(
            ExpressionNode::Int(1),
            Pos { line: 1, line_len: 10, start: 0, end: 1 },
        ),
    ]);
    let int_array = TypeNode::Array(Box::new(Type::from(TypeNode::Int)), Some(1));
    let bool_array = TypeNode::Array(Box::new(Type::from(TypeNode::Bool)), Some(1));
    assert!(int_array.check_expression(&arr));
    assert!(!bool_array.check_expression(&arr));
    // A non-array shape does not question an array literal.
    assert!(TypeNode::Str.check_expression(&arr));
}

#[test]
fn type_rendering() {
    assert_eq!(Type::from(TypeNode::Int).text(), "int");
    assert_eq!(Type::from(TypeNode::Float).text(), "double");
    assert_eq!(Type::from(TypeNode::Str).text(), "string");
    assert_eq!(Type::new(TypeNode::Bool, TypeMode::Immutable).text(), "constant bool");
    assert_eq!(Type::new(TypeNode::Nil, TypeMode::Optional).text(), "optional nil");
    assert_eq!(Type::new(TypeNode::Char, TypeMode::Undeclared).text(), "undeclared char");
    assert_eq!(Type::array(Type::from(TypeNode::Int), Some(3)).text(), "[int]");
    assert_eq!(
        Type::function(
            vec![Type::from(TypeNode::Int), Type::from(TypeNode::Str)],
            Type::from(TypeNode::Bool),
        )
        .text(),
        "(int, string) bool"
    );
    assert_eq!(
        Type::set(vec![Type::from(TypeNode::Int), Type::from(TypeNode::Int)]).text(),
        "(int, int)"
    );
    assert_eq!(Type::id("Point").text(), "Point");
}
