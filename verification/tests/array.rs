use plain_date::ast::ArrayLiteral;
use plain_date::ast::ContainsSymbol;
use plain_date::ast::Expression;
use plain_date::ast::Literal;

fn number(v: i32) -> Option<Expression> {
    Some(Expression::Literal(Literal::Int(v)))
}

fn text(s: &str) -> Option<Expression> {
    Some(Expression::Literal(Literal::Text(s.to_string())))
}

#[test]
fn fmt() {
    let a = ArrayLiteral::new(
        vec![number(1), number(2), number(3), text("words"), text("more words")],
        false,
    );
    assert_eq!(a.to_interned_string(), "[1, 2, 3, \"words\", \"more words\"]");
    let b = ArrayLiteral::new(vec![], false);
    assert_eq!(b.to_interned_string(), "[]");
}

#[test]
fn fmt_elision_and_nesting() {
    let with_hole = ArrayLiteral::new(vec![number(1), None, number(2)], false);
    assert_eq!(with_hole.to_interned_string(), "[1, , 2]");

    let inner = ArrayLiteral::new(vec![number(-5)], false);
    let outer = ArrayLiteral::new(vec![Some(Expression::from(inner)), number(0)], false);
    assert_eq!(outer.to_interned_string(), "[[-5], 0]");
}

#[test]
fn trailing_comma_spread_flag() {
    let with_flag = ArrayLiteral::new(vec![number(1)], true);
    assert!(with_flag.has_trailing_comma_spread());
    let without_flag = ArrayLiteral::new(vec![number(1)], false);
    assert!(!without_flag.has_trailing_comma_spread());
    let converted = ArrayLiteral::from(vec![number(1), number(2)]);
    assert!(!converted.has_trailing_comma_spread());
}

#[test]
fn contains_arguments_query() {
    let plain = ArrayLiteral::new(vec![number(1), None, text("arguments")], false);
    assert!(!plain.contains_arguments());

    let direct = ArrayLiteral::new(
        vec![number(1), Some(Expression::Identifier("arguments".to_string()))],
        false,
    );
    assert!(direct.contains_arguments());

    let nested_inner = ArrayLiteral::new(
        vec![Some(Expression::Identifier("arguments".to_string()))],
        false,
    );
    let nested = ArrayLiteral::new(vec![None, Some(Expression::from(nested_inner))], false);
    assert!(nested.contains_arguments());

    let other_name = ArrayLiteral::new(
        vec![Some(Expression::Identifier("argument".to_string()))],
        false,
    );
    assert!(!other_name.contains_arguments());
}

#[test]
fn contains_symbol_query() {
    let with_this = ArrayLiteral::new(vec![number(1), Some(Expression::This)], false);
    assert!(with_this.contains(ContainsSymbol::This));
    assert!(!with_this.contains(ContainsSymbol::NewTarget));

    let inner = ArrayLiteral::new(vec![Some(Expression::NewTarget)], false);
    let nested = ArrayLiteral::new(vec![Some(Expression::from(inner))], false);
    assert!(nested.contains(ContainsSymbol::NewTarget));
    assert!(!nested.contains(ContainsSymbol::This));

    let empty = ArrayLiteral::new(vec![], false);
    assert!(!empty.contains(ContainsSymbol::This));
}
