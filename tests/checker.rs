use ven::ast::{ASTNode, Expression, VarType, AST};
use ven::errs::VarError;
use ven::names::NameMap;
use ven::numtext::{decimal, parse_usize};
use ven::var_checker::check_variables;

fn decl(name: &str, var_type: VarType, value: Option<Expression>) -> ASTNode {
    ASTNode::VarDeclaration { mutable: false, name: name.to_string(), var_type, value }
}

fn literal(s: &str) -> Option<Expression> {
    Some(Expression::Literal(s.to_string()))
}

#[test]
fn good_initializers_pass() {
    let ast = AST::Program(vec![
        decl("a", VarType::Int, literal("-2147483648")),
        decl("b", VarType::Float, literal("1.5e3")),
        decl("c", VarType::Float, literal("-inf")),
        decl("d", VarType::String, literal("\"q\"")),
        decl("e", VarType::Char { size: 2 }, literal("'ab'")),
        decl("f", VarType::Int, None),
    ]);
    let mut map = NameMap::new();
    let errors = check_variables(&ast, &mut map);
    assert!(errors.is_empty());
    assert_eq!(map.get(&"e".to_string()), Some(&(VarType::Char { size: 2 }, 0)));
}

#[test]
fn bad_initializers_are_reported_and_typed_int() {
    let ast = AST::Program(vec![
        decl("a", VarType::Int, literal("2147483648")),
        decl("b", VarType::Float, literal("1.2.3")),
        decl("c", VarType::String, literal("plain")),
        decl("d", VarType::Char { size: 1 }, literal("'ab'")),
        decl("e", VarType::Char { size: 1 }, literal("x")),
        decl("f", VarType::Float, Some(Expression::Identifier("a".to_string()))),
    ]);
    let mut map = NameMap::new();
    let errors = check_variables(&ast, &mut map);
    assert_eq!(errors.len(), 6);
    assert!(matches!(&errors[0], VarError::VarTypeMisMatch { var_name, expected, value, line: 0 } if var_name == "a" && expected == "int" && value == "2147483648"));
    assert!(matches!(&errors[1], VarError::VarTypeMisMatch { expected, .. } if expected == "float"));
    assert!(matches!(&errors[2], VarError::TypeMismatch { expected, found, .. } if expected == "string literal enclosed in double quotes" && found == "plain"));
    assert!(matches!(&errors[3], VarError::TypeMismatch { expected, found, .. } if expected == "char literal of size 1" && found == "char literal of size 2"));
    assert!(matches!(&errors[4], VarError::TypeMismatch { expected, .. } if expected == "char literal enclosed in single quotes"));
    assert!(matches!(&errors[5], VarError::TypeMismatch { expected, found, .. } if expected == "Float" && found == "Identifier(\"a\")"));
    assert_eq!(map.get(&"d".to_string()), Some(&(VarType::Int, 0)));
}

#[test]
fn decimal_text_round_trips() {
    assert_eq!(decimal(0), "0");
    assert_eq!(decimal(9012), "9012");
    assert_eq!(parse_usize(&"9012".chars().collect()), Some(9012));
    assert_eq!(parse_usize(&"".chars().collect()), None);
    assert_eq!(parse_usize(&"1a".chars().collect()), None);
    assert_eq!(parse_usize(&"99999999999999999999999".chars().collect()), None);
}
