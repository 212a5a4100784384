use ven::ast::{ASTNode, ComparisonOperator, Expression, LogicalOperator, MathOperator, VarType, AST};
use ven::condition::parse_condition;
use ven::errs::VarError;
use ven::parser::parse_source;
use ven::pipeline::{compile, Target};
use ven::token::Tokenizer;

fn nodes(ast: &AST) -> &Vec<ASTNode> {
    match ast {
        AST::Program(v) => v,
    }
}

fn lit(e: &Option<Expression>) -> Option<String> {
    match e {
        Some(Expression::Literal(s)) => Some(s.clone()),
        _ => None,
    }
}

#[test]
fn parse_declaration_math_and_print() {
    let (ast, map, errors) = parse_source("@ x i 5\n* x + 3\n>> {x}\n");
    assert!(errors.is_empty());
    let n = nodes(&ast);
    assert_eq!(n.len(), 3);
    match &n[0] {
        ASTNode::VarDeclaration { mutable, name, var_type, value } => {
            assert!(!*mutable);
            assert_eq!(name, "x");
            assert_eq!(*var_type, VarType::Int);
            assert_eq!(lit(value), Some("5".to_string()));
        }
        _ => panic!("expected a declaration"),
    }
    match &n[1] {
        ASTNode::MathOp { name, operator, operand } => {
            assert_eq!(name, "x");
            assert_eq!(*operator, MathOperator::Add);
            assert!(matches!(operand, Expression::Literal(s) if s == "3"));
        }
        _ => panic!("expected a math statement"),
    }
    match &n[2] {
        ASTNode::Print { to_stderr, expr } => {
            assert!(!*to_stderr);
            assert_eq!(lit(expr), Some("{x}".to_string()));
        }
        _ => panic!("expected a print"),
    }
    assert_eq!(map.get(&"x".to_string()), Some(&(VarType::Int, 0)));
}

#[test]
fn parse_missing_close_paren_reports_once() {
    let (_ast, _map, errors) = parse_source("? (x > 5\n>> big\n}\n");
    assert_eq!(errors.len(), 1);
    assert!(matches!(errors[0], VarError::MissingConditionCloseParen { line: 0 }));
    assert!(compile("? (x > 5\n>> big\n}\n", Target::C).is_err());
}

#[test]
fn parse_undeclared_placeholder() {
    let (_ast, _map, errors) = parse_source(">> value {x}\n");
    assert_eq!(errors.len(), 1);
    assert!(matches!(&errors[0], VarError::UndeclaredVariable { name, line: 0 } if name == "x"));
    match compile(">> value {x}\n", Target::Rust) {
        Err(e) => assert_eq!(e.len(), 1),
        Ok(_) => panic!("no output is owed"),
    }
}

#[test]
fn parse_undeclared_input_and_math_targets() {
    let (_ast, _map, errors) = parse_source(".. y\n");
    assert_eq!(errors.len(), 1);
    assert!(matches!(&errors[0], VarError::UndeclaredVariable { name, .. } if name == "y"));
    let (_ast, _map, errors) = parse_source("\n* z + 1\n");
    assert_eq!(errors.len(), 1);
    assert!(matches!(&errors[0], VarError::UndeclaredVariable { name, line: 1 } if name == "z"));
    let (_ast, _map, errors) = parse_source("> w\n");
    assert_eq!(errors.len(), 1);
}

#[test]
fn parse_declared_uses_have_no_errors() {
    let (ast, _map, errors) = parse_source("@@ n i 1\n.. n\n* n * 2\n>>> {n}\n");
    assert!(errors.is_empty());
    let n = nodes(&ast);
    assert!(matches!(&n[0], ASTNode::VarDeclaration { mutable: true, .. }));
    assert!(matches!(&n[1], ASTNode::Input { name } if name == "n"));
    assert!(matches!(&n[2], ASTNode::MathOp { operator: MathOperator::Multiply, .. }));
    assert!(matches!(&n[3], ASTNode::Print { to_stderr: true, .. }));
}

#[test]
fn parse_string_and_char_declarations_strip_quotes() {
    let (ast, _map, errors) = parse_source("@ s str \"hi there\"\n@ c c [ 3 ] 'abc'\n");
    assert!(errors.is_empty());
    let n = nodes(&ast);
    match &n[0] {
        ASTNode::VarDeclaration { var_type, value, .. } => {
            assert_eq!(*var_type, VarType::String);
            assert_eq!(lit(value), Some("hi there".to_string()));
        }
        _ => panic!("expected a declaration"),
    }
    match &n[1] {
        ASTNode::VarDeclaration { var_type, value, .. } => {
            assert_eq!(*var_type, VarType::Char { size: 3 });
            assert_eq!(lit(value), Some("abc".to_string()));
        }
        _ => panic!("expected a declaration"),
    }
}

#[test]
fn parse_declaration_with_identifier_and_float() {
    let (ast, _map, errors) = parse_source("@ a f 1.5\n@ b i a\n");
    assert!(errors.is_empty());
    let n = nodes(&ast);
    assert!(matches!(&n[0], ASTNode::VarDeclaration { value: Some(Expression::Literal(v)), .. } if v == "1.5"));
    assert!(matches!(&n[1], ASTNode::VarDeclaration { value: Some(Expression::Identifier(v)), .. } if v == "a"));
}

#[test]
fn parse_unknown_type_gives_no_declaration() {
    let (ast, map, _errors) = parse_source("@ x q 5\n");
    assert!(nodes(&ast).iter().all(|n| !matches!(n, ASTNode::VarDeclaration { .. })));
    assert!(map.get(&"x".to_string()).is_none());
}

#[test]
fn parse_conditional_with_body() {
    let (ast, _map, errors) = parse_source("@ x i 5\n? (x > 3) {\n>> big\n}\n>> done\n");
    assert!(errors.is_empty());
    let n = nodes(&ast);
    assert_eq!(n.len(), 3);
    match &n[1] {
        ASTNode::If { condition, body } => {
            match condition {
                Expression::BinaryOp { left, operator, right } => {
                    assert!(matches!(&**left, Expression::Identifier(s) if s == "x"));
                    assert_eq!(*operator, ComparisonOperator::GreaterThan);
                    assert!(matches!(&**right, Expression::Literal(s) if s == "3"));
                }
                _ => panic!("expected a comparison"),
            }
            assert_eq!(body.len(), 1);
            assert!(matches!(&body[0], ASTNode::Print { expr: Some(Expression::Literal(s)), .. } if s == "big"));
        }
        _ => panic!("expected a conditional"),
    }
    assert!(matches!(&n[2], ASTNode::Print { expr: Some(Expression::Literal(s)), .. } if s == "done"));
}

#[test]
fn parse_conditional_structural_errors() {
    let (_a, _m, e) = parse_source("? x\n");
    assert!(e.len() == 1 && matches!(e[0], VarError::MissingConditionOpenParen { line: 0 }));
    let (_a, _m, e) = parse_source("\n? (x) >> a\n");
    assert!(e.len() == 1 && matches!(e[0], VarError::MissingBlockOpenBrace { line: 1 }));
    let (_a, _m, e) = parse_source("? (x) {\n>> a\n");
    assert!(e.len() == 1 && matches!(e[0], VarError::UnmatchedClosingBrace { line: 0 }));
    let (_a, _m, e) = parse_source("? () {\n}\n");
    assert!(e.len() == 1 && matches!(&e[0], VarError::InvalidCondition { details, line: 0 } if details == "Empty condition"));
}

fn condition_of(src: &str) -> Result<Expression, String> {
    let mut t = Tokenizer::new(src);
    let toks = t.tokenize().to_vec();
    let input: Vec<char> = src.chars().collect();
    parse_condition(&toks, 0, toks.len(), &input, 0)
}

#[test]
fn condition_splits_at_first_connective() {
    match condition_of("a > 1 && b < 2 || c == 3") {
        Ok(Expression::LogicalOp { left, operator, right }) => {
            assert_eq!(operator, LogicalOperator::And);
            assert!(matches!(*left, Expression::BinaryOp { operator: ComparisonOperator::GreaterThan, .. }));
            assert!(matches!(*right, Expression::LogicalOp { operator: LogicalOperator::Or, .. }));
        }
        _ => panic!("expected a conjunction"),
    }
}

#[test]
fn condition_errors_name_the_position() {
    assert_eq!(condition_of("> 1").err(), Some("Comparison operator at position 0 is missing operands".to_string()));
    assert_eq!(condition_of("a &&").err(), Some("Invalid right side of AND: Empty condition".to_string()));
    assert_eq!(condition_of("|| a").err(), Some("Invalid left side of OR: Empty condition".to_string()));
    assert!(matches!(condition_of("flag"), Ok(Expression::Identifier(s)) if s == "flag"));
    assert!(matches!(condition_of(" 12 "), Ok(Expression::Literal(s)) if s == "12"));
}

#[test]
fn parse_global_position_and_line_number() {
    let src = "a\nb";
    let mut t = Tokenizer::new(src);
    let toks = t.tokenize().to_vec();
    let input: Vec<char> = src.chars().collect();
    let state = ven::parser::ParserState {
        tokens: &toks,
        input: &input,
        pos: 2,
        end: toks.len(),
        global_var_map: ven::names::NameMap::new(),
        errors: Vec::new(),
        global_pos: 10,
    };
    assert_eq!(state.get_line_number(2), 2);
    assert_eq!(state.get_line_number(0), 1);
    assert_eq!(state.get_line_number(9), 0);
    assert_eq!(state.get_global_pos(), 2 + 2 + 10);
}

#[test]
fn compile_reports_exactly_the_parse_errors() {
    let (_ast, _map, errors) = parse_source("@ x q 5\n>> {y}\n");
    match compile("@ x q 5\n>> {y}\n", Target::C) {
        Err(e) => {
            assert_eq!(e.len(), errors.len());
            assert!(matches!(&e[0], VarError::UndeclaredVariable { name, line: 1 } if name == "y"));
        }
        Ok(_) => panic!("errors are owed"),
    }
}

#[test]
fn math_operand_joins_words_with_one_space() {
    let (ast, _map, errors) = parse_source("@@ x i 1\n* x +   3    4  \n");
    assert!(errors.is_empty());
    assert!(matches!(&nodes(&ast)[1], ASTNode::MathOp { operand: Expression::Literal(s), .. } if s == "3 4"));
}
