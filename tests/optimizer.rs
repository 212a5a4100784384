use ven::ast::{ASTNode, Expression, VarType, AST};
use ven::names::NameMap;
use ven::parser::parse_source;
use ven::pass1::optimize_pass1;
use ven::pass2::pass2;
use ven::placeholders::{placeholders, replace_placeholders};

fn nodes(ast: &AST) -> &Vec<ASTNode> {
    match ast {
        AST::Program(v) => v,
    }
}

fn print(to_stderr: bool, text: &str) -> ASTNode {
    ASTNode::Print { to_stderr, expr: Some(Expression::Literal(text.to_string())) }
}

fn print_text(n: &ASTNode) -> Option<(bool, String)> {
    match n {
        ASTNode::Print { to_stderr, expr: Some(Expression::Literal(s)) } => Some((*to_stderr, s.clone())),
        _ => None,
    }
}

#[test]
fn constant_is_inlined_and_dropped() {
    let (ast, _map, errors) = parse_source("@ n str \"hi\"\n>> {n}\n>> {n}!\n");
    assert!(errors.is_empty());
    let mut ast = ast;
    optimize_pass1(&mut ast);
    let ast = pass2(ast);
    let n = nodes(&ast);
    assert_eq!(n.len(), 1);
    assert_eq!(print_text(&n[0]), Some((false, "hihi!".to_string())));
}

#[test]
fn mutated_variable_is_not_inlined() {
    let (ast, _map, _errors) = parse_source("@ x i 5\n* x + 3\n>> {x}\n");
    let mut ast = ast;
    optimize_pass1(&mut ast);
    let ast = pass2(ast);
    let n = nodes(&ast);
    assert_eq!(n.len(), 3);
    assert!(matches!(&n[0], ASTNode::VarDeclaration { name, .. } if name == "x"));
    assert_eq!(print_text(&n[2]), Some((false, "{x}".to_string())));
}

#[test]
fn unused_declaration_is_removed() {
    let mut ast = AST::Program(vec![
        ASTNode::VarDeclaration {
            mutable: false,
            name: "unused".to_string(),
            var_type: VarType::Int,
            value: Some(Expression::Literal("5".to_string())),
        },
        print(false, "hello"),
    ]);
    optimize_pass1(&mut ast);
    let n = nodes(&ast);
    assert_eq!(n.len(), 1);
    assert_eq!(print_text(&n[0]), Some((false, "hello".to_string())));
}

#[test]
fn declaration_used_in_condition_is_kept() {
    let mut ast = AST::Program(vec![
        ASTNode::VarDeclaration {
            mutable: true,
            name: "k".to_string(),
            var_type: VarType::Int,
            value: None,
        },
        ASTNode::If {
            condition: Expression::Identifier("k".to_string()),
            body: vec![],
        },
    ]);
    optimize_pass1(&mut ast);
    assert_eq!(nodes(&ast).len(), 2);
}

#[test]
fn consecutive_prints_fuse() {
    let mut ast = AST::Program(vec![print(false, "a"), print(false, "b"), print(false, "c")]);
    optimize_pass1(&mut ast);
    let n = nodes(&ast);
    assert_eq!(n.len(), 1);
    assert_eq!(print_text(&n[0]), Some((false, "abc".to_string())));
}

#[test]
fn fusion_strips_one_leading_space_and_respects_streams() {
    let mut single = AST::Program(vec![print(false, "   x")]);
    optimize_pass1(&mut single);
    assert_eq!(print_text(&nodes(&single)[0]), Some((false, "   x".to_string())));
    let mut ast = AST::Program(vec![
        print(false, "  a"),
        print(false, "b"),
        print(true, "c"),
        print(true, "d"),
        ASTNode::Print { to_stderr: false, expr: None },
    ]);
    optimize_pass1(&mut ast);
    let n = nodes(&ast);
    assert_eq!(n.len(), 3);
    assert_eq!(print_text(&n[0]), Some((false, " ab".to_string())));
    assert_eq!(print_text(&n[1]), Some((true, "cd".to_string())));
    assert!(matches!(&n[2], ASTNode::Print { to_stderr: false, expr: None }));
}

#[test]
fn placeholders_are_trimmed_and_escapes_skipped() {
    let got = placeholders(&"a { x } \\{y} {} {z".to_string());
    assert_eq!(got, vec!["x".to_string()]);
}

#[test]
fn replacement_keeps_unknown_placeholders() {
    let mut m: NameMap<String> = NameMap::new();
    m.insert("x".to_string(), "1".to_string());
    m.insert("x".to_string(), "2".to_string());
    assert_eq!(replace_placeholders(" {x}-{y}-{}-\\{x}", &m), " 2-{y}-{}-\\{x}");
    assert_eq!(replace_placeholders("open {x", &m), "open {x");
}

#[test]
fn second_inlining_changes_nothing_here() {
    let (ast, _map, _errors) = parse_source("@ n str \"hi\"\n@ m i 2\n>> {n} {m}\n>>> x\n");
    let once = pass2(ast);
    let once_text = format!("{:?}", nodes(&once));
    let twice = pass2(once);
    assert_eq!(format!("{:?}", nodes(&twice)), once_text);
    assert_eq!(nodes(&twice).len(), 2);
    assert_eq!(print_text(&nodes(&twice)[0]), Some((false, "hi 2".to_string())));
    assert_eq!(print_text(&nodes(&twice)[1]), Some((true, "x".to_string())));
}

#[test]
fn unused_variable_leaves_no_trace_in_output() {
    let out = ven::pipeline::compile("@ ghostly i 5\n>> hello\n", ven::pipeline::Target::C).ok().unwrap();
    assert!(!out.contains("ghostly"));
    assert!(out.contains("fprintf(stdout, \"hello\");"));
}

#[test]
fn chained_constants_need_a_second_inlining() {
    let (ast, _map, errors) = parse_source("@ b str \"hi\"\n@ a str \"{b}\"\n>> {a}\n");
    assert!(errors.is_empty());
    let mut ast = ast;
    optimize_pass1(&mut ast);
    let once = pass2(ast);
    assert_eq!(nodes(&once).len(), 2);
    assert_eq!(print_text(&nodes(&once)[1]), Some((false, "{b}".to_string())));
    let twice = pass2(once);
    assert_eq!(nodes(&twice).len(), 1);
    assert_eq!(print_text(&nodes(&twice)[0]), Some((false, "hi".to_string())));
}

#[test]
fn spaces_survive_repeated_inlining() {
    let ast = AST::Program(vec![print(false, "   x")]);
    let once = pass2(ast);
    let once_text = format!("{:?}", nodes(&once));
    let twice = pass2(once);
    assert_eq!(format!("{:?}", nodes(&twice)), once_text);
    assert_eq!(print_text(&nodes(&twice)[0]), Some((false, "   x".to_string())));
}

#[test]
fn inlining_twice_without_declarations() {
    let ast = AST::Program(vec![print(false, "a{"), print(false, "}b"), print(true, "{}")]);
    let once = pass2(ast);
    let once_text = format!("{:?}", nodes(&once));
    let twice = pass2(once);
    assert_eq!(format!("{:?}", nodes(&twice)), once_text);
    assert_eq!(print_text(&nodes(&twice)[0]), Some((false, "a{}b".to_string())));
}

#[test]
fn run_in_the_middle_fuses_in_place() {
    let mut ast = AST::Program(vec![
        ASTNode::Input { name: "q".to_string() },
        print(false, " a"),
        print(false, "b"),
        print(false, "c"),
        ASTNode::Input { name: "q".to_string() },
    ]);
    optimize_pass1(&mut ast);
    let n = nodes(&ast);
    assert_eq!(n.len(), 3);
    assert!(matches!(&n[0], ASTNode::Input { .. }));
    assert_eq!(print_text(&n[1]), Some((false, "abc".to_string())));
    assert!(matches!(&n[2], ASTNode::Input { .. }));
}
