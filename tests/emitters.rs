use ven::archs::{lfor32, lfor64, m64, mkasm, w32, w64, Types};
use ven::ast::{ASTNode, ComparisonOperator, Expression, MathOperator, VarType, AST};
use ven::emit_c::transpile_c;
use ven::emit_llvm::transpile_llvm;
use ven::emit_lx::transpile_lx8664;
use ven::emit_rs::transpile_rs;
use ven::pipeline::{compile, emit, target_from_name, Target};

const PROGRAM: &str = "@ x i 5\n* x + 3\n>> {x}\n";

#[test]
fn c_output_of_a_mutated_counter() {
    let out = compile(PROGRAM, Target::C).ok().unwrap();
    let expected = "#include <stdio.h>\n#include <stdlib.h>\n#include <string.h>\n\nint main() {\n    int x = 5;\n    int x_0 = x + 3;\n    x = x_0;\n    fprintf(stdout, \"%d\", x);\n    return 0;\n}\n";
    assert_eq!(out, expected);
}

#[test]
fn llvm_output_of_a_mutated_counter() {
    let out = compile(PROGRAM, Target::Llvm).ok().unwrap();
    let expected = "declare i32 @dprintf(i32, i8*, ...)\ndeclare i32 @scanf(i8*, ...)\n@fmt_int = private unnamed_addr constant [3 x i8] c\"%d\\00\", align 1\n@fmt_float = private unnamed_addr constant [4 x i8] c\"%lf\\00\", align 1\n@str0 = private unnamed_addr constant [3 x i8] c\"%d\u{0}\", align 1\n\ndefine i32 @main() {\n  %x = alloca i32, align 4\n  store i32 5, i32* %x\n  %x_0 = load i32, i32* %x, align 4\n  %x_1 = add i32 %x_0, 3\n  store i32 %x_1, i32* %x\n  %x_2 = load i32, i32* %x, align 4\n  call i32 (i32, i8*, ...) @dprintf(i32 1, i8* getelementptr inbounds ([3 x i8], [3 x i8]* @str0, i32 0, i32 0) , i32 %x_2)\n  ret i32 0\n}\n";
    assert_eq!(out, expected);
}

#[test]
fn rust_output_of_a_mutated_counter() {
    let out = compile(PROGRAM, Target::Rust).ok().unwrap();
    let expected = "use std::io::Write;\nfn main() {\n    let mut x: i32 = 5;\n    x = x + 3;\n    writeln!(&mut std::io::stdout().lock(), \"{x}\").unwrap();\n}\n";
    assert_eq!(out, expected);
}

#[test]
fn assembly_output_of_a_mutated_counter() {
    let out = compile(PROGRAM, Target::Lx8664).ok().unwrap();
    assert!(out.starts_with("section .data\nnewline: db 0x0A   ;; defines newline\n"));
    assert!(out.contains("section .bss\n    num_buffer: resb 20   ;; reserve 20 bytes for num_buffer\n    var_0: resq 1   ;; x is non-string, 8 bytes\n"));
    assert!(out.contains("    mov qword [var_0], 5   ;; set value of 'x'\n"));
    assert!(out.contains("    mov rax, [var_0]   ;; load variable\n    add rax, 3   ;; add literal value\n    mov [var_0], rax   ;; store result in variable\n"));
    assert!(out.contains("    ;; Print runtime variable value 'x'\n    mov r8, 1   ;; file descriptor for the helper\n    mov rax, [var_0]   ;; load integer variable at runtime\n    call print_int\n"));
    assert!(out.ends_with("    pop rbx\n    ret\n"));
}

#[test]
fn assembly_plain_literal_and_division() {
    let ast = AST::Program(vec![
        ASTNode::VarDeclaration { mutable: true, name: "n".to_string(), var_type: VarType::Int, value: Some(Expression::Literal("true".to_string())) },
        ASTNode::MathOp { name: "n".to_string(), operator: MathOperator::Divide, operand: Expression::Literal("-4".to_string()) },
        ASTNode::Print { to_stderr: true, expr: Some(Expression::Literal("\"say \"hi\"\"".to_string())) },
    ]);
    let out = transpile_lx8664(&ast);
    assert!(out.contains("    mov qword [var_0], 1   ;; set value of 'n'\n"));
    assert!(out.contains("    mov rcx, -4   ;; set divisor\n    cqo"));
    assert!(out.contains("    str_0: db \"say hi\", 0\n"));
    assert!(out.contains("    mov rdi, 2   ;; file descriptor\n    mov rsi, str_0   ;; address of string\n    mov rdx, 6   ;; length of string\n"));
}

#[test]
fn assembly_interpolation_segments() {
    let ast = AST::Program(vec![ASTNode::Print { to_stderr: false, expr: Some(Expression::Literal("a{q}b".to_string())) }]);
    let out = transpile_lx8664(&ast);
    assert!(out.contains("    str_0: db \"a\", 0\n    str_err_1: db \"[undefined]\", 0\n    str_2: db \"b\", 0\n"));
}

#[test]
fn c_conditional_and_identifier_operand() {
    let ast = AST::Program(vec![
        ASTNode::MathOp { name: "a".to_string(), operator: MathOperator::Subtract, operand: Expression::Identifier("b".to_string()) },
        ASTNode::If {
            condition: Expression::BinaryOp {
                left: Box::new(Expression::Identifier("a".to_string())),
                operator: ComparisonOperator::LessThanEqual,
                right: Box::new(Expression::Literal("2".to_string())),
            },
            body: vec![ASTNode::Print { to_stderr: true, expr: Some(Expression::Literal("{a}".to_string())) }],
        },
        ASTNode::Input { name: "s".to_string() },
    ]);
    let out = transpile_c(&ast);
    assert!(out.contains("    int b_0 = b;\n    int a_1 = a - b_0;\n    a = a_1;\n"));
    assert!(out.contains("    if ((a <= 2)) {\n    fprintf(stderr, \"%d\", a);\n    }\n"));
    assert!(out.contains("    fgets(s, 256, stdin);\n    size_t len = strlen(s);\n    if(len > 0 && s[len-1] == '\\n') s[len-1] = '\\0';\n"));
}

#[test]
fn rust_declarations_and_prints() {
    let ast = AST::Program(vec![
        ASTNode::VarDeclaration { mutable: true, name: "s".to_string(), var_type: VarType::String, value: None },
        ASTNode::Print { to_stderr: true, expr: Some(Expression::Identifier("s".to_string())) },
        ASTNode::Print { to_stderr: false, expr: None },
    ]);
    let out = transpile_rs(&ast);
    assert_eq!(out, "use std::io::Write;\nfn main() {\n    let mut s: String;\n    writeln!(&mut std::io::stderr().lock(), \"{}\", s).unwrap();\n    writeln!(&mut std::io::stdout().lock()).unwrap();\n}\n");
}

#[test]
fn llvm_escapes_newlines_and_counts_bytes() {
    let ast = AST::Program(vec![ASTNode::Print { to_stderr: false, expr: Some(Expression::Literal("é\n".to_string())) }]);
    let out = transpile_llvm(&ast);
    assert!(out.contains("@str0 = private unnamed_addr constant [6 x i8] c\"é\\0A\u{0}\", align 1\n"));
}

#[test]
fn emit_dispatches_on_target() {
    let ast = AST::Program(vec![]);
    assert_eq!(emit(&ast, Target::Rust), transpile_rs(&ast));
    assert_eq!(emit(&ast, Target::C), transpile_c(&ast));
    assert_eq!(target_from_name("rust"), Some(Target::Rust));
    assert_eq!(target_from_name("C"), Some(Target::C));
    assert_eq!(target_from_name("LLVM"), Some(Target::Llvm));
    assert_eq!(target_from_name("lx8664"), Some(Target::Lx8664));
    assert_eq!(target_from_name("go"), None);
}

#[test]
fn linux64_layout() {
    let out = lfor64(vec![
        Types::Print("'hi'".to_string()),
        Types::SVar("v".to_string(), "7".to_string(), "num".to_string()),
        Types::PVarUse("v".to_string()),
    ]);
    let expected = "section .data\n\n    v dd 7\n    message_0 db 'hi', 0\n\nsection .text\nglobal _start\n\n_start:\n    mov rax, 1          ; sys_write\n    mov rdi, 1          ; stdout\n    mov rsi, message_0\n    xor rdx, rdx\n    mov rcx, rsi\n    find_length_1:\n        cmp byte [rcx], 0\n        je done_length_1\n        inc rcx\n        inc rdx\n        jmp find_length_1\ndone_length_1:\n    syscall\n\n    mov rax, 1          ; sys_write\n    mov rdi, 1          ; stdout\n    mov rsi, v\n    xor rdx, rdx\n    mov rcx, rsi\n    find_length_2:\n        cmp byte [rcx], 0\n        je done_length_2\n        inc rcx\n        inc rdx\n        jmp find_length_2\ndone_length_2:\n    syscall\n\n    mov rax, 60         ; sys_exit\n    xor rdi, rdi\n    syscall\n";
    assert_eq!(out, expected);
}

#[test]
fn linux32_layout() {
    let out = lfor32(vec![Types::MVar("t".to_string(), "ab".to_string(), "txt".to_string())]);
    assert_eq!(out, "section .data\n\n    t db 'ab', 0\n\nsection .text\nglobal _start\n\n_start:\n    mov eax, 1          ; sys_exit\n    xor ebx, ebx\n    int 0x80\n");
}

#[test]
fn windows_layouts() {
    let toks = || vec![Types::Print("'x'".to_string()), Types::SVar("d".to_string(), "2".to_string(), "num".to_string())];
    assert_eq!(
        w32(toks()),
        "section .data\nstdout dd 1\nsection .text\nglobal _mainCRTStartup\n\n_mainCRTStartup:\n    mov edx, length_0 ; Length of message\n    mov ecx, message_0\n    mov ebx, [stdout]\n    mov eax, 4\n    int 0x80\n\nd dd 2\nmessage_0 db 'x', 0\nlength_0 equ $ - message_0\n    xor eax, eax\n    mov eax, 1\n    int 0x80\n"
    );
    assert_eq!(
        w64(toks()),
        "section .data\nsection .text\nglobal mainCRTStartup\n\nmainCRTStartup:\n    mov rdx, length_0\n    mov rsi, message_0\n    mov rax, 1\n    mov rdi, 1\n    syscall\n\nd dq 2\nmessage_0 db 'x', 0\nlength_0 equ $ - message_0\n    xor rdi, rdi\n    mov rax, 60\n    syscall\n"
    );
}

#[test]
fn macos_layout_and_dispatch() {
    let out = m64(vec![Types::Print("hey".to_string()), Types::SVar("f".to_string(), "1.5".to_string(), "dec".to_string())]);
    assert_eq!(out, "section .data\nsection .text\nglobal _start\n\n_start:\n    mov rax, 0x2000004\n    mov rdi, 1\n    mov rsi, message_0\n    mov rdx, message_0_len\n    syscall\n\nmessage_0 db 'hey', 0\nmessage_0_len equ $ - message_0\nf dq 1.5\n    mov rax, 0x2000001\n    xor rdi, rdi\n    syscall\n");
    assert_eq!(mkasm(vec![], "MHM".to_string()), "");
    assert_eq!(mkasm(vec![Types::Print("hey".to_string())], "MM".to_string()), m64(vec![Types::Print("hey".to_string())]));
}

fn cond_if(body: Vec<ASTNode>) -> ASTNode {
    ASTNode::If {
        condition: Expression::BinaryOp {
            left: Box::new(Expression::Identifier("n".to_string())),
            operator: ComparisonOperator::GreaterThan,
            right: Box::new(Expression::Literal("3".to_string())),
        },
        body,
    }
}

fn counter_program() -> AST {
    AST::Program(vec![
        ASTNode::VarDeclaration { mutable: true, name: "n".to_string(), var_type: VarType::Int, value: Some(Expression::Literal("5".to_string())) },
        cond_if(vec![
            ASTNode::MathOp { name: "n".to_string(), operator: MathOperator::Add, operand: Expression::Literal("1".to_string()) },
            ASTNode::Print { to_stderr: true, expr: Some(Expression::Literal("{n}".to_string())) },
        ]),
    ])
}

#[test]
fn rust_conditional_body() {
    let out = transpile_rs(&counter_program());
    assert!(out.contains("    if (n > 3) {\n    n = n + 1;\n    writeln!(&mut std::io::stderr().lock(), \"{n}\").unwrap();\n    }\n"));
}

#[test]
fn c_conditional_body_has_every_statement() {
    let out = transpile_c(&counter_program());
    assert!(out.contains("    if ((n > 3)) {\n    int n_0 = n + 1;\n    n = n_0;\n    fprintf(stderr, \"%d\", n);\n    }\n"));
}

#[test]
fn c_string_initializer_is_copied() {
    let ast = AST::Program(vec![ASTNode::VarDeclaration { mutable: false, name: "s".to_string(), var_type: VarType::String, value: Some(Expression::Literal("hi".to_string())) }]);
    assert!(transpile_c(&ast).contains("    char* s = malloc(256);\n    strcpy(s, \"hi\");\n"));
}

#[test]
fn assembly_conditional_body() {
    let out = transpile_lx8664(&counter_program());
    assert!(out.contains("    ;; Conditional\n    mov rax, [var_0]\n    push rax\n    mov rax, 3\n    mov rcx, rax\n    pop rax\n    cmp rax, rcx\n    setg al\n    movzx rax, al\n    cmp rax, 0\n    je .endif_0\n"));
    assert!(out.contains("    add rax, 1   ;; add literal value\n"));
    assert!(out.contains("    mov r8, 2   ;; file descriptor for the helper\n"));
    assert!(out.contains(".endif_0:\n"));
}

#[test]
fn llvm_error_stream() {
    let ast = AST::Program(vec![ASTNode::Print { to_stderr: true, expr: Some(Expression::Literal("e".to_string())) }]);
    assert!(transpile_llvm(&ast).contains("@dprintf(i32 2, "));
}

#[test]
fn llvm_conditional_and_input() {
    let mut prog = match counter_program() {
        AST::Program(v) => v,
    };
    prog.push(ASTNode::Input { name: "n".to_string() });
    let out = transpile_llvm(&AST::Program(prog));
    assert!(out.contains("  %n_0 = load i32, i32* %n, align 4\n  %cond_1 = icmp sgt i32 %n_0, 3\n  br i1 %cond_1, label %then_2, label %endif_2\nthen_2:\n"));
    assert!(out.contains("  br label %endif_2\nendif_2:\n"));
    assert!(out.contains("@scanf(i8* getelementptr inbounds ([3 x i8], [3 x i8]* @fmt_int, i32 0, i32 0), i32* %n)\n"));
}

#[test]
fn number_input_is_parsed() {
    let ast = AST::Program(vec![
        ASTNode::VarDeclaration { mutable: false, name: "k".to_string(), var_type: VarType::Int, value: None },
        ASTNode::Input { name: "k".to_string() },
    ]);
    assert!(transpile_c(&ast).contains("    scanf(\"%d\", &k);\n"));
    let rs = transpile_rs(&ast);
    assert!(rs.contains("    let mut k: i32;\n"));
    assert!(rs.contains("    { let mut line = String::new(); std::io::stdin().read_line(&mut line).unwrap(); k = line.trim().parse().unwrap(); }\n"));
}

#[test]
fn assembly_empty_print_writes_a_newline() {
    let ast = AST::Program(vec![ASTNode::Print { to_stderr: true, expr: None }]);
    let out = transpile_lx8664(&ast);
    assert!(!out.contains("fprintf"));
    assert!(out.contains("    mov rax, 1   ;; syscall: write newline\n    mov rdi, 2   ;; file descriptor\n"));
}
