use vstd::prelude::*;

use crate::ast::{expr_view, node_view, ASTNode, ComparisonOperator, ExprV, Expression, LogicalOperator, MathOperator, NodeV, VarType, AST};
use crate::emit_common::{bump, bump_exec, collect_decl_types, decl_types};
use crate::emit_llvm::utf8_len;
use crate::literals::{i64_or_zero, parse_i64_or_zero};
use crate::lx_text::{
    drop_quotes, escape_string_for_assembly, find_from, find_from_exec, lemma_find_from, segments,
    trim_quotes, trim_quotes_exec, Seg,
};
use crate::names::NameMap;
use crate::numtext::{dec, decimal, decimal_i64, signed_dec};
use crate::pass1::nodes_view;
use crate::placeholders::text_map;
use crate::text::{chars_of, string_of};

verus! {

/// The number of declarations among the first `n` statements of `s`.
pub open spec fn decl_count(s: Seq<NodeV>, n: int) -> nat
    decreases n,
{
    if n <= 0 {
        0
    } else {
        decl_count(s, n - 1) + if s[n - 1] is VarDeclaration {
            1nat
        } else {
            0nat
        }
    }
}

/// The storage label of each variable declared among the first `n` statements of `s`: the
/// `k`-th declaration gets `var_k`; a later declaration wins.
pub open spec fn lx_labels(s: Seq<NodeV>, n: int) -> Map<Seq<char>, Seq<char>>
    decreases n,
{
    if n <= 0 {
        Map::empty()
    } else {
        match s[n - 1] {
            NodeV::VarDeclaration { name, .. } => lx_labels(s, n - 1).insert(
                name,
                "var_"@ + dec(decl_count(s, n - 1)),
            ),
            _ => lx_labels(s, n - 1),
        }
    }
}

pub open spec fn lx_reserve(label: Seq<char>, name: Seq<char>, t: VarType) -> Seq<char> {
    match t {
        VarType::Int | VarType::Float => "    "@ + label + ": resq 1   ;; "@ + name + " is non-string, 8 bytes\n"@,
        VarType::String => "    "@ + label + ": resb 256   ;; "@ + name + " is string, reserve 256 bytes\n"@,
        VarType::Char { .. } => "    "@ + label + ": resb 8   ;; "@ + name + " is char, reserve 8 bytes\n"@,
    }
}

/// The reservations of the variables declared among the first `n` statements of `s`.
pub open spec fn lx_bss(s: Seq<NodeV>, n: int) -> Seq<char>
    decreases n,
{
    if n <= 0 {
        Seq::empty()
    } else {
        lx_bss(s, n - 1) + match s[n - 1] {
            NodeV::VarDeclaration { name, var_type, .. } => lx_reserve(
                "var_"@ + dec(decl_count(s, n - 1)),
                name,
                var_type,
            ),
            _ => Seq::empty(),
        }
    }
}

/// The label of `name`, or the name itself when it has none.
pub open spec fn label_or(labels: Map<Seq<char>, Seq<char>>, name: Seq<char>) -> Seq<char> {
    if labels.contains_key(name) {
        labels[name]
    } else {
        name
    }
}

pub open spec fn lx_write(fd: Seq<char>, label: Seq<char>, len: Seq<char>) -> Seq<char> {
    "    mov rax, 1   ;; syscall: write\n"@ + "    mov rdi, "@ + fd + "   ;; file descriptor\n"@
        + "    mov rsi, "@ + label + "   ;; address of string\n"@ + "    mov rdx, "@ + len
        + "   ;; length of string\n"@ + "    syscall\n"@
}

pub open spec fn lx_newline(fd: Seq<char>) -> Seq<char> {
    "    mov rax, 1   ;; syscall: write newline\n"@ + "    mov rdi, "@ + fd
        + "   ;; file descriptor\n"@ + "    mov rsi, newline   ;; address of newline\n    mov rdx, 1   ;; length of newline\n    syscall\n"@
}

/// What the emitter has written so far, and its string-label counter.
pub struct LxState {
    pub data: Seq<char>,
    pub text: Seq<char>,
    pub lc: usize,
}

/// Tells the print helpers which file descriptor to write to.
pub open spec fn lx_set_fd(fd: Seq<char>) -> Seq<char> {
    "    mov r8, "@ + fd + "   ;; file descriptor for the helper\n"@
}

/// A plain text piece of a print: a string constant and a write of it.
pub open spec fn lx_text_piece(st: LxState, fd: Seq<char>, content: Seq<char>, comment: Seq<char>) -> LxState {
    let label = "str_"@ + dec(st.lc as nat);
    let esc = drop_quotes(content, content.len() as int);
    LxState {
        data: st.data + "    "@ + label + ": db \""@ + esc + "\", 0\n"@,
        text: st.text + comment + esc + "\"\n"@ + lx_write(fd, label, dec(utf8_len(esc, esc.len() as int) as nat)),
        lc: bump(st.lc),
    }
}

pub open spec fn lx_var_print(t: VarType, label: Seq<char>, fd: Seq<char>) -> Seq<char> {
    lx_set_fd(fd) + match t {
        VarType::String => "    lea rsi, ["@ + label + "]   ;; load address of string variable\n    call print_str\n"@,
        VarType::Int => "    mov rax, ["@ + label + "]   ;; load integer variable at runtime\n    call print_int\n"@,
        VarType::Float => "    mov rax, ["@ + label + "]   ;; load float variable at runtime\n    call print_int   ;; printed as an integer\n"@,
        VarType::Char { .. } => "    lea rsi, ["@ + label + "]   ;; load address of char variable\n    call print_str\n"@,
    }
}

/// One piece of an interpolated print.
pub open spec fn lx_segment(
    st: LxState,
    fd: Seq<char>,
    seg: Seg,
    types: Map<Seq<char>, VarType>,
    labels: Map<Seq<char>, Seq<char>>,
) -> LxState {
    match seg {
        Seg::Text(c) => if c.len() > 0 {
            lx_text_piece(st, fd, c, "    ;; Print text segment \""@)
        } else {
            st
        },
        Seg::Var(name) => if types.contains_key(name) {
            LxState {
                data: st.data,
                text: st.text + "    ;; Print runtime variable value '"@ + name + "'\n"@ + lx_var_print(
                    types[name],
                    label_or(labels, name),
                    fd,
                ),
                lc: st.lc,
            }
        } else {
            let label = "str_err_"@ + dec(st.lc as nat);
            LxState {
                data: st.data + "    "@ + label + ": db \"[undefined]\", 0\n"@,
                text: st.text + "    ;; Print error for undefined variable '"@ + name + "'\n"@
                    + "    mov rax, 1   ;; syscall: write\n"@ + "    mov rdi, "@ + fd
                    + "   ;; file descriptor\n"@ + "    mov rsi, "@ + label
                    + "   ;; address of string\n"@ + "    mov rdx, 11   ;; length of [undefined]\n    syscall\n"@,
                lc: bump(st.lc),
            }
        },
    }
}

pub open spec fn lx_segments(
    st: LxState,
    fd: Seq<char>,
    segs: Seq<Seg>,
    k: int,
    types: Map<Seq<char>, VarType>,
    labels: Map<Seq<char>, Seq<char>>,
) -> LxState
    decreases k,
{
    if k <= 0 {
        st
    } else {
        lx_segment(lx_segments(st, fd, segs, k - 1, types, labels), fd, segs[k - 1], types, labels)
    }
}

pub open spec fn lx_fd(to_stderr: bool) -> Seq<char> {
    if to_stderr {
        "2"@
    } else {
        "1"@
    }
}

pub open spec fn lx_print_literal(
    st: LxState,
    fd: Seq<char>,
    text: Seq<char>,
    types: Map<Seq<char>, VarType>,
    labels: Map<Seq<char>, Seq<char>>,
) -> LxState {
    let clean = trim_quotes(text);
    if find_from(clean, 0, '{') < clean.len() {
        let segs = segments(clean, 0);
        let r = lx_segments(st, fd, segs, segs.len() as int, types, labels);
        LxState { data: r.data, text: r.text + lx_newline(fd), lc: r.lc }
    } else {
        let r = lx_text_piece(st, fd, clean, "    ;; Print string literal: \""@);
        LxState { data: r.data, text: r.text + lx_newline(fd), lc: r.lc }
    }
}

pub open spec fn lx_print_var(
    v: Seq<char>,
    types: Map<Seq<char>, VarType>,
    labels: Map<Seq<char>, Seq<char>>,
    fd: Seq<char>,
) -> Seq<char> {
    let l = label_or(labels, v);
    lx_set_fd(fd) + if types.contains_key(v) {
        if types[v] is String {
            "    ;; Printing string variable '"@ + v + "'\n"@ + "    lea rsi, ["@ + l
                + "]   ;; prepare string variable '"@ + v + "' for printing\n"@ + "    call print_str\n"@
                + lx_newline(fd)
        } else {
            "    ;; Printing numeric variable '"@ + v + "'\n"@ + "    mov rax, ["@ + l
                + "]   ;; load numeric variable '"@ + v + "'\n"@ + "    call print_int\n"@
                + lx_newline(fd)
        }
    } else {
        "    ;; Printing variable '"@ + v + "' with unknown type\n"@ + "    mov rax, ["@ + l
            + "]   ;; load variable '"@ + v + "'\n"@ + "    call print_int\n"@ + lx_newline(fd)
    }
}

pub open spec fn lx_print(
    st: LxState,
    to_stderr: bool,
    expr: Option<ExprV>,
    types: Map<Seq<char>, VarType>,
    labels: Map<Seq<char>, Seq<char>>,
) -> LxState {
    let fd = lx_fd(to_stderr);
    match expr {
        Some(ExprV::Literal(text)) => lx_print_literal(st, fd, text, types, labels),
        Some(ExprV::Identifier(v)) => LxState {
            data: st.data,
            text: st.text + lx_print_var(v, types, labels, fd),
            lc: st.lc,
        },
        Some(_) => LxState {
            data: st.data,
            text: st.text + "    ;; Complex expression in print statement\n    ;; printing of complex expressions is not supported\n"@,
            lc: st.lc,
        },
        None => LxState {
            data: st.data,
            text: st.text + lx_newline(fd),
            lc: st.lc,
        },
    }
}

pub open spec fn lx_init_value(v: Seq<char>) -> Seq<char> {
    if v == "true"@ {
        "1"@
    } else if v == "false"@ {
        "0"@
    } else {
        v
    }
}

pub open spec fn lx_decl(name: Seq<char>, value: Option<ExprV>, labels: Map<Seq<char>, Seq<char>>) -> Seq<char> {
    "    ;; Variable '"@ + name + "' already declared in data/bss section\n"@ + match value {
        Some(ExprV::Literal(v)) => "    ;; Initialize variable '"@ + name + "'\n"@ + "    mov qword ["@
            + label_or(labels, name) + "], "@ + lx_init_value(v) + "   ;; set value of '"@ + name
            + "'\n"@,
        _ => Seq::empty(),
    }
}

pub open spec fn lx_divide() -> Seq<char> {
    "    cqo   ;; sign-extend RAX to RDX:RAX for division\n    idiv rcx   ;; divide RDX:RAX by RCX\n"@
}

pub open spec fn lx_math_operand(op: MathOperator, operand: ExprV, labels: Map<Seq<char>, Seq<char>>) -> Seq<char> {
    match operand {
        ExprV::Literal(val) => {
            let n = signed_dec(i64_or_zero(val));
            match op {
                MathOperator::Add => "    add rax, "@ + n + "   ;; add literal value\n"@,
                MathOperator::Subtract => "    sub rax, "@ + n + "   ;; subtract literal value\n"@,
                MathOperator::Multiply => "    imul rax, "@ + n + "   ;; multiply by literal value\n"@,
                MathOperator::Divide => "    mov rcx, "@ + n + "   ;; set divisor\n"@ + lx_divide(),
            }
        },
        ExprV::Identifier(v) => if labels.contains_key(v) {
            "    mov rcx, ["@ + labels[v] + "]   ;; load second variable\n"@ + match op {
                MathOperator::Add => "    add rax, rcx   ;; add variables\n"@,
                MathOperator::Subtract => "    sub rax, rcx   ;; subtract variables\n"@,
                MathOperator::Multiply => "    imul rax, rcx   ;; multiply variables\n"@,
                MathOperator::Divide => lx_divide(),
            }
        } else {
            "    ;; Warning: variable '"@ + v + "' not found, operation skipped\n"@
        },
        _ => "    ;; Complex expression in math operation - not implemented\n"@,
    }
}

pub open spec fn lx_math(name: Seq<char>, op: MathOperator, operand: ExprV, labels: Map<Seq<char>, Seq<char>>) -> Seq<char> {
    let l = label_or(labels, name);
    "    ;; Math operation on variable '"@ + name + "'\n"@ + "    mov rax, ["@ + l
        + "]   ;; load variable\n"@ + lx_math_operand(op, operand, labels) + "    mov ["@ + l
        + "], rax   ;; store result in variable\n"@
}

pub open spec fn lx_read_string(l: Seq<char>) -> Seq<char> {
    "    ;; Reading string input\n    mov rax, 0   ;; syscall: read\n    mov rdi, 0   ;; file descriptor: stdin\n"@
        + "    lea rsi, ["@ + l + "]   ;; buffer to store input\n"@
        + "    mov rdx, 255   ;; max bytes to read\n    syscall   ;; call read syscall\n"@
        + "    lea rdi, ["@ + l + "]   ;; prepare string for trimming\n"@
        + "    call trim_newline   ;; remove trailing newline\n"@
}

pub open spec fn lx_read_number(name: Seq<char>, l: Seq<char>) -> Seq<char> {
    "    ;; Reading numeric input\n    mov rax, 0   ;; syscall: read\n    mov rdi, 0   ;; file descriptor: stdin\n    mov rsi, num_buffer   ;; buffer to store input\n    mov rdx, 19   ;; max bytes to read\n    syscall   ;; call read syscall\n    mov rdi, num_buffer   ;; prepare string for trimming\n    call trim_newline   ;; remove trailing newline\n    ;; Convert string to integer\n    mov rsi, num_buffer   ;; buffer with number string\n    xor rax, rax   ;; clear accumulator\n    xor rcx, rcx   ;; clear counter\n"@
        + ".convert_loop_"@ + name + ":\n"@
        + "    mov bl, [rsi + rcx]   ;; get next character\n    cmp bl, 0   ;; check for end of string\n"@
        + "    je .done_convert_"@ + name + "   ;; if at end, we're done\n"@
        + "    sub bl, '0'   ;; convert ASCII to digit value\n    imul rax, 10   ;; multiply accumulator by 10\n    add rax, rbx   ;; add new digit\n    inc rcx   ;; move to next character\n"@
        + "    jmp .convert_loop_"@ + name + "\n"@ + ".done_convert_"@ + name + ":\n"@ + "    mov ["@
        + l + "], rax   ;; store numeric value in variable\n"@
}

pub open spec fn lx_input(name: Seq<char>, types: Map<Seq<char>, VarType>, labels: Map<Seq<char>, Seq<char>>) -> Seq<char> {
    "    ;; Reading input into variable '"@ + name + "'\n"@ + if labels.contains_key(name) {
        if types.contains_key(name) {
            match types[name] {
                VarType::String => lx_read_string(labels[name]),
                VarType::Int | VarType::Float => lx_read_number(name, labels[name]),
                VarType::Char { .. } => "    ;; Unsupported variable type for input\n"@,
            }
        } else {
            Seq::empty()
        }
    } else {
        "    ;; Error: variable '"@ + name + "' not declared\n"@
    }
}

pub open spec fn lx_setcc(op: ComparisonOperator) -> Seq<char> {
    match op {
        ComparisonOperator::Equal => "sete"@,
        ComparisonOperator::NotEqual => "setne"@,
        ComparisonOperator::LessThan => "setl"@,
        ComparisonOperator::LessThanEqual => "setle"@,
        ComparisonOperator::GreaterThan => "setg"@,
        ComparisonOperator::GreaterThanEqual => "setge"@,
    }
}

/// Code that leaves in `rax` the value of a condition's operand: a number, a variable's
/// contents, or (for a nested condition) 1 or 0.
pub open spec fn lx_operand(e: ExprV, labels: Map<Seq<char>, Seq<char>>) -> Seq<char>
    decreases e, 1int,
{
    match e {
        ExprV::Literal(_) | ExprV::Identifier(_) => lx_load(e, labels),
        _ => lx_truth(e, labels),
    }
}

/// Code that loads a number or a variable's contents into `rax`; nothing for a condition.
pub open spec fn lx_load(e: ExprV, labels: Map<Seq<char>, Seq<char>>) -> Seq<char> {
    match e {
        ExprV::Literal(v) => "    mov rax, "@ + signed_dec(i64_or_zero(v)) + "\n"@,
        ExprV::Identifier(v) => "    mov rax, ["@ + label_or(labels, v) + "]\n"@,
        _ => Seq::empty(),
    }
}

/// Code that leaves in `rax` 1 when condition `e` holds and 0 when it does not; a plain
/// operand holds when it is not 0.
pub open spec fn lx_truth(e: ExprV, labels: Map<Seq<char>, Seq<char>>) -> Seq<char>
    decreases e, 0int,
{
    match e {
        ExprV::BinaryOp { left, operator, right } => lx_operand(*left, labels) + "    push rax\n"@
            + lx_operand(*right, labels) + "    mov rcx, rax\n    pop rax\n    cmp rax, rcx\n    "@
            + lx_setcc(operator) + " al\n    movzx rax, al\n"@,
        ExprV::LogicalOp { left, operator, right } => lx_truth(*left, labels) + "    push rax\n"@
            + lx_truth(*right, labels) + "    pop rcx\n    "@ + (if operator is And {
            "and"@
        } else {
            "or"@
        }) + " rax, rcx\n"@,
        _ => lx_load(e, labels) + "    cmp rax, 0\n    setne al\n    movzx rax, al\n"@,
    }
}

pub open spec fn lx_node(st: LxState, n: NodeV, types: Map<Seq<char>, VarType>, labels: Map<Seq<char>, Seq<char>>) -> LxState
    decreases n, 0int,
{
    match n {
        NodeV::Print { to_stderr, expr } => lx_print(st, to_stderr, expr, types, labels),
        NodeV::VarDeclaration { name, value, .. } => LxState {
            data: st.data,
            text: st.text + lx_decl(name, value, labels),
            lc: st.lc,
        },
        NodeV::MathOp { name, operator, operand } => LxState {
            data: st.data,
            text: st.text + lx_math(name, operator, operand, labels),
            lc: st.lc,
        },
        NodeV::Input { name } => LxState {
            data: st.data,
            text: st.text + lx_input(name, types, labels),
            lc: st.lc,
        },
        NodeV::If { condition, body } => {
            let end = ".endif_"@ + dec(st.lc as nat);
            let st1 = LxState {
                data: st.data,
                text: st.text + "    ;; Conditional\n"@ + lx_truth(condition, labels)
                    + "    cmp rax, 0\n    je "@ + end + "\n"@,
                lc: bump(st.lc),
            };
            let st2 = lx_body(st1, body, body.len() as int, types, labels);
            LxState { data: st2.data, text: st2.text + end + ":\n"@, lc: st2.lc }
        },
    }
}

/// The first `k` statements of a conditional's body, emitted after `st`.
pub open spec fn lx_body(st: LxState, body: Seq<NodeV>, k: int, types: Map<Seq<char>, VarType>, labels: Map<Seq<char>, Seq<char>>) -> LxState
    decreases body, k,
{
    if k <= 0 || k > body.len() {
        st
    } else {
        lx_node(lx_body(st, body, k - 1, types, labels), body[k - 1], types, labels)
    }
}

pub open spec fn lx_data_head() -> Seq<char> {
    "section .data\n"@ + "newline: db 0x0A   ;; defines newline\n"@
        + "    int_buffer: times 16 db 0  ;; Buffer for integer/float string conversion\n"@
}

pub open spec fn lx_text_head() -> Seq<char> {
    "section .text\n"@ + "global _start\n"@ + "_start:\n"@ + "    ;; _start: program entry point\n"@
}

pub open spec fn lx_nodes(s: Seq<NodeV>, k: int, types: Map<Seq<char>, VarType>, labels: Map<Seq<char>, Seq<char>>) -> LxState
    decreases k,
{
    if k <= 0 {
        LxState { data: lx_data_head(), text: lx_text_head(), lc: 0 }
    } else {
        lx_node(lx_nodes(s, k - 1, types, labels), s[k - 1], types, labels)
    }
}

pub open spec fn lx_exit() -> Seq<char> {
    "\n    ;; Exiting program\n"@ + "    mov rax, 60   ;; syscall: exit\n"@ + "    xor rdi, rdi   ;; exit status 0\n"@ + "    syscall\n"@
}

pub open spec fn lx_helpers() -> Seq<char> {
    "\nprint_int:\n    mov rsi, num_buffer + 19   ;; set pointer to end of num_buffer\n    mov byte [rsi], 0   ;; null-terminate\n    mov rbx, 10   ;; divisor for conversion\n.int_to_str:\n    dec rsi   ;; move pointer left\n    xor rdx, rdx   ;; clear remainder register\n    div rbx   ;; divide rax by 10\n    add dl, '0'   ;; convert remainder to ASCII digit\n    mov [rsi], dl   ;; store digit\n    test rax, rax   ;; check if quotient is zero\n    jnz .int_to_str   ;; loop if not zero\n    mov rax, 1   ;; syscall: write\n    mov rdi, r8   ;; file descriptor\n    mov rdx, num_buffer + 19\n    sub rdx, rsi   ;; compute length of converted string\n    syscall   ;; write string\n    ret\n\n"@
        + "print_str:\n    mov rcx, 0   ;; initialize counter\n.count_loop:\n    cmp byte [rsi + rcx], 0   ;; check for null terminator\n    je .check_newline\n    inc rcx\n    jmp .count_loop\n.check_newline:\n    cmp rcx, 0\n    je .done\n    dec rcx\n    cmp byte [rsi + rcx], 0x0A   ;; check if last character is newline\n    jne .print\n    jmp .done\n.print:\n    inc rcx\n    mov rax, 1\n    mov rdi, r8\n    mov rdx, rcx   ;; length of string\n    syscall\n.done:\n    ret\n\n"@
        + "trim_newline:\n    push rbx\n    mov rcx, 0\n.trim_loop:\n    mov al, [rdi + rcx]\n    cmp al, 0   ;; end of string check\n    je .done\n    cmp al, 0x0A   ;; check for newline\n    je .replace\n    inc rcx\n    jmp .trim_loop\n.replace:\n    mov byte [rdi + rcx], 0   ;; replace newline with null\n.done:\n    pop rbx\n    ret\n"@
}

/// The x86-64 Linux assembly of the statements `s`: the data section, the reservations, then
/// the code, the exit and the helper routines.
pub open spec fn lx_program(s: Seq<NodeV>) -> Seq<char> {
    let types = decl_types(s, s.len() as int);
    let labels = lx_labels(s, s.len() as int);
    let st = lx_nodes(s, s.len() as int, types, labels);
    st.data + "\n"@ + "section .bss\n"@ + "    num_buffer: resb 20   ;; reserve 20 bytes for num_buffer\n"@
        + lx_bss(s, s.len() as int) + "\n"@ + st.text + lx_exit() + lx_helpers()
}

proof fn lemma_decl_count(s: Seq<NodeV>, n: int)
    requires
        0 <= n,
    ensures
        decl_count(s, n) <= n,
    decreases n,
{
    if n > 0 {
        lemma_decl_count(s, n - 1);
    }
}

proof fn lemma_segments_prefix(
    st: LxState,
    fd: Seq<char>,
    a: Seq<Seg>,
    b: Seq<Seg>,
    k: int,
    types: Map<Seq<char>, VarType>,
    labels: Map<Seq<char>, Seq<char>>,
)
    requires
        0 <= k <= a.len(),
    ensures
        lx_segments(st, fd, a, k, types, labels) == lx_segments(st, fd, a + b, k, types, labels),
    decreases k,
{
    if k > 0 {
        lemma_segments_prefix(st, fd, a, b, k - 1, types, labels);
        assert((a + b)[k - 1] == a[k - 1]);
    }
}

/// The storage labels of the declared variables, and their reservations.
fn build_labels(nodes: &Vec<ASTNode>) -> (r: (NameMap<String>, String))
    ensures
        text_map(r.0@) == lx_labels(nodes_view(nodes@), nodes@.len() as int),
        r.1@ == lx_bss(nodes_view(nodes@), nodes@.len() as int),
{
    let ghost s = nodes_view(nodes@);
    let mut labels: NameMap<String> = NameMap::new();
    let mut bss = String::new();
    let mut var_counter: usize = 0;
    let mut i: usize = 0;
    assert(text_map(labels@) =~= Map::<Seq<char>, Seq<char>>::empty());
    while i < nodes.len()
        invariant
            i <= nodes@.len(),
            s == nodes_view(nodes@),
            var_counter == decl_count(s, i as int),
            var_counter <= i,
            text_map(labels@) == lx_labels(s, i as int),
            bss@ == lx_bss(s, i as int),
        decreases nodes@.len() - i,
    {
        proof {
            assert(s[i as int] == node_view(nodes@[i as int]));
        }
        if let ASTNode::VarDeclaration { name, var_type, .. } = &nodes[i] {
            let mut vlabel = String::from_str("var_");
            let d = decimal(var_counter);
            vlabel.append(d.as_str());
            let ghost b0 = bss@;
            match var_type {
                VarType::Int | VarType::Float => {
                    bss.append("    ");
                    bss.append(vlabel.as_str());
                    bss.append(": resq 1   ;; ");
                    bss.append(name.as_str());
                    bss.append(" is non-string, 8 bytes\n");
                },
                VarType::String => {
                    bss.append("    ");
                    bss.append(vlabel.as_str());
                    bss.append(": resb 256   ;; ");
                    bss.append(name.as_str());
                    bss.append(" is string, reserve 256 bytes\n");
                },
                VarType::Char { .. } => {
                    bss.append("    ");
                    bss.append(vlabel.as_str());
                    bss.append(": resb 8   ;; ");
                    bss.append(name.as_str());
                    bss.append(" is char, reserve 8 bytes\n");
                },
            }
            assert(bss@ == b0 + lx_reserve(vlabel@, name@, *var_type));
            let ghost l0 = labels@;
            labels.insert(name.clone(), vlabel);
            assert(text_map(labels@) =~= text_map(l0).insert(name@, "var_"@ + dec(decl_count(s, i as int))));
            var_counter += 1;
        } else {
            assert(bss@ == bss@ + Seq::<char>::empty());
        }
        i += 1;
    }
    (labels, bss)
}

fn label_of(labels: &NameMap<String>, name: &String) -> (r: String)
    ensures
        r@ == label_or(text_map(labels@), name@),
{
    match labels.get(name) {
        Some(l) => l.clone(),
        None => name.clone(),
    }
}

fn fd_text(to_stderr: bool) -> (r: &'static str)
    ensures
        r@ == lx_fd(to_stderr),
{
    if to_stderr {
        "2"
    } else {
        "1"
    }
}

fn append_write(text: &mut String, fd: &str, label: &String, len: &String)
    ensures
        final(text)@ == old(text)@ + lx_write(fd@, label@, len@),
{
    let ghost t0 = text@;
    text.append("    mov rax, 1   ;; syscall: write\n");
    text.append("    mov rdi, ");
    text.append(fd);
    text.append("   ;; file descriptor\n");
    text.append("    mov rsi, ");
    text.append(label.as_str());
    text.append("   ;; address of string\n");
    text.append("    mov rdx, ");
    text.append(len.as_str());
    text.append("   ;; length of string\n");
    text.append("    syscall\n");
    assert(text@ == t0 + lx_write(fd@, label@, len@));
}

fn append_newline(text: &mut String, fd: &str)
    ensures
        final(text)@ == old(text)@ + lx_newline(fd@),
{
    let ghost t0 = text@;
    text.append("    mov rax, 1   ;; syscall: write newline\n");
    text.append("    mov rdi, ");
    text.append(fd);
    text.append("   ;; file descriptor\n");
    text.append("    mov rsi, newline   ;; address of newline\n    mov rdx, 1   ;; length of newline\n    syscall\n");
    assert(text@ == t0 + lx_newline(fd@));
}

fn emit_text_piece(data: &mut String, text: &mut String, lc: usize, fd: &str, content: &Vec<char>, comment: &str) -> (r: usize)
    ensures
        ({
            let nx = lx_text_piece(LxState { data: old(data)@, text: old(text)@, lc }, fd@, content@, comment@);
            final(data)@ == nx.data && final(text)@ == nx.text && r == nx.lc
        }),
{
    let mut label = String::from_str("str_");
    let d = decimal(lc);
    label.append(d.as_str());
    let esc = escape_string_for_assembly(content);
    let esc_chars = chars_of(esc.as_str());
    let n = decimal(crate::emit_llvm::byte_len_of(&esc_chars));
    let ghost d0 = data@;
    data.append("    ");
    data.append(label.as_str());
    data.append(": db \"");
    data.append(esc.as_str());
    data.append("\", 0\n");
    assert(data@ == d0 + ("    "@ + label@ + ": db \""@ + esc@ + "\", 0\n"@));
    let ghost t0 = text@;
    text.append(comment);
    text.append(esc.as_str());
    text.append("\"\n");
    let ghost t1 = text@;
    append_write(text, fd, &label, &n);
    assert(text@ == t0 + (comment@ + esc@ + "\"\n"@ + lx_write(fd@, label@, n@))) by {
        assert(t1 == t0 + (comment@ + esc@ + "\"\n"@));
    }
    bump_exec(lc)
}

fn append_set_fd(text: &mut String, fd: &str)
    ensures
        final(text)@ == old(text)@ + lx_set_fd(fd@),
{
    let ghost t0 = text@;
    text.append("    mov r8, ");
    text.append(fd);
    text.append("   ;; file descriptor for the helper\n");
    assert(text@ == t0 + lx_set_fd(fd@));
}

fn append_var_print(text: &mut String, t: VarType, label: &String, fd: &str)
    ensures
        final(text)@ == old(text)@ + lx_var_print(t, label@, fd@),
{
    append_set_fd(text, fd);
    let ghost t0 = text@;
    match t {
        VarType::String => {
            text.append("    lea rsi, [");
            text.append(label.as_str());
            text.append("]   ;; load address of string variable\n    call print_str\n");
        },
        VarType::Int => {
            text.append("    mov rax, [");
            text.append(label.as_str());
            text.append("]   ;; load integer variable at runtime\n    call print_int\n");
        },
        VarType::Float => {
            text.append("    mov rax, [");
            text.append(label.as_str());
            text.append("]   ;; load float variable at runtime\n    call print_int   ;; printed as an integer\n");
        },
        VarType::Char { .. } => {
            text.append("    lea rsi, [");
            text.append(label.as_str());
            text.append("]   ;; load address of char variable\n    call print_str\n");
        },
    }
}

fn emit_var_segment(
    data: &mut String,
    text: &mut String,
    lc: usize,
    fd: &str,
    name: &String,
    types: &NameMap<VarType>,
    labels: &NameMap<String>,
) -> (r: usize)
    ensures
        ({
            let nx = lx_segment(
                LxState { data: old(data)@, text: old(text)@, lc },
                fd@,
                Seg::Var(name@),
                types@,
                text_map(labels@),
            );
            final(data)@ == nx.data && final(text)@ == nx.text && r == nx.lc
        }),
{
    match types.get(name) {
        Some(t) => {
            let ghost t0 = text@;
            text.append("    ;; Print runtime variable value '");
            text.append(name.as_str());
            text.append("'\n");
            let l = label_of(labels, name);
            let ghost t1 = text@;
            append_var_print(text, *t, &l, fd);
            assert(text@ == t0 + ("    ;; Print runtime variable value '"@ + name@ + "'\n"@ + lx_var_print(*t, l@, fd@))) by {
                assert(t1 == t0 + ("    ;; Print runtime variable value '"@ + name@ + "'\n"@));
            }
            lc
        },
        None => {
            let mut label = String::from_str("str_err_");
            let d = decimal(lc);
            label.append(d.as_str());
            let ghost d0 = data@;
            data.append("    ");
            data.append(label.as_str());
            data.append(": db \"[undefined]\", 0\n");
            assert(data@ == d0 + ("    "@ + label@ + ": db \"[undefined]\", 0\n"@));
            let ghost t0 = text@;
            text.append("    ;; Print error for undefined variable '");
            text.append(name.as_str());
            text.append("'\n");
            text.append("    mov rax, 1   ;; syscall: write\n");
            text.append("    mov rdi, ");
            text.append(fd);
            text.append("   ;; file descriptor\n");
            text.append("    mov rsi, ");
            text.append(label.as_str());
            text.append("   ;; address of string\n");
            text.append("    mov rdx, 11   ;; length of [undefined]\n    syscall\n");
            assert(text@ == t0 + ("    ;; Print error for undefined variable '"@ + name@ + "'\n"@
                + "    mov rax, 1   ;; syscall: write\n"@ + "    mov rdi, "@ + fd@
                + "   ;; file descriptor\n"@ + "    mov rsi, "@ + label@
                + "   ;; address of string\n"@ + "    mov rdx, 11   ;; length of [undefined]\n    syscall\n"@));
            bump_exec(lc)
        },
    }
}

fn sub_chars(c: &Vec<char>, a: usize, b: usize) -> (r: Vec<char>)
    requires
        a <= b <= c@.len(),
    ensures
        r@ == c@.subrange(a as int, b as int),
{
    let mut r: Vec<char> = Vec::new();
    let mut i = a;
    while i < b
        invariant
            a <= i <= b <= c@.len(),
            r@ == c@.subrange(a as int, i as int),
        decreases b - i,
    {
        r.push(c[i]);
        assert(c@.subrange(a as int, i + 1) == c@.subrange(a as int, i as int).push(c@[i as int]));
        i += 1;
    }
    r
}

fn emit_text_segment(
    data: &mut String,
    text: &mut String,
    lc: usize,
    fd: &str,
    content: &Vec<char>,
    tm: Ghost<Map<Seq<char>, VarType>>,
    lm: Ghost<Map<Seq<char>, Seq<char>>>,
) -> (r: usize)
    ensures
        ({
            let nx = lx_segment(
                LxState { data: old(data)@, text: old(text)@, lc },
                fd@,
                Seg::Text(content@),
                tm@,
                lm@,
            );
            final(data)@ == nx.data && final(text)@ == nx.text && r == nx.lc
        }),
{
    if content.len() > 0 {
        emit_text_piece(data, text, lc, fd, content, "    ;; Print text segment \"")
    } else {
        lc
    }
}

#[verifier::rlimit(60)]
fn emit_print_literal(
    data: &mut String,
    text: &mut String,
    lc: usize,
    fd: &str,
    lit: &String,
    types: &NameMap<VarType>,
    labels: &NameMap<String>,
) -> (r: usize)
    ensures
        ({
            let nx = lx_print_literal(
                LxState { data: old(data)@, text: old(text)@, lc },
                fd@,
                lit@,
                types@,
                text_map(labels@),
            );
            final(data)@ == nx.data && final(text)@ == nx.text && r == nx.lc
        }),
{
    let clean = trim_quotes_exec(&chars_of(lit.as_str()));
    let len = clean.len();
    let ghost st0 = LxState { data: data@, text: text@, lc };
    let ghost tm = types@;
    let ghost lm = text_map(labels@);
    if find_from_exec(&clean, 0, '{') < len {
        let mut lc2 = lc;
        let mut p: usize = 0;
        let ghost mut done: Seq<Seg> = Seq::empty();
        let mut go = true;
        assert(segments(clean@, 0) == done + segments(clean@, 0));
        while go && p < len
            invariant
                len == clean@.len(),
                p <= len,
                tm == types@,
                lm == text_map(labels@),
                segments(clean@, 0) == done + if go { segments(clean@, p as int) } else { Seq::empty() },
                lx_segments(st0, fd@, done, done.len() as int, tm, lm) == (LxState { data: data@, text: text@, lc: lc2 }),
            decreases len - p + if go { 1int } else { 0int },
        {
            let ghost rest = segments(clean@, p as int);
            let ghost before = done;
            proof {
                lemma_find_from(clean@, p as int, '{');
            }
            let o = find_from_exec(&clean, p, '{');
            if o < len {
                if o > p {
                    let piece = sub_chars(&clean, p, o);
                    lc2 = emit_text_segment(data, text, lc2, fd, &piece, Ghost(tm), Ghost(lm));
                    proof {
                        done = done.push(Seg::Text(piece@));
                        lemma_segments_prefix(st0, fd@, before, seq![Seg::Text(piece@)], before.len() as int, tm, lm);
                        assert(done =~= before + seq![Seg::Text(piece@)]);
                        assert(lx_segments(st0, fd@, done, done.len() as int, tm, lm) == lx_segment(lx_segments(st0, fd@, before, before.len() as int, tm, lm), fd@, Seg::Text(piece@), tm, lm));
                    }
                }
                proof {
                    lemma_find_from(clean@, o + 1, '}');
                }
                let cl = find_from_exec(&clean, o + 1, '}');
                if cl < len {
                    let name = string_of(clean.as_slice(), o + 1, cl);
                    let ghost b2 = done;
                    lc2 = emit_var_segment(data, text, lc2, fd, &name, types, labels);
                    proof {
                        done = done.push(Seg::Var(name@));
                        lemma_segments_prefix(st0, fd@, b2, seq![Seg::Var(name@)], b2.len() as int, tm, lm);
                        assert(done =~= b2 + seq![Seg::Var(name@)]);
                        assert(lx_segments(st0, fd@, done, done.len() as int, tm, lm) == lx_segment(lx_segments(st0, fd@, b2, b2.len() as int, tm, lm), fd@, Seg::Var(name@), tm, lm));
                        assert(rest == (if o > p { seq![Seg::Text(clean@.subrange(p as int, o as int))] } else { Seq::empty() }) + seq![Seg::Var(clean@.subrange(o + 1, cl as int))] + segments(clean@, cl + 1));
                        assert(segments(clean@, 0) =~= done + segments(clean@, cl + 1));
                    }
                    p = cl + 1;
                } else {
                    let piece = sub_chars(&clean, p, len);
                    let ghost b2 = done;
                    lc2 = emit_text_segment(data, text, lc2, fd, &piece, Ghost(tm), Ghost(lm));
                    proof {
                        done = done.push(Seg::Text(piece@));
                        lemma_segments_prefix(st0, fd@, b2, seq![Seg::Text(piece@)], b2.len() as int, tm, lm);
                        assert(done =~= b2 + seq![Seg::Text(piece@)]);
                        assert(lx_segments(st0, fd@, done, done.len() as int, tm, lm) == lx_segment(lx_segments(st0, fd@, b2, b2.len() as int, tm, lm), fd@, Seg::Text(piece@), tm, lm));
                        assert(segments(clean@, 0) =~= done + Seq::<Seg>::empty());
                    }
                    go = false;
                }
            } else {
                let piece = sub_chars(&clean, p, len);
                let ghost b2 = done;
                lc2 = emit_text_segment(data, text, lc2, fd, &piece, Ghost(tm), Ghost(lm));
                proof {
                    done = done.push(Seg::Text(piece@));
                    lemma_segments_prefix(st0, fd@, b2, seq![Seg::Text(piece@)], b2.len() as int, tm, lm);
                        assert(done =~= b2 + seq![Seg::Text(piece@)]);
                        assert(lx_segments(st0, fd@, done, done.len() as int, tm, lm) == lx_segment(lx_segments(st0, fd@, b2, b2.len() as int, tm, lm), fd@, Seg::Text(piece@), tm, lm));
                    assert(segments(clean@, 0) =~= done + Seq::<Seg>::empty());
                }
                go = false;
            }
        }
        proof {
            if go {
                assert(segments(clean@, p as int) == Seq::<Seg>::empty());
            }
            assert(done =~= segments(clean@, 0));
        }
        append_newline(text, fd);
        lc2
    } else {
        let r = emit_text_piece(data, text, lc, fd, &clean, "    ;; Print string literal: \"");
        append_newline(text, fd);
        r
    }
}

fn emit_print_var(text: &mut String, v: &String, types: &NameMap<VarType>, labels: &NameMap<String>, fd: &str)
    ensures
        final(text)@ == old(text)@ + lx_print_var(v@, types@, text_map(labels@), fd@),
{
    let l = label_of(labels, v);
    let ghost tf = text@;
    append_set_fd(text, fd);
    let ghost t0 = text@;
    match types.get(v) {
        Some(VarType::String) => {
            text.append("    ;; Printing string variable '");
            text.append(v.as_str());
            text.append("'\n");
            text.append("    lea rsi, [");
            text.append(l.as_str());
            text.append("]   ;; prepare string variable '");
            text.append(v.as_str());
            text.append("' for printing\n");
            text.append("    call print_str\n");
            let ghost t1 = text@;
            append_newline(text, fd);
            assert(text@ == t0 + ("    ;; Printing string variable '"@ + v@ + "'\n"@ + "    lea rsi, ["@ + l@
                + "]   ;; prepare string variable '"@ + v@ + "' for printing\n"@ + "    call print_str\n"@
                + lx_newline(fd@))) by {
                assert(t1 == t0 + ("    ;; Printing string variable '"@ + v@ + "'\n"@ + "    lea rsi, ["@ + l@
                + "]   ;; prepare string variable '"@ + v@ + "' for printing\n"@ + "    call print_str\n"@));
            }
        },
        Some(_) => {
            text.append("    ;; Printing numeric variable '");
            text.append(v.as_str());
            text.append("'\n");
            text.append("    mov rax, [");
            text.append(l.as_str());
            text.append("]   ;; load numeric variable '");
            text.append(v.as_str());
            text.append("'\n");
            text.append("    call print_int\n");
            let ghost t1 = text@;
            append_newline(text, fd);
            assert(text@ == t0 + ("    ;; Printing numeric variable '"@ + v@ + "'\n"@ + "    mov rax, ["@ + l@
                + "]   ;; load numeric variable '"@ + v@ + "'\n"@ + "    call print_int\n"@
                + lx_newline(fd@))) by {
                assert(t1 == t0 + ("    ;; Printing numeric variable '"@ + v@ + "'\n"@ + "    mov rax, ["@ + l@
                + "]   ;; load numeric variable '"@ + v@ + "'\n"@ + "    call print_int\n"@));
            }
        },
        None => {
            text.append("    ;; Printing variable '");
            text.append(v.as_str());
            text.append("' with unknown type\n");
            text.append("    mov rax, [");
            text.append(l.as_str());
            text.append("]   ;; load variable '");
            text.append(v.as_str());
            text.append("'\n");
            text.append("    call print_int\n");
            let ghost t1 = text@;
            append_newline(text, fd);
            assert(text@ == t0 + ("    ;; Printing variable '"@ + v@ + "' with unknown type\n"@ + "    mov rax, ["@ + l@
                + "]   ;; load variable '"@ + v@ + "'\n"@ + "    call print_int\n"@ + lx_newline(fd@))) by {
                assert(t1 == t0 + ("    ;; Printing variable '"@ + v@ + "' with unknown type\n"@ + "    mov rax, ["@ + l@
                + "]   ;; load variable '"@ + v@ + "'\n"@ + "    call print_int\n"@));
            }
        },
    }
    assert(t0 == tf + lx_set_fd(fd@));
}

fn emit_print(
    data: &mut String,
    text: &mut String,
    lc: usize,
    to_stderr: bool,
    expr: &Option<Expression>,
    types: &NameMap<VarType>,
    labels: &NameMap<String>,
) -> (r: usize)
    ensures
        ({
            let nx = lx_print(
                LxState { data: old(data)@, text: old(text)@, lc },
                to_stderr,
                crate::ast::opt_view(*expr),
                types@,
                text_map(labels@),
            );
            final(data)@ == nx.data && final(text)@ == nx.text && r == nx.lc
        }),
{
    let fd = fd_text(to_stderr);
    match expr {
        Some(Expression::Literal(lit)) => emit_print_literal(data, text, lc, fd, lit, types, labels),
        Some(Expression::Identifier(v)) => {
            emit_print_var(text, v, types, labels, fd);
            lc
        },
        Some(_) => {
            text.append("    ;; Complex expression in print statement\n    ;; printing of complex expressions is not supported\n");
            lc
        },
        None => {
            append_newline(text, fd);
            lc
        },
    }
}

fn emit_decl(text: &mut String, name: &String, value: &Option<Expression>, labels: &NameMap<String>)
    ensures
        final(text)@ == old(text)@ + lx_decl(name@, crate::ast::opt_view(*value), text_map(labels@)),
{
    let ghost t0 = text@;
    text.append("    ;; Variable '");
    text.append(name.as_str());
    text.append("' already declared in data/bss section\n");
    let ghost t1 = text@;
    if let Some(Expression::Literal(v)) = value {
        proof {
            reveal_strlit("true");
            reveal_strlit("false");
        }
        let vs = chars_of(v.as_str());
        let operand = if vs.len() == 4 && vs[0] == 't' && vs[1] == 'r' && vs[2] == 'u' && vs[3] == 'e' {
            assert(v@ =~= "true"@);
            String::from_str("1")
        } else if vs.len() == 5 && vs[0] == 'f' && vs[1] == 'a' && vs[2] == 'l' && vs[3] == 's' && vs[4] == 'e' {
            assert(v@ =~= "false"@);
            assert(v@ != "true"@);
            String::from_str("0")
        } else {
            assert(v@ != "true"@ && v@ != "false"@) by {
                if v@ == "true"@ {
                    assert(vs@.len() == 4);
                }
                if v@ == "false"@ {
                    assert(vs@.len() == 5);
                }
            }
            v.clone()
        };
        let l = label_of(labels, name);
        text.append("    ;; Initialize variable '");
        text.append(name.as_str());
        text.append("'\n");
        text.append("    mov qword [");
        text.append(l.as_str());
        text.append("], ");
        text.append(operand.as_str());
        text.append("   ;; set value of '");
        text.append(name.as_str());
        text.append("'\n");
        assert(text@ == t1 + ("    ;; Initialize variable '"@ + name@ + "'\n"@ + "    mov qword ["@
            + l@ + "], "@ + lx_init_value(v@) + "   ;; set value of '"@ + name@ + "'\n"@));
    } else {
        assert(text@ == t1 + Seq::<char>::empty());
    }
}

fn emit_divide(text: &mut String)
    ensures
        final(text)@ == old(text)@ + lx_divide(),
{
    text.append("    cqo   ;; sign-extend RAX to RDX:RAX for division\n    idiv rcx   ;; divide RDX:RAX by RCX\n");
}

fn emit_math_operand(text: &mut String, operator: MathOperator, operand: &Expression, labels: &NameMap<String>)
    ensures
        final(text)@ == old(text)@ + lx_math_operand(operator, expr_view(*operand), text_map(labels@)),
{
    let ghost t0 = text@;
    match operand {
        Expression::Literal(val) => {
            let n = decimal_i64(parse_i64_or_zero(&chars_of(val.as_str())));
            match operator {
                MathOperator::Add => {
                    text.append("    add rax, ");
                    text.append(n.as_str());
                    text.append("   ;; add literal value\n");
                },
                MathOperator::Subtract => {
                    text.append("    sub rax, ");
                    text.append(n.as_str());
                    text.append("   ;; subtract literal value\n");
                },
                MathOperator::Multiply => {
                    text.append("    imul rax, ");
                    text.append(n.as_str());
                    text.append("   ;; multiply by literal value\n");
                },
                MathOperator::Divide => {
                    text.append("    mov rcx, ");
                    text.append(n.as_str());
                    text.append("   ;; set divisor\n");
                    let ghost t1 = text@;
                    emit_divide(text);
                    assert(text@ == t0 + ("    mov rcx, "@ + n@ + "   ;; set divisor\n"@ + lx_divide())) by {
                        assert(t1 == t0 + ("    mov rcx, "@ + n@ + "   ;; set divisor\n"@));
                    }
                },
            }
        },
        Expression::Identifier(v) => {
            match labels.get(v) {
                Some(l) => {
                    text.append("    mov rcx, [");
                    text.append(l.as_str());
                    text.append("]   ;; load second variable\n");
                    let ghost t1 = text@;
                    match operator {
                        MathOperator::Add => {
                            text.append("    add rax, rcx   ;; add variables\n");
                        },
                        MathOperator::Subtract => {
                            text.append("    sub rax, rcx   ;; subtract variables\n");
                        },
                        MathOperator::Multiply => {
                            text.append("    imul rax, rcx   ;; multiply variables\n");
                        },
                        MathOperator::Divide => {
                            emit_divide(text);
                        },
                    }
                    assert(t1 == t0 + ("    mov rcx, ["@ + l@ + "]   ;; load second variable\n"@));
                },
                None => {
                    text.append("    ;; Warning: variable '");
                    text.append(v.as_str());
                    text.append("' not found, operation skipped\n");
                },
            }
        },
        _ => {
            text.append("    ;; Complex expression in math operation - not implemented\n");
        },
    }
}

fn emit_math(text: &mut String, name: &String, operator: MathOperator, operand: &Expression, labels: &NameMap<String>)
    ensures
        final(text)@ == old(text)@ + lx_math(name@, operator, expr_view(*operand), text_map(labels@)),
{
    let l = label_of(labels, name);
    let ghost t0 = text@;
    text.append("    ;; Math operation on variable '");
    text.append(name.as_str());
    text.append("'\n");
    text.append("    mov rax, [");
    text.append(l.as_str());
    text.append("]   ;; load variable\n");
    let ghost t1 = text@;
    emit_math_operand(text, operator, operand, labels);
    let ghost t2 = text@;
    text.append("    mov [");
    text.append(l.as_str());
    text.append("], rax   ;; store result in variable\n");
    assert(text@ == t0 + ("    ;; Math operation on variable '"@ + name@ + "'\n"@ + "    mov rax, ["@ + l@
        + "]   ;; load variable\n"@ + lx_math_operand(operator, expr_view(*operand), text_map(labels@))
        + "    mov ["@ + l@ + "], rax   ;; store result in variable\n"@)) by {
        assert(t1 == t0 + ("    ;; Math operation on variable '"@ + name@ + "'\n"@ + "    mov rax, ["@ + l@
            + "]   ;; load variable\n"@));
        assert(t2 == t1 + lx_math_operand(operator, expr_view(*operand), text_map(labels@)));
    }
}

fn emit_read_number(text: &mut String, name: &String, l: &String)
    ensures
        final(text)@ == old(text)@ + lx_read_number(name@, l@),
{
    let ghost t0 = text@;
    text.append("    ;; Reading numeric input\n    mov rax, 0   ;; syscall: read\n    mov rdi, 0   ;; file descriptor: stdin\n    mov rsi, num_buffer   ;; buffer to store input\n    mov rdx, 19   ;; max bytes to read\n    syscall   ;; call read syscall\n    mov rdi, num_buffer   ;; prepare string for trimming\n    call trim_newline   ;; remove trailing newline\n    ;; Convert string to integer\n    mov rsi, num_buffer   ;; buffer with number string\n    xor rax, rax   ;; clear accumulator\n    xor rcx, rcx   ;; clear counter\n");
    text.append(".convert_loop_");
    text.append(name.as_str());
    text.append(":\n");
    text.append("    mov bl, [rsi + rcx]   ;; get next character\n    cmp bl, 0   ;; check for end of string\n");
    text.append("    je .done_convert_");
    text.append(name.as_str());
    text.append("   ;; if at end, we're done\n");
    text.append("    sub bl, '0'   ;; convert ASCII to digit value\n    imul rax, 10   ;; multiply accumulator by 10\n    add rax, rbx   ;; add new digit\n    inc rcx   ;; move to next character\n");
    text.append("    jmp .convert_loop_");
    text.append(name.as_str());
    text.append("\n");
    text.append(".done_convert_");
    text.append(name.as_str());
    text.append(":\n");
    text.append("    mov [");
    text.append(l.as_str());
    text.append("], rax   ;; store numeric value in variable\n");
    assert(text@ == t0 + lx_read_number(name@, l@));
}

fn emit_read_string(text: &mut String, l: &String)
    ensures
        final(text)@ == old(text)@ + lx_read_string(l@),
{
    let ghost t0 = text@;
    text.append("    ;; Reading string input\n    mov rax, 0   ;; syscall: read\n    mov rdi, 0   ;; file descriptor: stdin\n");
    text.append("    lea rsi, [");
    text.append(l.as_str());
    text.append("]   ;; buffer to store input\n");
    text.append("    mov rdx, 255   ;; max bytes to read\n    syscall   ;; call read syscall\n");
    text.append("    lea rdi, [");
    text.append(l.as_str());
    text.append("]   ;; prepare string for trimming\n");
    text.append("    call trim_newline   ;; remove trailing newline\n");
    assert(text@ == t0 + lx_read_string(l@));
}

fn emit_input(text: &mut String, name: &String, types: &NameMap<VarType>, labels: &NameMap<String>)
    ensures
        final(text)@ == old(text)@ + lx_input(name@, types@, text_map(labels@)),
{
    let ghost t0 = text@;
    text.append("    ;; Reading input into variable '");
    text.append(name.as_str());
    text.append("'\n");
    let ghost t1 = text@;
    match labels.get(name) {
        Some(l) => {
            match types.get(name) {
                Some(VarType::String) => emit_read_string(text, l),
                Some(VarType::Int) => emit_read_number(text, name, l),
                Some(VarType::Float) => emit_read_number(text, name, l),
                Some(VarType::Char { .. }) => {
                    text.append("    ;; Unsupported variable type for input\n");
                },
                None => {
                    assert(text@ == text@ + Seq::<char>::empty());
                },
            }
        },
        None => {
            text.append("    ;; Error: variable '");
            text.append(name.as_str());
            text.append("' not declared\n");
        },
    }
    assert(text@ == t1 + (text@.subrange(t1.len() as int, text@.len() as int)));
}

fn emit_lx_load(text: &mut String, e: &Expression, labels: &NameMap<String>)
    ensures
        final(text)@ == old(text)@ + lx_load(expr_view(*e), text_map(labels@)),
{
    let ghost t0 = text@;
    match e {
        Expression::Literal(v) => {
            let n = decimal_i64(parse_i64_or_zero(&chars_of(v.as_str())));
            text.append("    mov rax, ");
            text.append(n.as_str());
            text.append("\n");
            assert(text@ == t0 + ("    mov rax, "@ + n@ + "\n"@));
        },
        Expression::Identifier(v) => {
            let l = label_of(labels, v);
            text.append("    mov rax, [");
            text.append(l.as_str());
            text.append("]\n");
            assert(text@ == t0 + ("    mov rax, ["@ + l@ + "]\n"@));
        },
        _ => {
            assert(text@ == t0 + Seq::<char>::empty());
        },
    }
}

fn emit_lx_operand(text: &mut String, e: &Expression, labels: &NameMap<String>)
    ensures
        final(text)@ == old(text)@ + lx_operand(expr_view(*e), text_map(labels@)),
    decreases e, 1int,
{
    match e {
        Expression::Literal(_) | Expression::Identifier(_) => emit_lx_load(text, e, labels),
        _ => emit_lx_truth(text, e, labels),
    }
}

fn emit_lx_truth(text: &mut String, e: &Expression, labels: &NameMap<String>)
    ensures
        final(text)@ == old(text)@ + lx_truth(expr_view(*e), text_map(labels@)),
    decreases e, 0int,
{
    let ghost t0 = text@;
    match e {
        Expression::BinaryOp { left, operator, right } => {
            emit_lx_operand(text, left, labels);
            let ghost t1 = text@;
            text.append("    push rax\n");
            emit_lx_operand(text, right, labels);
            let ghost t2 = text@;
            text.append("    mov rcx, rax\n    pop rax\n    cmp rax, rcx\n    ");
            text.append(
                match operator {
                    ComparisonOperator::Equal => "sete",
                    ComparisonOperator::NotEqual => "setne",
                    ComparisonOperator::LessThan => "setl",
                    ComparisonOperator::LessThanEqual => "setle",
                    ComparisonOperator::GreaterThan => "setg",
                    ComparisonOperator::GreaterThanEqual => "setge",
                },
            );
            text.append(" al\n    movzx rax, al\n");
            assert(text@ == t0 + lx_truth(expr_view(*e), text_map(labels@))) by {
                assert(t1 == t0 + lx_operand(expr_view(**left), text_map(labels@)));
                assert(t2 == t1 + "    push rax\n"@ + lx_operand(expr_view(**right), text_map(labels@)));
            }
        },
        Expression::LogicalOp { left, operator, right } => {
            emit_lx_truth(text, left, labels);
            let ghost t1 = text@;
            text.append("    push rax\n");
            emit_lx_truth(text, right, labels);
            let ghost t2 = text@;
            text.append("    pop rcx\n    ");
            text.append(
                match operator {
                    LogicalOperator::And => "and",
                    LogicalOperator::Or => "or",
                },
            );
            text.append(" rax, rcx\n");
            assert(text@ == t0 + lx_truth(expr_view(*e), text_map(labels@))) by {
                assert(t1 == t0 + lx_truth(expr_view(**left), text_map(labels@)));
                assert(t2 == t1 + "    push rax\n"@ + lx_truth(expr_view(**right), text_map(labels@)));
            }
        },
        _ => {
            emit_lx_load(text, e, labels);
            text.append("    cmp rax, 0\n    setne al\n    movzx rax, al\n");
        },
    }
}

fn emit_lx_node(
    data: &mut String,
    text: &mut String,
    lc: usize,
    node: &ASTNode,
    types: &NameMap<VarType>,
    labels: &NameMap<String>,
) -> (r: usize)
    ensures
        ({
            let nx = lx_node(LxState { data: old(data)@, text: old(text)@, lc }, node_view(*node), types@, text_map(labels@));
            final(data)@ == nx.data && final(text)@ == nx.text && r == nx.lc
        }),
    decreases node,
{
    match node {
        ASTNode::Print { to_stderr, expr } => emit_print(data, text, lc, *to_stderr, expr, types, labels),
        ASTNode::VarDeclaration { name, value, .. } => {
            emit_decl(text, name, value, labels);
            lc
        },
        ASTNode::MathOp { name, operator, operand } => {
            emit_math(text, name, *operator, operand, labels);
            lc
        },
        ASTNode::Input { name } => {
            emit_input(text, name, types, labels);
            lc
        },
        ASTNode::If { condition, body } => {
            let ghost st0 = LxState { data: data@, text: text@, lc };
            let mut end = String::from_str(".endif_");
            let d = decimal(lc);
            end.append(d.as_str());
            let ghost t0 = text@;
            text.append("    ;; Conditional\n");
            emit_lx_truth(text, condition, labels);
            text.append("    cmp rax, 0\n    je ");
            text.append(end.as_str());
            text.append("\n");
            let ghost bv = match node_view(*node) {
                NodeV::If { body, .. } => body,
                _ => Seq::empty(),
            };
            let ghost st1 = LxState { data: data@, text: text@, lc: bump(lc) };
            assert(st1.text == t0 + "    ;; Conditional\n"@ + lx_truth(expr_view(*condition), text_map(labels@))
                + "    cmp rax, 0\n    je "@ + end@ + "\n"@);
            let mut k = bump_exec(lc);
            let mut i: usize = 0;
            assert(decreases_to!(*node => *body));
            while i < body.len()
                invariant
                    decreases_to!(*node => *body),
                    i <= body@.len(),
                    bv.len() == body@.len(),
                    forall|j: int| 0 <= j < bv.len() ==> #[trigger] bv[j] == node_view(body@[j]),
                    lx_body(st1, bv, i as int, types@, text_map(labels@)) == (LxState { data: data@, text: text@, lc: k }),
                decreases body@.len() - i,
            {
                proof {
                    assert(decreases_to!(*body => body[i as int]));
                    assert(bv[i as int] == node_view(body@[i as int]));
                }
                k = emit_lx_node(data, text, k, &body[i], types, labels);
                i += 1;
            }
            text.append(end.as_str());
            text.append(":\n");
            k
        },
    }
}

/// x86-64 Linux assembly for `ast` (see `lx_program`): strings in `.data`, one reservation
/// per declared variable in `.bss`, and `write`/`read` system calls in `.text`; placeholders
/// are printed from the variables at run time.
#[verifier::rlimit(40)]
pub fn transpile_lx8664(ast: &AST) -> (r: String)
    ensures
        r@ == lx_program(nodes_view(ast.nodes())),
{
    let nodes = match ast {
        AST::Program(v) => v,
    };
    let ghost s = nodes_view(nodes@);
    let (labels, bss) = build_labels(nodes);
    let types = collect_decl_types(nodes);
    let ghost tm = types@;
    let ghost lm = text_map(labels@);
    let mut data = String::new();
    data.append("section .data\n");
    data.append("newline: db 0x0A   ;; defines newline\n");
    data.append("    int_buffer: times 16 db 0  ;; Buffer for integer/float string conversion\n");
    let mut text = String::new();
    text.append("section .text\n");
    text.append("global _start\n");
    text.append("_start:\n");
    text.append("    ;; _start: program entry point\n");
    let mut lc: usize = 0;
    let mut i: usize = 0;
    while i < nodes.len()
        invariant
            i <= nodes@.len(),
            s == nodes_view(nodes@),
            nodes@ == ast.nodes(),
            tm == types@,
            lm == text_map(labels@),
            tm == decl_types(s, s.len() as int),
            lm == lx_labels(s, s.len() as int),
            lx_nodes(s, i as int, tm, lm) == (LxState { data: data@, text: text@, lc }),
        decreases nodes@.len() - i,
    {
        proof {
            assert(s[i as int] == node_view(nodes@[i as int]));
        }
        lc = emit_lx_node(&mut data, &mut text, lc, &nodes[i], &types, &labels);
        i += 1;
    }
    text.append("\n    ;; Exiting program\n");
    text.append("    mov rax, 60   ;; syscall: exit\n");
    text.append("    xor rdi, rdi   ;; exit status 0\n");
    text.append("    syscall\n");
    text.append("\nprint_int:\n    mov rsi, num_buffer + 19   ;; set pointer to end of num_buffer\n    mov byte [rsi], 0   ;; null-terminate\n    mov rbx, 10   ;; divisor for conversion\n.int_to_str:\n    dec rsi   ;; move pointer left\n    xor rdx, rdx   ;; clear remainder register\n    div rbx   ;; divide rax by 10\n    add dl, '0'   ;; convert remainder to ASCII digit\n    mov [rsi], dl   ;; store digit\n    test rax, rax   ;; check if quotient is zero\n    jnz .int_to_str   ;; loop if not zero\n    mov rax, 1   ;; syscall: write\n    mov rdi, r8   ;; file descriptor\n    mov rdx, num_buffer + 19\n    sub rdx, rsi   ;; compute length of converted string\n    syscall   ;; write string\n    ret\n\n");
    text.append("print_str:\n    mov rcx, 0   ;; initialize counter\n.count_loop:\n    cmp byte [rsi + rcx], 0   ;; check for null terminator\n    je .check_newline\n    inc rcx\n    jmp .count_loop\n.check_newline:\n    cmp rcx, 0\n    je .done\n    dec rcx\n    cmp byte [rsi + rcx], 0x0A   ;; check if last character is newline\n    jne .print\n    jmp .done\n.print:\n    inc rcx\n    mov rax, 1\n    mov rdi, r8\n    mov rdx, rcx   ;; length of string\n    syscall\n.done:\n    ret\n\n");
    text.append("trim_newline:\n    push rbx\n    mov rcx, 0\n.trim_loop:\n    mov al, [rdi + rcx]\n    cmp al, 0   ;; end of string check\n    je .done\n    cmp al, 0x0A   ;; check for newline\n    je .replace\n    inc rcx\n    jmp .trim_loop\n.replace:\n    mov byte [rdi + rcx], 0   ;; replace newline with null\n.done:\n    pop rbx\n    ret\n");
    let mut out = data;
    out.append("\n");
    out.append("section .bss\n");
    out.append("    num_buffer: resb 20   ;; reserve 20 bytes for num_buffer\n");
    out.append(bss.as_str());
    out.append("\n");
    out.append(text.as_str());
    out
}

} // verus!
