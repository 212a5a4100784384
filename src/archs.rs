use vstd::prelude::*;

use crate::emit_common::{bump, bump_exec};
use crate::numtext::{dec, decimal};
use crate::placeholders::trim_blank;
use crate::placeholders::trim_range;
use crate::text::chars_of;

verus! {

/// A flat statement for the native assembly back ends.
pub enum Types {
    /// Print a string constant, written as the assembler should see it.
    Print(String),
    /// An immutable variable: name, value, and kind (`txt`, `num` or `dec`).
    SVar(String, String, String),
    /// A mutable variable: name, value, and kind.
    MVar(String, String, String),
    /// Print the contents of a variable, by name.
    PVarUse(String),
}

/// The mathematical value of a flat statement: its kind tag and its texts.
pub open spec fn types_view(t: Types) -> (int, Seq<char>, Seq<char>, Seq<char>) {
    match t {
        Types::Print(s) => (0, s@, Seq::empty(), Seq::empty()),
        Types::SVar(n, v, k) => (1, n@, v@, k@),
        Types::MVar(n, v, k) => (2, n@, v@, k@),
        Types::PVarUse(n) => (3, n@, Seq::empty(), Seq::empty()),
    }
}

/// A variable's storage line in the Linux layouts, by kind; nothing for another kind.
pub open spec fn linux_var(name: Seq<char>, value: Seq<char>, kind: Seq<char>) -> Seq<char> {
    if kind == "txt"@ {
        "    "@ + name + " db '"@ + value + "', 0"@ + "\n"@
    } else if kind == "num"@ {
        "    "@ + name + " dd "@ + value + "\n"@
    } else if kind == "dec"@ {
        "    "@ + name + " dq "@ + value + "\n"@
    } else {
        Seq::empty()
    }
}

/// The state of the first pass of the Linux layouts: the data lines, the messages (label,
/// definition) and the label counter.
pub struct LinuxGather {
    pub data: Seq<char>,
    pub msgs: Seq<(Seq<char>, Seq<char>)>,
    pub n: usize,
}

pub open spec fn linux_gather(ts: Seq<Types>, k: int) -> LinuxGather
    decreases k,
{
    if k <= 0 {
        LinuxGather { data: Seq::empty(), msgs: Seq::empty(), n: 0 }
    } else {
        let g = linux_gather(ts, k - 1);
        let (tag, a, b, c) = types_view(ts[k - 1]);
        if tag == 0 {
            let label = "message_"@ + dec(g.n as nat);
            LinuxGather {
                data: g.data,
                msgs: g.msgs.push((label, "    "@ + label + " db "@ + a + ", 0"@)),
                n: bump(g.n),
            }
        } else if tag == 1 || tag == 2 {
            LinuxGather { data: g.data + linux_var(a, b, c), msgs: g.msgs, n: g.n }
        } else {
            LinuxGather { data: g.data, msgs: g.msgs.push((a, a)), n: g.n }
        }
    }
}

/// The message definitions among the first `k` messages: those that start with `message`
/// once blanks are trimmed.
pub open spec fn linux_defs(msgs: Seq<(Seq<char>, Seq<char>)>, k: int) -> Seq<char>
    decreases k,
{
    if k <= 0 {
        Seq::empty()
    } else {
        linux_defs(msgs, k - 1) + {
            let t = trim_blank(msgs[k - 1].1);
            if t.len() >= 7 && t.subrange(0, 7) == "message"@ {
                msgs[k - 1].1 + "\n"@
            } else {
                Seq::empty()
            }
        }
    }
}

pub open spec fn l64_write(name: Seq<char>, n: usize) -> Seq<char> {
    let ll = "find_length_"@ + dec(n as nat);
    let dl = "done_length_"@ + dec(n as nat);
    "    mov rax, 1          ; sys_write\n"@ + "    mov rdi, 1          ; stdout\n"@ + "    mov rsi, "@ + name
        + "\n"@ + "    xor rdx, rdx\n"@ + "    mov rcx, rsi\n"@ + "    "@ + ll + ":\n"@
        + "        cmp byte [rcx], 0\n"@ + "        je "@ + dl + "\n"@ + "        inc rcx\n"@
        + "        inc rdx\n"@ + "        jmp "@ + ll + "\n"@ + dl + ":\n"@ + "    syscall\n\n"@
}

pub open spec fn l32_write(name: Seq<char>, n: usize) -> Seq<char> {
    "    mov eax, 4          ; sys_write\n"@ + "    mov ebx, 1          ; stdout\n"@ + "    mov ecx, "@ + name
        + "\n"@ + "    mov edx, 0          ; Initialize length\n"@ + "    find_length_"@ + dec(n as nat)
        + ":\n"@ + "        cmp byte [ecx + edx], 0\n"@ + "        je done_length_"@ + dec(n as nat)
        + "\n"@ + "        inc edx\n"@ + "        jmp find_length_"@ + dec(n as nat) + "\n"@
        + "    done_length_"@ + dec(n as nat) + ":\n"@ + "    int 0x80            ; Call kernel\n\n"@
}

/// The write blocks of the first `k` messages, numbered from `n`.
pub open spec fn linux_writes(msgs: Seq<(Seq<char>, Seq<char>)>, n: usize, k: int, wide: bool) -> Seq<char>
    decreases k,
{
    if k <= 0 {
        Seq::empty()
    } else {
        linux_writes(msgs, n, k - 1, wide) + if wide {
            l64_write(msgs[k - 1].0, bump_n(n, k - 1))
        } else {
            l32_write(msgs[k - 1].0, bump_n(n, k - 1))
        }
    }
}

/// `n` bumped `k` times.
pub open spec fn bump_n(n: usize, k: int) -> usize
    decreases k,
{
    if k <= 0 {
        n
    } else {
        bump(bump_n(n, k - 1))
    }
}

pub open spec fn linux_program(ts: Seq<Types>, wide: bool) -> Seq<char> {
    let g = linux_gather(ts, ts.len() as int);
    "section .data\n\n"@ + g.data + linux_defs(g.msgs, g.msgs.len() as int) + "\nsection .text\n"@
        + "global _start\n\n"@ + "_start:\n"@ + linux_writes(g.msgs, g.n, g.msgs.len() as int, wide)
        + if wide {
        "    mov rax, 60         ; sys_exit\n"@ + "    xor rdi, rdi\n"@ + "    syscall\n"@
    } else {
        "    mov eax, 1          ; sys_exit\n"@ + "    xor ebx, ebx\n"@ + "    int 0x80\n"@
    }
}

fn kind_is(kind: &String, word: &str) -> (r: bool)
    ensures
        r == (kind@ == word@),
{
    *kind == String::from_str(word)
}

fn gather(tokens: &Vec<Types>) -> (r: (String, Vec<(String, String)>, usize))
    ensures
        ({
            let g = linux_gather(tokens@, tokens@.len() as int);
            r.0@ == g.data && r.1@.map_values(|p: (String, String)| (p.0@, p.1@)) == g.msgs && r.2 == g.n
        }),
{
    let mut data = String::new();
    let mut msgs: Vec<(String, String)> = Vec::new();
    let mut n: usize = 0;
    let mut i: usize = 0;
    while i < tokens.len()
        invariant
            i <= tokens@.len(),
            ({
                let g = linux_gather(tokens@, i as int);
                data@ == g.data && msgs@.map_values(|p: (String, String)| (p.0@, p.1@)) == g.msgs && n == g.n
            }),
        decreases tokens@.len() - i,
    {
        let ghost m0 = msgs@;
        match &tokens[i] {
            Types::Print(text) => {
                let mut label = String::from_str("message_");
                let d = decimal(n);
                label.append(d.as_str());
                let mut msg = String::from_str("    ");
                msg.append(label.as_str());
                msg.append(" db ");
                msg.append(text.as_str());
                msg.append(", 0");
                msgs.push((label, msg));
                assert(msgs@.map_values(|p: (String, String)| (p.0@, p.1@)) =~= m0.map_values(|p: (String, String)| (p.0@, p.1@)).push((label@, msg@)));
                n = bump_exec(n);
            },
            Types::SVar(name, value, kind) | Types::MVar(name, value, kind) => {
                let ghost d0 = data@;
                if kind_is(kind, "txt") {
                    data.append("    ");
                    data.append(name.as_str());
                    data.append(" db '");
                    data.append(value.as_str());
                    data.append("', 0");
                    data.append("\n");
                } else if kind_is(kind, "num") {
                    data.append("    ");
                    data.append(name.as_str());
                    data.append(" dd ");
                    data.append(value.as_str());
                    data.append("\n");
                } else if kind_is(kind, "dec") {
                    data.append("    ");
                    data.append(name.as_str());
                    data.append(" dq ");
                    data.append(value.as_str());
                    data.append("\n");
                }
                assert(data@ =~= d0 + linux_var(name@, value@, kind@));
            },
            Types::PVarUse(name) => {
                msgs.push((name.clone(), name.clone()));
                assert(msgs@.map_values(|p: (String, String)| (p.0@, p.1@)) =~= m0.map_values(|p: (String, String)| (p.0@, p.1@)).push((name@, name@)));
            },
        }
        i += 1;
    }
    (data, msgs, n)
}

fn starts_message(msg: &String) -> (r: bool)
    ensures
        r == ({
            let t = trim_blank(msg@);
            t.len() >= 7 && t.subrange(0, 7) == "message"@
        }),
{
    let cs = chars_of(msg.as_str());
    let (a, b) = trim_range(&cs, 0, cs.len());
    assert(cs@.subrange(0, cs@.len() as int) == cs@);
    proof {
        reveal_strlit("message");
    }
    if b - a < 7 {
        return false;
    }
    let ok = cs[a] == 'm' && cs[a + 1] == 'e' && cs[a + 2] == 's' && cs[a + 3] == 's' && cs[a + 4] == 'a'
        && cs[a + 5] == 'g' && cs[a + 6] == 'e';
    let ghost t = cs@.subrange(a as int, b as int);
    if ok {
        assert(t.subrange(0, 7) =~= "message"@);
    } else {
        assert(t.subrange(0, 7) != "message"@) by {
            if t.subrange(0, 7) == "message"@ {
                assert(forall|k: int| 0 <= k < 7 ==> #[trigger] t.subrange(0, 7)[k] == cs@[a + k]);
                assert(t.subrange(0, 7)[0] == 'm');
                assert(t.subrange(0, 7)[1] == 'e');
                assert(t.subrange(0, 7)[2] == 's');
                assert(t.subrange(0, 7)[3] == 's');
                assert(t.subrange(0, 7)[4] == 'a');
                assert(t.subrange(0, 7)[5] == 'g');
                assert(t.subrange(0, 7)[6] == 'e');
            }
        }
    }
    ok
}

fn emit_l64_write(asm_code: &mut String, name: &String, label: usize)
    ensures
        final(asm_code)@ == old(asm_code)@ + l64_write(name@, label),
{
    let d = decimal(label);
    let ghost a0 = asm_code@;
    let mut ll = String::from_str("find_length_");
    ll.append(d.as_str());
    let mut dl = String::from_str("done_length_");
    dl.append(d.as_str());
    asm_code.append("    mov rax, 1          ; sys_write\n");
    asm_code.append("    mov rdi, 1          ; stdout\n");
    asm_code.append("    mov rsi, ");
    asm_code.append(name.as_str());
    asm_code.append("\n");
    asm_code.append("    xor rdx, rdx\n");
    asm_code.append("    mov rcx, rsi\n");
    asm_code.append("    ");
    asm_code.append(ll.as_str());
    asm_code.append(":\n");
    asm_code.append("        cmp byte [rcx], 0\n");
    asm_code.append("        je ");
    asm_code.append(dl.as_str());
    asm_code.append("\n");
    asm_code.append("        inc rcx\n");
    asm_code.append("        inc rdx\n");
    asm_code.append("        jmp ");
    asm_code.append(ll.as_str());
    asm_code.append("\n");
    asm_code.append(dl.as_str());
    asm_code.append(":\n");
    asm_code.append("    syscall\n\n");
    assert(asm_code@ == a0 + l64_write(name@, label));
}

fn emit_l32_write(asm_code: &mut String, name: &String, label: usize)
    ensures
        final(asm_code)@ == old(asm_code)@ + l32_write(name@, label),
{
    let d = decimal(label);
    let ghost a0 = asm_code@;
    asm_code.append("    mov eax, 4          ; sys_write\n");
    asm_code.append("    mov ebx, 1          ; stdout\n");
    asm_code.append("    mov ecx, ");
    asm_code.append(name.as_str());
    asm_code.append("\n");
    asm_code.append("    mov edx, 0          ; Initialize length\n");
    asm_code.append("    find_length_");
    asm_code.append(d.as_str());
    asm_code.append(":\n");
    asm_code.append("        cmp byte [ecx + edx], 0\n");
    asm_code.append("        je done_length_");
    asm_code.append(d.as_str());
    asm_code.append("\n");
    asm_code.append("        inc edx\n");
    asm_code.append("        jmp find_length_");
    asm_code.append(d.as_str());
    asm_code.append("\n");
    asm_code.append("    done_length_");
    asm_code.append(d.as_str());
    asm_code.append(":\n");
    asm_code.append("    int 0x80            ; Call kernel\n\n");
    assert(asm_code@ == a0 + l32_write(name@, label));
}

fn emit_linux(tokens: &Vec<Types>, wide: bool) -> (r: String)
    ensures
        r@ == linux_program(tokens@, wide),
{
    let (data, msgs, n) = gather(tokens);
    let ghost mv = msgs@.map_values(|p: (String, String)| (p.0@, p.1@));
    let mut asm_code = String::from_str("section .data\n\n");
    asm_code.append(data.as_str());
    let ghost h = asm_code@;
    let mut i: usize = 0;
    while i < msgs.len()
        invariant
            i <= msgs@.len(),
            mv == msgs@.map_values(|p: (String, String)| (p.0@, p.1@)),
            asm_code@ == h + linux_defs(mv, i as int),
        decreases msgs@.len() - i,
    {
        let msg = &msgs[i].1;
        assert(mv[i as int].1 == msg@);
        if starts_message(msg) {
            asm_code.append(msg.as_str());
            asm_code.append("\n");
        } else {
            assert(asm_code@ == asm_code@ + Seq::<char>::empty());
        }
        i += 1;
    }
    asm_code.append("\nsection .text\n");
    asm_code.append("global _start\n\n");
    asm_code.append("_start:\n");
    let ghost h2 = asm_code@;
    let mut label = n;
    let mut j: usize = 0;
    while j < msgs.len()
        invariant
            j <= msgs@.len(),
            mv == msgs@.map_values(|p: (String, String)| (p.0@, p.1@)),
            label == bump_n(n, j as int),
            asm_code@ == h2 + linux_writes(mv, n, j as int, wide),
        decreases msgs@.len() - j,
    {
        let name = &msgs[j].0;
        assert(mv[j as int].0 == name@);
        if wide {
            emit_l64_write(&mut asm_code, name, label);
        } else {
            emit_l32_write(&mut asm_code, name, label);
        }
        label = bump_exec(label);
        j += 1;
    }
    if wide {
        asm_code.append("    mov rax, 60         ; sys_exit\n");
        asm_code.append("    xor rdi, rdi\n");
        asm_code.append("    syscall\n");
    } else {
        asm_code.append("    mov eax, 1          ; sys_exit\n");
        asm_code.append("    xor ebx, ebx\n");
        asm_code.append("    int 0x80\n");
    }
    asm_code
}

/// 64-bit Linux assembly for `tokens`: `syscall` with `rax`/`rdi`/`rsi`/`rdx`, string
/// lengths counted at run time (see `linux_program`).
pub fn lfor64(tokens: Vec<Types>) -> (r: String)
    ensures
        r@ == linux_program(tokens@, true),
{
    emit_linux(&tokens, true)
}

/// 32-bit Linux assembly for `tokens`: `int 0x80` with `eax`/`ebx`/`ecx`/`edx` (see
/// `linux_program`).
pub fn lfor32(tokens: Vec<Types>) -> (r: String)
    ensures
        r@ == linux_program(tokens@, false),
{
    emit_linux(&tokens, false)
}

/// A variable's storage line in the Windows and macOS layouts, by kind (`dd` for `num`
/// unless `wide_num`, which stores it as `dq`); nothing for another kind.
pub open spec fn plain_var(name: Seq<char>, value: Seq<char>, kind: Seq<char>, wide_num: bool) -> Seq<char> {
    if kind == "txt"@ {
        name + " db '"@ + value + "', 0\n"@
    } else if kind == "num"@ {
        name + (if wide_num {
            " dq "@
        } else {
            " dd "@
        }) + value + "\n"@
    } else if kind == "dec"@ {
        name + " dq "@ + value + "\n"@
    } else {
        Seq::empty()
    }
}

/// The state of a Windows layout: the code, the message definitions and the length
/// definitions so far.
pub struct WinState {
    pub code: Seq<char>,
    pub msgs: Seq<char>,
    pub lens: Seq<char>,
}

pub open spec fn w32_print(i: nat) -> Seq<char> {
    "    mov edx, length_"@ + dec(i) + " ; Length of message\n"@ + "    mov ecx, message_"@ + dec(i)
        + "\n"@ + "    mov ebx, [stdout]\n"@ + "    mov eax, 4\n"@ + "    int 0x80\n\n"@
}

pub open spec fn w64_print(i: nat) -> Seq<char> {
    "    mov rdx, length_"@ + dec(i) + "\n    mov rsi, message_"@ + dec(i) + "\n"@ + "    mov rax, 1\n"@
        + "    mov rdi, 1\n"@ + "    syscall\n\n"@
}

/// The Windows layout of the first `k` statements; each print is numbered by its position.
pub open spec fn win_fold(ts: Seq<Types>, k: int, wide: bool) -> WinState
    decreases k,
{
    if k <= 0 {
        WinState { code: Seq::empty(), msgs: Seq::empty(), lens: Seq::empty() }
    } else {
        let w = win_fold(ts, k - 1, wide);
        let i = (k - 1) as nat;
        let (tag, a, b, c) = types_view(ts[k - 1]);
        if tag == 0 {
            WinState {
                code: w.code + if wide {
                    w64_print(i)
                } else {
                    w32_print(i)
                },
                msgs: w.msgs + "message_"@ + dec(i) + " db "@ + a + ", 0\n"@,
                lens: w.lens + "length_"@ + dec(i) + " equ $ - message_"@ + dec(i) + "\n"@,
            }
        } else if tag == 1 || tag == 2 {
            WinState { code: w.code + plain_var(a, b, c, wide), msgs: w.msgs, lens: w.lens }
        } else {
            w
        }
    }
}

pub open spec fn w32_program(ts: Seq<Types>) -> Seq<char> {
    let w = win_fold(ts, ts.len() as int, false);
    "section .data\n"@ + "stdout dd 1\n"@ + "section .text\n"@ + "global _mainCRTStartup\n\n"@
        + "_mainCRTStartup:\n"@ + w.code + w.msgs + w.lens + "    xor eax, eax\n"@ + "    mov eax, 1\n"@
        + "    int 0x80\n"@
}

pub open spec fn w64_program(ts: Seq<Types>) -> Seq<char> {
    let w = win_fold(ts, ts.len() as int, true);
    "section .data\n"@ + "section .text\n"@ + "global mainCRTStartup\n\n"@ + "mainCRTStartup:\n"@
        + w.code + w.msgs + w.lens + "    xor rdi, rdi\n"@ + "    mov rax, 60\n"@ + "    syscall\n"@
}

fn append_plain_var(code: &mut String, name: &String, value: &String, kind: &String, wide_num: bool)
    ensures
        final(code)@ == old(code)@ + plain_var(name@, value@, kind@, wide_num),
{
    let ghost c0 = code@;
    if kind_is(kind, "txt") {
        code.append(name.as_str());
        code.append(" db '");
        code.append(value.as_str());
        code.append("', 0\n");
    } else if kind_is(kind, "num") {
        code.append(name.as_str());
        code.append(
            if wide_num {
                " dq "
            } else {
                " dd "
            },
        );
        code.append(value.as_str());
        code.append("\n");
    } else if kind_is(kind, "dec") {
        code.append(name.as_str());
        code.append(" dq ");
        code.append(value.as_str());
        code.append("\n");
    }
    assert(code@ =~= c0 + plain_var(name@, value@, kind@, wide_num));
}

fn win_print(w: &mut (String, String, String), i: usize, text: &String, wide: bool)
    ensures
        final(w).0@ == old(w).0@ + if wide {
            w64_print(i as nat)
        } else {
            w32_print(i as nat)
        },
        final(w).1@ == old(w).1@ + "message_"@ + dec(i as nat) + " db "@ + text@ + ", 0\n"@,
        final(w).2@ == old(w).2@ + "length_"@ + dec(i as nat) + " equ $ - message_"@ + dec(i as nat) + "\n"@,
{
    let d = decimal(i);
    let ghost c0 = w.0@;
    let ghost m0 = w.1@;
    let ghost l0 = w.2@;
    w.1.append("message_");
    w.1.append(d.as_str());
    w.1.append(" db ");
    w.1.append(text.as_str());
    w.1.append(", 0\n");
    w.2.append("length_");
    w.2.append(d.as_str());
    w.2.append(" equ $ - message_");
    w.2.append(d.as_str());
    w.2.append("\n");
    if wide {
        w.0.append("    mov rdx, length_");
        w.0.append(d.as_str());
        w.0.append("\n    mov rsi, message_");
        w.0.append(d.as_str());
        w.0.append("\n");
        w.0.append("    mov rax, 1\n");
        w.0.append("    mov rdi, 1\n");
        w.0.append("    syscall\n\n");
        assert(w.0@ == c0 + w64_print(i as nat));
    } else {
        w.0.append("    mov edx, length_");
        w.0.append(d.as_str());
        w.0.append(" ; Length of message\n");
        w.0.append("    mov ecx, message_");
        w.0.append(d.as_str());
        w.0.append("\n");
        w.0.append("    mov ebx, [stdout]\n");
        w.0.append("    mov eax, 4\n");
        w.0.append("    int 0x80\n\n");
        assert(w.0@ == c0 + w32_print(i as nat));
    }
    assert(w.1@ == m0 + "message_"@ + dec(i as nat) + " db "@ + text@ + ", 0\n"@);
    assert(w.2@ == l0 + "length_"@ + dec(i as nat) + " equ $ - message_"@ + dec(i as nat) + "\n"@);
}

fn win_emit(tokens: &Vec<Types>, wide: bool) -> (r: (String, String, String))
    ensures
        ({
            let w = win_fold(tokens@, tokens@.len() as int, wide);
            r.0@ == w.code && r.1@ == w.msgs && r.2@ == w.lens
        }),
{
    let mut w = (String::new(), String::new(), String::new());
    let mut i: usize = 0;
    while i < tokens.len()
        invariant
            i <= tokens@.len(),
            ({
                let f = win_fold(tokens@, i as int, wide);
                w.0@ == f.code && w.1@ == f.msgs && w.2@ == f.lens
            }),
        decreases tokens@.len() - i,
    {
        match &tokens[i] {
            Types::Print(text) => {
                win_print(&mut w, i, text, wide);
            },
            Types::SVar(name, value, kind) | Types::MVar(name, value, kind) => {
                append_plain_var(&mut w.0, name, value, kind, wide);
            },
            Types::PVarUse(_) => {},
        }
        i += 1;
    }
    w
}

/// 32-bit Windows assembly for `tokens`, entry `_mainCRTStartup`, message lengths computed
/// by the assembler (see `w32_program`).
pub fn w32(tokens: Vec<Types>) -> (r: String)
    ensures
        r@ == w32_program(tokens@),
{
    let (code, msgs, lens) = win_emit(&tokens, false);
    let mut asm_code = String::from_str("section .data\n");
    asm_code.append("stdout dd 1\n");
    asm_code.append("section .text\n");
    asm_code.append("global _mainCRTStartup\n\n");
    asm_code.append("_mainCRTStartup:\n");
    asm_code.append(code.as_str());
    asm_code.append(msgs.as_str());
    asm_code.append(lens.as_str());
    asm_code.append("    xor eax, eax\n");
    asm_code.append("    mov eax, 1\n");
    asm_code.append("    int 0x80\n");
    asm_code
}

/// 64-bit Windows assembly for `tokens`, entry `mainCRTStartup` (see `w64_program`).
pub fn w64(tokens: Vec<Types>) -> (r: String)
    ensures
        r@ == w64_program(tokens@),
{
    let (code, msgs, lens) = win_emit(&tokens, true);
    let mut asm_code = String::from_str("section .data\n");
    asm_code.append("section .text\n");
    asm_code.append("global mainCRTStartup\n\n");
    asm_code.append("mainCRTStartup:\n");
    asm_code.append(code.as_str());
    asm_code.append(msgs.as_str());
    asm_code.append(lens.as_str());
    asm_code.append("    xor rdi, rdi\n");
    asm_code.append("    mov rax, 60\n");
    asm_code.append("    syscall\n");
    asm_code
}

/// A print as the `i`-th statement: a write of `message_i`, whose definition and length
/// follow it.
pub open spec fn m64_print(text: Seq<char>, i: nat) -> Seq<char> {
    let l = "message_"@ + dec(i);
    "    mov rax, 0x2000004\n"@ + "    mov rdi, 1\n"@ + "    mov rsi, "@ + l + "\n"@ + "    mov rdx, "@ + l
        + "_len\n"@ + "    syscall\n\n"@ + l + " db '"@ + text + "', 0\n"@ + l + "_len equ $ - "@ + l + "\n"@
}

/// The macOS layout of the first `k` statements.
pub open spec fn m64_fold(ts: Seq<Types>, k: int) -> Seq<char>
    decreases k,
{
    if k <= 0 {
        Seq::empty()
    } else {
        let (tag, a, b, c) = types_view(ts[k - 1]);
        m64_fold(ts, k - 1) + if tag == 0 {
            m64_print(a, (k - 1) as nat)
        } else if tag == 1 || tag == 2 {
            plain_var(a, b, c, false)
        } else {
            Seq::empty()
        }
    }
}

pub open spec fn m64_program(ts: Seq<Types>) -> Seq<char> {
    "section .data\n"@ + "section .text\n"@ + "global _start\n\n"@ + "_start:\n"@ + m64_fold(ts, ts.len() as int)
        + "    mov rax, 0x2000001\n"@ + "    xor rdi, rdi\n"@ + "    syscall\n"@
}

/// 64-bit macOS assembly for `tokens`: system call numbers offset by `0x2000000`, each
/// message stored right after the code that writes it, under a label of its own (see
/// `m64_program`).
pub fn m64(tokens: Vec<Types>) -> (r: String)
    ensures
        r@ == m64_program(tokens@),
{
    let mut asm_code = String::from_str("section .data\n");
    asm_code.append("section .text\n");
    asm_code.append("global _start\n\n");
    asm_code.append("_start:\n");
    let ghost h = asm_code@;
    let mut i: usize = 0;
    while i < tokens.len()
        invariant
            i <= tokens@.len(),
            h == "section .data\n"@ + "section .text\n"@ + "global _start\n\n"@ + "_start:\n"@,
            asm_code@ == h + m64_fold(tokens@, i as int),
        decreases tokens@.len() - i,
    {
        let ghost a0 = asm_code@;
        match &tokens[i] {
            Types::Print(text) => {
                let mut l = String::from_str("message_");
                let d = decimal(i);
                l.append(d.as_str());
                asm_code.append("    mov rax, 0x2000004\n");
                asm_code.append("    mov rdi, 1\n");
                asm_code.append("    mov rsi, ");
                asm_code.append(l.as_str());
                asm_code.append("\n");
                asm_code.append("    mov rdx, ");
                asm_code.append(l.as_str());
                asm_code.append("_len\n");
                asm_code.append("    syscall\n\n");
                asm_code.append(l.as_str());
                asm_code.append(" db '");
                asm_code.append(text.as_str());
                asm_code.append("', 0\n");
                asm_code.append(l.as_str());
                asm_code.append("_len equ $ - ");
                asm_code.append(l.as_str());
                asm_code.append("\n");
                assert(asm_code@ == a0 + m64_print(text@, i as nat));
            },
            Types::SVar(name, value, kind) | Types::MVar(name, value, kind) => {
                append_plain_var(&mut asm_code, name, value, kind, false);
            },
            Types::PVarUse(_) => {
                assert(asm_code@ == asm_code@ + Seq::<char>::empty());
            },
        }
        i += 1;
    }
    asm_code.append("    mov rax, 0x2000001\n");
    asm_code.append("    xor rdi, rdi\n");
    asm_code.append("    syscall\n");
    asm_code
}

/// The assembly layout that `target` names: `LM` and `LHM` for 64- and 32-bit Linux, `WM`
/// and `WHM` for 64- and 32-bit Windows, `MM` for 64-bit macOS. Any other target gives
/// nothing.
pub fn mkasm(tokens: Vec<Types>, target: String) -> (r: String)
    ensures
        target@ == "LM"@ ==> r@ == linux_program(tokens@, true),
        target@ == "LHM"@ ==> r@ == linux_program(tokens@, false),
        target@ == "WM"@ ==> r@ == w64_program(tokens@),
        target@ == "WHM"@ ==> r@ == w32_program(tokens@),
        target@ == "MM"@ ==> r@ == m64_program(tokens@),
        !(target@ == "LM"@ || target@ == "LHM"@ || target@ == "WM"@ || target@ == "WHM"@ || target@
            == "MM"@) ==> r@.len() == 0,
{
    proof {
        reveal_strlit("LM");
        reveal_strlit("LHM");
        reveal_strlit("WM");
        reveal_strlit("WHM");
        reveal_strlit("MM");
        assert("LM"@.len() == 2 && "WM"@.len() == 2 && "MM"@.len() == 2);
        assert("LHM"@.len() == 3 && "WHM"@.len() == 3);
        assert("LM"@[0] == 'L' && "WM"@[0] == 'W' && "MM"@[0] == 'M');
        assert("LHM"@[0] == 'L' && "WHM"@[0] == 'W');
        assert("LM"@ != "LHM"@ && "LM"@ != "WM"@ && "LM"@ != "WHM"@ && "LM"@ != "MM"@);
        assert("LHM"@ != "WM"@ && "LHM"@ != "WHM"@ && "LHM"@ != "MM"@);
        assert("WM"@ != "WHM"@ && "WM"@ != "MM"@ && "WHM"@ != "MM"@);
    }
    if kind_is(&target, "LM") {
        lfor64(tokens)
    } else if kind_is(&target, "LHM") {
        lfor32(tokens)
    } else if kind_is(&target, "WM") {
        w64(tokens)
    } else if kind_is(&target, "WHM") {
        w32(tokens)
    } else if kind_is(&target, "MM") {
        m64(tokens)
    } else {
        String::new()
    }
}

} // verus!
