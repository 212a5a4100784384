//! A compiler for a small line-oriented language of declarations, prints, inputs, arithmetic
//! and conditionals: a tokenizer, a parser that collects errors as it goes, two optimizing
//! passes (dead declarations and print fusion; constant inlining), and emitters for Rust, C,
//! LLVM IR and several assembly layouts.

pub mod text;
pub mod numtext;
pub mod literals;
pub mod token;
pub mod lexeme;
pub mod ast;
pub mod errs;
pub mod names;
pub mod symtab;
pub mod placeholders;
pub mod condition;
pub mod mathop;
pub mod parser;
pub mod var_checker;
pub mod pass1;
pub mod pass2;
pub mod emit_common;
pub mod emit_c;
pub mod emit_rs;
pub mod emit_llvm;
pub mod lx_text;
pub mod emit_lx;
pub mod archs;
pub mod pipeline;
