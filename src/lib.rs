//! A small language front end: a tokenizer, a recursive-descent parser and
//! the evaluation order of its programs, with spans that tie every token,
//! tree node and diagnostic to the source text.

pub mod text;
pub mod span;
pub mod token;
pub mod qcl_error;
pub mod parser_error;
pub mod syntax_error;
pub mod lexer;
pub mod ast;
pub mod parser;
pub mod interpreter;
pub mod pipeline;
pub mod environment;
