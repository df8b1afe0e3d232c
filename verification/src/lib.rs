//! Front end of the Xenomorph schema language: lexer, parser, annotation
//! check, and the per-document analysis cache behind the editor queries.
//!
//! Each executable part is proved against a mathematical description of what
//! it computes: `lexing` for the lexer, `grammar` for the parser. The laws
//! that hold of these descriptions stand beside them as proof functions.

pub mod backend;
pub mod config;
pub mod formatting;
pub mod grammar;
pub mod grammar_laws;
pub mod lexer;
pub mod lexing;
pub mod parser;
pub mod parser_expr;
pub mod plugins;
pub mod queries;
pub mod render;
pub mod semantic;
pub mod text;
pub mod tokens;
