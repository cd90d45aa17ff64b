//! Front end for a small SQL-like query language: a tokenizer that turns raw
//! text into a flat sequence of lexical tokens, and a recursive-descent parser
//! that turns that sequence into a typed abstract syntax tree for `SELECT`,
//! `INSERT`, and `CREATE TABLE` / `CREATE DATABASE` statements.

pub mod ast;
pub mod grammar;
pub mod laws;
pub mod lexer;
pub mod parser;
pub mod text;
