pub mod ast;
pub mod builtins;
pub mod code;
pub mod compiler;
pub mod environment;
pub mod evaluator;
pub mod lexer;
pub mod object;
pub mod parser;
pub mod vm;
