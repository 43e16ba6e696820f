pub mod ast_printer;
pub mod interpreter;
pub mod lox;
pub mod number;
pub mod parser;
pub mod scanner;
pub mod syntax;
pub mod text;
pub mod token;
pub mod visit;
