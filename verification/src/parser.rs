pub mod cursor;
pub mod grammar;
pub mod lexer;
pub mod lexer_error;
pub mod parser;
pub mod parser_error;
pub mod progress;
pub mod token;
