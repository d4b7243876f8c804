//! An external scanner for an indentation-sensitive language: it produces the
//! line-structure tokens (NEWLINE, INDENT, DEDENT) and the string-literal tokens
//! (STRING_START, STRING_CONTENT, STRING_END) that a context-free grammar
//! cannot recognise, and saves its state in a bounded byte buffer.

pub mod codec;
pub mod delimiter;
pub mod lexer;
pub mod line;
pub mod literal;
pub mod scanner;
pub mod state;
pub mod symbols;

pub use delimiter::Delimiter;
pub use lexer::{Lexer, TSLexer};
pub use scanner::Scanner;
pub use symbols::ValidSymbols;
