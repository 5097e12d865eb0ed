//! A lexical scanner for a small scripting language, the expression tree that
//! its tokens are later built into, and a printer over that tree.
pub mod expr;
pub mod print;
pub mod scanner;
pub mod scanner_lemmas;
pub mod token;
