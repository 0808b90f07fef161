//! A schema compiler front end: a tokenizer and a recursive-descent parser for a
//! small type-declaration language, and code generators that render the parsed
//! declarations for several target languages.

pub mod text;
pub mod tokenizer;
pub mod parser;
pub mod generator;
