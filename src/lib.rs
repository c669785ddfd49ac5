use vstd::prelude::*;

pub mod config;
pub mod input_system;
pub mod lexical_analyzer;
pub mod symbol_table;
pub mod token;

pub use config::Config;
pub use input_system::{DoubleBuffer, Scan};
pub use lexical_analyzer::{ErrorKind, LexError, LexicalAnalyzer};
pub use symbol_table::SymbolTable;
pub use token::{Category, KeywordKind, Token};

verus! {

} // verus!
