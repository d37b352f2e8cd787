//! Reading source files: the parse as a tree of plain values, and the
//! rules that find declarations, identifiers, imports and highlights in it.

pub mod grammar;
pub mod highlights;
pub mod imports;
pub mod matching;
pub mod searcher;
pub mod symbols;
pub mod tree;
