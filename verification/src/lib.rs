//! A small acceptance checker for module-and-trait fixtures.
//!
//! A fixture is a single source text declaring nested modules, functions
//! (possibly generic, possibly using `impl Trait` positions), traits and
//! type aliases.  The checker parses the text, builds a symbol table over
//! the declared items, resolves every qualified path against the module
//! hierarchy under a documented visibility policy, and confirms that every
//! trait named in a bound or `impl Trait` position is declared and visible.
//! Each fixture yields a pass/fail report carrying the errors found.

pub mod ast;
pub mod bounds;
pub mod driver;
pub mod errors;
pub mod generic;
pub mod lexer;
pub mod parser;
pub mod resolve;
pub mod symtab;
