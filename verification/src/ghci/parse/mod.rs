//! Parsers for `ghci` output and Haskell code.
//!
//! Every parser works on a character sequence and a position in it. The `*_at` spec functions
//! give the grammar: `Some(end)` is the position just after what the parser consumes, `None`
//! means the parser fails there.

pub mod scan;
pub mod lines;
pub mod haskell_grammar;
pub mod ghc_message;
pub mod haskell_source_file;
pub mod module_and_files;
pub mod eval;
pub mod show_paths;
pub mod show_targets;
pub mod target_kind;
pub mod module_set;
pub mod transform_till;
