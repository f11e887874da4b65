//! Verified core of a `ghci` session supervisor: parsers for GHC/GHCi output,
//! bookkeeping of loaded modules, reload classification and related helpers.

pub mod text;
pub mod haskell_show;
pub mod foo;
pub mod ghci;
pub mod haskell_source_file;
pub mod event_filter;
pub mod clonable_command;
pub mod canonicalized_path;
pub mod path_order;
pub mod cli;
