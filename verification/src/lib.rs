//! Core logic of a small interactive shell: a quote-aware tokenizer,
//! a builtin-command registry, search-path resolution, and per-line
//! command classification. Reading input, probing the filesystem and
//! spawning processes are left to the surrounding program; everything
//! here is pure computation with verified contracts.

pub mod text;
pub mod tokenizer;
pub mod builtins;
pub mod resolver;
pub mod dispatch;
