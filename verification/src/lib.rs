//! An annotation-driven source-to-source generator for cycle-collection
//! boilerplate.
//!
//! The library walks a plain-value model of a parsed C++ declaration tree
//! (`ast`), discovers annotations of the form `DERIVE=<name>` (`discover`),
//! dispatches each discovered target to a registered generator (`deriver`),
//! and, for the cycle-collection generator (`cc`), decides field by field
//! which references participate in reference cycles and emits the matching
//! unlink and traverse procedures.  `args` filters compiler arguments for
//! the front end's search-path probe, and `laws` proves the properties that
//! hold across these pieces.

pub mod args;
pub mod ast;
pub mod cc;
pub mod deriver;
pub mod discover;
pub mod laws;
pub mod strutil;
