//! A lookup of repositories in archives that were built before.
//!
//! The question is whether a repository, named by the address of a git
//! remote or by the identifier of a model repository, is already in an
//! archive. One repository has many spellings, so a candidate address is
//! normalized into all the variants under which it may have been recorded,
//! and each variant is looked up in an index that was parsed from the
//! archive file.
//!
//! - `text`: texts as sequences of characters.
//! - `normalize`: the variants of an address.
//! - `archive`: the archive files and their parser.
//! - `index`: the two indexes and what they answer.
//! - `store`: the holder of the index in force, and the rules of its reload.
//! - `protocol`: requests, responses and their wire form.
//! - `serve`, `scan`, `clone`, `hash`: the parameters of the tools around
//!   the archives, and what those tools decide.

pub mod archive;
pub mod clone;
pub mod hash;
pub mod index;
pub mod normalize;
pub mod protocol;
pub mod scan;
pub mod serve;
pub mod store;
pub mod text;
