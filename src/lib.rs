//! Recombining the pages of documents: merging several into one and
//! splitting one into several by page range.
//!
//! A document is an object table keyed by `ObjectId`, a trailer and a page
//! list (`document`). Page ranges are parsed and checked by `page_range`.
//! `copier` copies page objects between tables under fresh identifiers and
//! rewrites their references; `assembler` builds the catalog and page tree
//! around them; `merger` and `splitter` orchestrate whole operations;
//! `metadata` and `validator` read a document without changing it.

use vstd::prelude::*;

pub mod api_types;
pub mod assembler;
pub mod config;
pub mod copier;
pub mod document;
pub mod error;
pub mod file_handler;
pub mod merger;
pub mod metadata;
pub mod object;
pub mod page_range;
pub mod splitter;
pub mod text;
pub mod util;
pub mod validator;

verus! {

} // verus!
