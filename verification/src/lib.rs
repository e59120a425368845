//! Folio: search arXiv and import papers into an Obsidian vault as
//! markdown notes. This crate is the verified core; the terminal front end
//! lives beside it.
use vstd::prelude::*;

pub mod app;
pub mod config;
pub mod fetch;
pub mod obsidian;
pub mod templates;
pub mod text;
pub mod ui;

verus! {
}
