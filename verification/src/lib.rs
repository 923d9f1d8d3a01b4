//! Catalog construction, mirror resolution and download bookkeeping for a
//! site that lists releases by product version.
//!
//! - `page` parses pages and holds the queries that are made on them.
//! - `listing` reads the headers and rows of the listing page.
//! - `catalog` turns headers and rows into the catalog; `catalog_laws` states
//!   what holds of every catalog.
//! - `selection` picks a version and a release by what the operator entered.
//! - `mirror` resolves a mirror page to the address of the file.
//! - `download` keeps the books of a streamed download; `download_laws`
//!   states what holds of every run.
//! - `text` has the character-level helpers, `constants` the fixed addresses
//!   and selectors of the site.

pub mod catalog;
pub mod catalog_laws;
pub mod constants;
pub mod download;
pub mod download_laws;
pub mod listing;
pub mod mirror;
pub mod page;
pub mod selection;
pub mod text;
