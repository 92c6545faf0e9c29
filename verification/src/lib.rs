//! Forward-only, page-lazy reading of one Parquet leaf column, and selective caching of Parquet
//! page indexes.
//!
//! [`forward`] plans what a decoder has to skip and decode so that a reader delivers the rows that
//! it is asked for, and [`delivery`] states what such a reader promises. [`selection`] derives
//! which page-index entries a scan needs, [`indexes`] and [`metadata_cache`] hold the ones that
//! were decoded, and [`index_ranges`] and [`byte_ranges`] say which bytes to fetch for the rest.

pub mod byte_ranges;
pub mod cursor;
pub mod cursor_laws;
pub mod delivery;
pub mod error;
pub mod footer;
pub mod forward;
pub mod index_ranges;
pub mod indexes;
pub mod key;
pub mod key_map;
pub mod key_set;
pub mod metadata_cache;
pub mod page_laws;
pub mod pages;
pub mod projection;
pub mod projection_laws;
pub mod selection;
