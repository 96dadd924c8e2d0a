//! Buffers typed scalar values into size-bounded pages and assembles them into
//! row groups of a Parquet file.
//!
//! The layers follow the layout of the file:
//!
//! * [`table::Table`] keeps one column per schema field in lockstep and hands
//!   out whole row groups.
//! * [`column_builder::ColumnBuilder`] splits one column chunk into pages that
//!   stay under a byte budget.
//! * [`page_builder::PageBuilder`] serializes values into one plain-encoded page
//!   and tracks its statistics.
//! * [`value::Value`] is a single scalar of one of the five supported types.
//!
//! Encoding of finished pages, compression and the file layout itself are left
//! to parquet2; the calls into it are gathered in [`codec`], and [`bloom`]
//! tests membership against one of its bloom filters.

pub mod bloom;
pub mod codec;
pub mod column_builder;
pub mod error;
pub mod page_builder;
pub mod table;
pub mod value;
