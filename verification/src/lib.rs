//! Split a flat SQL schema dump into a tree of per-object `.sql` files.
//!
//! The dump text is a sequence of `--`-delimited comment blocks, each with a
//! header line naming an object and its kind, followed by the object's SQL
//! body. The parser classifies every header/body pair into a bucket of the
//! [`schema::Schema`] model; the planner then turns the model into a list of
//! file-write actions (one file per table, function and type, with constraint
//! and index bodies appended onto their owning table's file).

pub mod header;
pub mod kinds;
pub mod laws;
pub mod plan;
pub mod scan;
pub mod schema;
