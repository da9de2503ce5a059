//! Packing of RDF statements into size-capped datasets for publication.
//!
//! Parsed statements are grouped into datasets that, serialized into a
//! binary RDF container, come as close to a byte cap as they can without
//! exceeding it. The heart of the crate is [`search::BatchSearch`], the
//! adaptive search for the number of statements of the next dataset, and
//! [`prepare::Packer`], which applies it to a buffer of statements.
//!
//! - [`search`]: the search for the size of a dataset.
//! - [`convergence`]: how many probes a search takes.
//! - [`serialize`]: statements into the binary container.
//! - [`prepare`]: the reader's, the packer's and the writer's part.
//! - [`publish`]: what publication needs of prepared files.
//! - [`ui`]: reports of progress and the totals kept of them.
//! - [`context`]: cooperative cancellation.
//! - [`path`]: file paths as text.

pub mod context;
pub mod convergence;
pub mod path;
pub mod prepare;
pub mod publish;
pub mod search;
pub mod serialize;
pub mod ui;
